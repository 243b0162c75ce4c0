//! What each endpoint does with a request: the checks it makes, in their
//! order, the change it makes to the state, and what it answers.
//!
//! A request that fails changes nothing. Where an endpoint needs a value
//! from outside (a fresh id, the time, a random token), `respond` takes
//! the value as an argument and says exactly what happens with it, and
//! `handler` draws the value and hands it to `respond`.

use vstd::prelude::*;
use crate::auth::{
    authenticate,
    bearer_header,
    get_auth_token,
    presented_token,
    Request,
    RequestView,
};
use crate::credentials::identity;
use crate::endpoints::{CreateUser, GetUser, Login, Me, PostEvent, Timeline};
use crate::error::{agrees, Error, Lookup};
use crate::events::{acknowledgement, content_fits, MAX_CONTENT_LEN};
use crate::fresh::{all_alphanumeric, generate_token, now_micros, random_id, TOKEN_LEN};
use crate::payloads::{CreateEventPayload, CreateUserPayload};
use crate::responses::{
    EventResponse,
    EventView,
    PostEventResponse,
    PostEventView,
    TokenResponse,
    UserResponse,
    UserView,
};
use crate::state::{State, Tables};
use crate::status::StatusCode;

verus! {

/// Whether an authentication found a user of the given name.
pub open spec fn registered_as(found: Result<UserView, Error>, username: Seq<char>) -> bool {
    found matches Ok(user) && user.username == username
}

/// The page that is served when the caller names none.
pub const DEFAULT_PAGE: usize = 1;

/// The page a request asks for.
pub open spec fn requested_page(req: RequestView) -> usize {
    match req.page {
        Some(page) => page,
        None => DEFAULT_PAGE,
    }
}

impl Tables {
    /// Who the caller is.
    pub open spec fn me(self, req: RequestView) -> Result<(UserView, StatusCode), Error> {
        match self.credentials.authenticate(req.authorization) {
            Err(e) => Err(e),
            Ok(user) => Ok((user, StatusCode::Success)),
        }
    }

    /// The profile of the user with the given username.
    pub open spec fn get_user(self, username: Seq<char>) -> Result<(UserView, StatusCode), Error> {
        match self.credentials.identity_named(username) {
            None => Err(Error::UserNotFound(Lookup::Profile)),
            Some(user) => Ok((user, StatusCode::Success)),
        }
    }

    /// The page of the caller's feed that a request asks for.
    pub open spec fn timeline_page(self, req: RequestView) -> Result<
        (Seq<EventView>, StatusCode),
        Error,
    > {
        match self.credentials.authenticate(req.authorization) {
            Err(e) => Err(e),
            Ok(user) => match self.timeline_outcome(user.id, requested_page(req), req.page_size) {
                Err(e) => Err(e),
                Ok(items) => Ok((items, StatusCode::Success)),
            },
        }
    }

    /// What posting an event under the id `id` ends in. The caller is
    /// looked at first: nobody learns anything about a content, not even
    /// that it is too long, without being authenticated.
    pub open spec fn post_event(self, req: RequestView, content: Seq<char>, id: u128) -> Result<
        (PostEventView, StatusCode),
        Error,
    > {
        match self.credentials.authenticate(req.authorization) {
            Err(e) => Err(e),
            Ok(user) => if content.len() > MAX_CONTENT_LEN {
                Err(Error::ContentTooLong)
            } else {
                match self.events.post_outcome(id, content) {
                    Err(e) => Err(e),
                    Ok(_) => Ok((acknowledgement(id, content), StatusCode::Created)),
                }
            },
        }
    }

    /// The state after an event was posted.
    pub open spec fn after_post_event(
        self,
        req: RequestView,
        content: Seq<char>,
        id: u128,
        created_at: i64,
    ) -> Tables {
        match (self.post_event(req, content, id), self.credentials.authenticate(req.authorization)) {
            (Ok(_), Ok(user)) => Tables {
                credentials: self.credentials,
                follows: self.follows,
                events: self.events.with_event(id, user.id, content, created_at),
            },
            _ => self,
        }
    }

    /// What a registration under the id `id` and with the token `token`
    /// ends in.
    pub open spec fn create_user(self, username: Seq<char>, id: u128, token: Seq<char>) -> Result<
        (Seq<char>, StatusCode),
        Error,
    > {
        match self.credentials.register_outcome(id, username, token) {
            Err(e) => Err(e),
            Ok(_) => Ok((token, StatusCode::Created)),
        }
    }

    /// The state after a registration.
    pub open spec fn after_create_user(
        self,
        username: Seq<char>,
        hashed_password: Seq<char>,
        id: u128,
        token: Seq<char>,
    ) -> Tables {
        if self.create_user(username, id, token) is Ok {
            Tables {
                credentials: self.credentials.with_registration(
                    id,
                    username,
                    hashed_password,
                    token,
                ),
                follows: self.follows,
                events: self.events,
            }
        } else {
            self
        }
    }

    /// The password hash that a login to `username` has to match.
    pub open spec fn challenge(self, username: Seq<char>) -> Result<Seq<char>, Error> {
        match self.credentials.stored_hash(username) {
            Some(found) => Ok(found.1),
            None => Err(Error::UserNotFound(Lookup::Account)),
        }
    }

    /// What a login ends in, given whether the password matched.
    pub open spec fn login(self, username: Seq<char>, password_matches: bool) -> Result<
        (Seq<char>, StatusCode),
        Error,
    > {
        match self.credentials.login_outcome(username, password_matches) {
            Err(e) => Err(e),
            Ok(token) => Ok((token, StatusCode::Created)),
        }
    }

    /// What the caller's wish to follow `username` ends in.
    pub open spec fn follow(self, req: RequestView, username: Seq<char>) -> Result<
        StatusCode,
        Error,
    > {
        match self.credentials.authenticate(req.authorization) {
            Err(e) => Err(e),
            Ok(current_user) => match self.credentials.identity_named(username) {
                None => Err(Error::UserNotFound(Lookup::Profile)),
                Some(followed) => match self.follows.follow_outcome(current_user.id, followed.id) {
                    Err(e) => Err(e),
                    Ok(_) => Ok(StatusCode::Created),
                },
            },
        }
    }

    /// The state after the caller asked to follow `username`.
    pub open spec fn after_follow(self, req: RequestView, username: Seq<char>) -> Tables {
        match (
            self.follow(req, username),
            self.credentials.authenticate(req.authorization),
            self.credentials.identity_named(username),
        ) {
            (Ok(_), Ok(current_user), Some(followed)) => Tables {
                credentials: self.credentials,
                follows: self.follows.with_edge(current_user.id, followed.id),
                events: self.events,
            },
            _ => self,
        }
    }

    /// The users that `username` follows.
    pub open spec fn following(self, username: Seq<char>) -> Result<
        (Seq<UserView>, StatusCode),
        Error,
    > {
        match self.credentials.identity_named(username) {
            None => Err(Error::UserNotFound(Lookup::Profile)),
            Some(user) => Ok((self.following_of(user.id), StatusCode::Success)),
        }
    }

    /// The users that follow `username`.
    pub open spec fn followers(self, username: Seq<char>) -> Result<
        (Seq<UserView>, StatusCode),
        Error,
    > {
        match self.credentials.identity_named(username) {
            None => Err(Error::UserNotFound(Lookup::Profile)),
            Some(user) => Ok((self.followers_of(user.id), StatusCode::Success)),
        }
    }

    /// What logging out ends in.
    pub open spec fn logout(self, req: RequestView) -> Result<StatusCode, Error> {
        match self.credentials.authenticate(req.authorization) {
            Err(e) => Err(e),
            Ok(_) => Ok(StatusCode::Success),
        }
    }

    /// The state after the caller logged out: the token it came with is
    /// revoked.
    pub open spec fn after_logout(self, req: RequestView) -> Tables {
        match (self.logout(req), presented_token(req.authorization)) {
            (Ok(_), Ok(token)) => Tables {
                credentials: self.credentials.without_token(token),
                follows: self.follows,
                events: self.events,
            },
            _ => self,
        }
    }
}

impl Tables {
    /// A user that is registered stays registered when the users are only
    /// added to.
    proof fn lemma_users_stay(self, later: Tables, id: u128)
        requires
            self.credentials.has_user_id(id),
            self.credentials.users.len() <= later.credentials.users.len(),
            forall|i: int|
                0 <= i < self.credentials.users.len() ==> #[trigger] later.credentials.users[i]
                    == self.credentials.users[i],
        ensures
            later.credentials.has_user_id(id),
    {
        let k = choose|k: int|
            0 <= k < self.credentials.users.len() && #[trigger] self.credentials.users[k].id == id;
        assert(later.credentials.users[k].id == id);
    }

    /// Whoever a request authenticates is a registered user.
    pub proof fn lemma_caller_is_registered(self, req: RequestView)
        requires
            self.wf(),
        ensures
            self.credentials.authenticate(req.authorization) matches Ok(user)
                ==> self.credentials.has_user_id(user.id) && self.credentials.identity_of(user.id)
                == Some(user),
    {
        if let Ok(user) = self.credentials.authenticate(req.authorization) {
            let token = presented_token(req.authorization).unwrap();
            self.credentials.lemma_resolved_is_registered(token);
        }
    }

    /// A registration leaves every edge and every event with the users
    /// they name.
    pub proof fn lemma_create_user_keeps_references(
        self,
        username: Seq<char>,
        hashed_password: Seq<char>,
        id: u128,
        token: Seq<char>,
    )
        requires
            self.names_users_only(),
        ensures
            self.after_create_user(username, hashed_password, id, token).names_users_only(),
    {
        let after = self.after_create_user(username, hashed_password, id, token);
        if self.create_user(username, id, token) is Ok {
            assert forall|i: int| 0 <= i < after.follows.edges.len() implies after.credentials.has_user_id(
                (#[trigger] after.follows.edges[i]).follower_id,
            ) && after.credentials.has_user_id(after.follows.edges[i].followed_id) by {
                self.lemma_users_stay(after, self.follows.edges[i].follower_id);
                self.lemma_users_stay(after, self.follows.edges[i].followed_id);
            }
            assert forall|i: int| 0 <= i < after.events.rows.len() implies after.credentials.has_user_id(
                (#[trigger] after.events.rows[i]).user_id,
            ) by {
                self.lemma_users_stay(after, self.events.rows[i].user_id);
            }
        }
    }

    /// A follow that an endpoint accepts leads from a registered user to a
    /// registered user.
    pub proof fn lemma_follow_keeps_references(self, req: RequestView, username: Seq<char>)
        requires
            self.wf(),
            self.names_users_only(),
        ensures
            self.after_follow(req, username).names_users_only(),
    {
        let after = self.after_follow(req, username);
        if self.follow(req, username) is Ok {
            let current_user = self.credentials.authenticate(req.authorization).unwrap();
            let followed = self.credentials.identity_named(username).unwrap();
            self.lemma_caller_is_registered(req);
            let k = choose|k: int|
                0 <= k < self.credentials.users.len() && #[trigger] self.credentials.users[k].username
                    == username;
            assert(self.credentials.users[k].id == followed.id);
            let n = self.follows.edges.len() as int;
            assert forall|i: int| 0 <= i < after.follows.edges.len() implies after.credentials.has_user_id(
                (#[trigger] after.follows.edges[i]).follower_id,
            ) && after.credentials.has_user_id(after.follows.edges[i].followed_id) by {
                if i < n {
                    assert(after.follows.edges[i] == self.follows.edges[i]);
                }
            }
        }
    }

    /// An event that an endpoint accepts is of a registered user.
    pub proof fn lemma_post_event_keeps_references(
        self,
        req: RequestView,
        content: Seq<char>,
        id: u128,
        created_at: i64,
    )
        requires
            self.wf(),
            self.names_users_only(),
        ensures
            self.after_post_event(req, content, id, created_at).names_users_only(),
    {
        let after = self.after_post_event(req, content, id, created_at);
        if self.post_event(req, content, id) is Ok {
            self.lemma_caller_is_registered(req);
            let n = self.events.rows.len() as int;
            assert forall|i: int| 0 <= i < after.events.rows.len() implies after.credentials.has_user_id(
                (#[trigger] after.events.rows[i]).user_id,
            ) by {
                if i < n {
                    assert(after.events.rows[i] == self.events.rows[i]);
                }
            }
        }
    }

    /// A logout takes a token away and no user: every edge and every event
    /// keeps the users it names.
    pub proof fn lemma_logout_keeps_references(self, req: RequestView)
        requires
            self.names_users_only(),
        ensures
            self.after_logout(req).names_users_only(),
    {
        let after = self.after_logout(req);
        assert(after.credentials.users == self.credentials.users);
        assert forall|i: int| 0 <= i < after.follows.edges.len() implies after.credentials.has_user_id(
            (#[trigger] after.follows.edges[i]).follower_id,
        ) && after.credentials.has_user_id(after.follows.edges[i].followed_id) by {
            self.lemma_users_stay(after, self.follows.edges[i].follower_id);
            self.lemma_users_stay(after, self.follows.edges[i].followed_id);
        }
        assert forall|i: int| 0 <= i < after.events.rows.len() implies after.credentials.has_user_id(
            (#[trigger] after.events.rows[i]).user_id,
        ) by {
            self.lemma_users_stay(after, self.events.rows[i].user_id);
        }
    }
}

impl Me {
    /// Tells the caller who it is.
    pub fn handler(state: &State, req: &Request) -> (r: Result<(UserResponse, StatusCode), Error>)
        requires
            state.wf(),
        ensures
            agrees(r, state@.me(req@)),
    {
        match authenticate(state, req) {
            Err(e) => Err(e),
            Ok(user) => Ok((user, StatusCode::Success)),
        }
    }
}

impl GetUser {
    /// The profile of a user. Anybody may ask.
    pub fn handler(state: &State, username: &str) -> (r: Result<(UserResponse, StatusCode), Error>)
        requires
            state.wf(),
        ensures
            agrees(r, state@.get_user(username@)),
    {
        match state.credentials.find_user(username) {
            None => Err(Error::UserNotFound(Lookup::Profile)),
            Some(user) => Ok((user, StatusCode::Success)),
        }
    }
}

impl Timeline {
    /// A page of the caller's feed: the first page if the request names
    /// none.
    pub fn handler(state: &State, req: &Request) -> (r: Result<
        (Vec<EventResponse>, StatusCode),
        Error,
    >)
        requires
            state.wf(),
        ensures
            agrees(r, state@.timeline_page(req@)),
    {
        let current_user = match authenticate(state, req) {
            Ok(user) => user,
            Err(e) => {
                return Err(e);
            },
        };
        let page = match req.page {
            Some(page) => page,
            None => DEFAULT_PAGE,
        };
        match state.timeline(current_user.id, page, req.page_size) {
            Err(e) => Err(e),
            Ok(items) => Ok((items, StatusCode::Success)),
        }
    }
}

impl PostEvent {
    /// Posts an event of the caller under the id `id`, created at
    /// `created_at`. The caller is authenticated before the content is
    /// looked at.
    pub fn respond(
        state: &mut State,
        req: &Request,
        create_event: CreateEventPayload,
        id: u128,
        created_at: i64,
    ) -> (r: Result<(PostEventResponse, StatusCode), Error>)
        requires
            old(state).wf(),
        ensures
            final(state).wf(),
            agrees(r, old(state)@.post_event(req@, create_event.content@, id)),
            final(state)@ == old(state)@.after_post_event(
                req@,
                create_event.content@,
                id,
                created_at,
            ),
            r is Err ==> final(state)@ == old(state)@,
            old(state)@.names_users_only() ==> final(state)@.names_users_only(),
    {
        proof {
            if state@.names_users_only() {
                state@.lemma_post_event_keeps_references(
                    req@,
                    create_event.content@,
                    id,
                    created_at,
                );
            }
        }
        let user = match authenticate(state, req) {
            Ok(user) => user,
            Err(e) => {
                return Err(e);
            },
        };
        if !content_fits(create_event.content.as_str()) {
            return Err(Error::ContentTooLong);
        }
        match state.events.post_event(id, user.id, create_event.content, created_at) {
            Err(e) => Err(e),
            Ok(ack) => Ok((ack, StatusCode::Created)),
        }
    }

    /// Posts an event of the caller, under an id that is drawn at random
    /// and with the current time as the instant of its creation.
    pub fn handler(state: &mut State, req: &Request, create_event: CreateEventPayload) -> (r: Result<
        (PostEventResponse, StatusCode),
        Error,
    >)
        requires
            old(state).wf(),
        ensures
            final(state).wf(),
            exists|id: u128, created_at: i64|
                agrees(r, old(state)@.post_event(req@, create_event.content@, id)) && final(state)@
                    == #[trigger] old(state)@.after_post_event(
                    req@,
                    create_event.content@,
                    id,
                    created_at,
                ),
            old(state)@.credentials.authenticate(req@.authorization) matches Err(e) ==> r == Err::<
                (PostEventResponse, StatusCode),
                Error,
            >(e),
            old(state)@.credentials.authenticate(req@.authorization) is Ok
                && create_event.content@.len() > MAX_CONTENT_LEN ==> r == Err::<
                (PostEventResponse, StatusCode),
                Error,
            >(Error::ContentTooLong),
            r is Err ==> final(state)@ == old(state)@,
            old(state)@.names_users_only() ==> final(state)@.names_users_only(),
    {
        let id = random_id();
        let now = now_micros();
        Self::respond(state, req, create_event, id, now)
    }
}

impl CreateUser {
    /// Whether a registration may go on: whether the username is free.
    /// Asked before the password is hashed, so that no work is done for a
    /// name that is taken.
    pub fn vet(state: &State, create_user: &CreateUserPayload) -> (r: Result<(), Error>)
        ensures
            r == (if state@.credentials.has_username(create_user.username@) {
                Err::<(), Error>(Error::UsernameTaken)
            } else {
                Ok::<(), Error>(())
            }),
    {
        if state.credentials.username_taken(create_user.username.as_str()) {
            Err(Error::UsernameTaken)
        } else {
            Ok(())
        }
    }

    /// Registers a user under the id `id`, with the hash of its password
    /// and the token `token`, and answers with the token.
    pub fn respond(
        state: &mut State,
        username: String,
        hashed_password: String,
        id: u128,
        token: String,
    ) -> (r: Result<(TokenResponse, StatusCode), Error>)
        requires
            old(state).wf(),
        ensures
            final(state).wf(),
            agrees(r, old(state)@.create_user(username@, id, token@)),
            final(state)@ == old(state)@.after_create_user(
                username@,
                hashed_password@,
                id,
                token@,
            ),
            r is Ok ==> final(state)@.credentials.resolve(token@) == Some(identity(id, username@)),
            r is Err ==> final(state)@ == old(state)@,
            old(state)@.names_users_only() ==> final(state)@.names_users_only(),
    {
        proof {
            if state@.names_users_only() {
                state@.lemma_create_user_keeps_references(
                    username@,
                    hashed_password@,
                    id,
                    token@,
                );
            }
        }
        let answer = TokenResponse::new(token.as_str());
        match state.credentials.register(id, username, hashed_password, token) {
            Err(e) => Err(e),
            Ok(_) => Ok((answer, StatusCode::Created)),
        }
    }

    /// Registers a user under an id and with a token that are both drawn at
    /// random, and answers with the token. The token then authenticates
    /// the new user.
    pub fn handler(state: &mut State, username: String, hashed_password: String) -> (r: Result<
        (TokenResponse, StatusCode),
        Error,
    >)
        requires
            old(state).wf(),
        ensures
            final(state).wf(),
            exists|id: u128, token: Seq<char>|
                token.len() == TOKEN_LEN && all_alphanumeric(token) && agrees(
                    r,
                    old(state)@.create_user(username@, id, token),
                ) && final(state)@ == #[trigger] old(state)@.after_create_user(
                    username@,
                    hashed_password@,
                    id,
                    token,
                ),
            old(state)@.credentials.has_username(username@) ==> r == Err::<
                (TokenResponse, StatusCode),
                Error,
            >(Error::UsernameTaken),
            r matches Ok(answer) ==> registered_as(
                final(state)@.credentials.authenticate(Some(bearer_header(answer.0.token@))),
                username@,
            ),
            r is Err ==> final(state)@ == old(state)@,
            old(state)@.names_users_only() ==> final(state)@.names_users_only(),
    {
        let id = random_id();
        let token = generate_token();
        Self::respond(state, username, hashed_password, id, token)
    }
}

impl Login {
    /// The password hash that a login to `username` has to match.
    pub fn challenge(state: &State, username: &str) -> (r: Result<String, Error>)
        requires
            state.wf(),
        ensures
            agrees(r, state@.challenge(username@)),
    {
        match state.credentials.stored_hash(username) {
            Some(found) => Ok(found.1),
            None => Err(Error::UserNotFound(Lookup::Account)),
        }
    }

    /// Concludes a login to `username` and answers with the user's token.
    /// `password_matches` says whether the submitted password matched the
    /// hash that [`Self::challenge`] gave.
    pub fn handler(state: &State, username: &str, password_matches: bool) -> (r: Result<
        (TokenResponse, StatusCode),
        Error,
    >)
        requires
            state.wf(),
        ensures
            agrees(r, state@.login(username@, password_matches)),
    {
        match state.credentials.verify_login(username, password_matches) {
            Err(e) => Err(e),
            Ok(token) => Ok((TokenResponse { token }, StatusCode::Created)),
        }
    }
}

/// Makes the caller follow `username`.
pub fn follow(state: &mut State, req: &Request, username: &str) -> (r: Result<StatusCode, Error>)
    requires
        old(state).wf(),
    ensures
        final(state).wf(),
        agrees(r, old(state)@.follow(req@, username@)),
        final(state)@ == old(state)@.after_follow(req@, username@),
        r is Err ==> final(state)@ == old(state)@,
        old(state)@.names_users_only() ==> final(state)@.names_users_only(),
{
    proof {
        if state@.names_users_only() {
            state@.lemma_follow_keeps_references(req@, username@);
        }
    }
    let current_user = match authenticate(state, req) {
        Ok(user) => user,
        Err(e) => {
            return Err(e);
        },
    };
    let followed = match state.credentials.find_user(username) {
        Some(user) => user,
        None => {
            return Err(Error::UserNotFound(Lookup::Profile));
        },
    };
    match state.follows.follow(current_user.id, followed.id) {
        Err(e) => Err(e),
        Ok(_) => Ok(StatusCode::Created),
    }
}

/// The users that `username` follows. Anybody may ask.
pub fn following(state: &State, username: &str) -> (r: Result<
    (Vec<UserResponse>, StatusCode),
    Error,
>)
    requires
        state.wf(),
    ensures
        agrees(r, state@.following(username@)),
{
    match state.credentials.find_user(username) {
        None => Err(Error::UserNotFound(Lookup::Profile)),
        Some(user) => Ok((state.following_of(user.id), StatusCode::Success)),
    }
}

/// The users that follow `username`. Anybody may ask.
pub fn followers(state: &State, username: &str) -> (r: Result<
    (Vec<UserResponse>, StatusCode),
    Error,
>)
    requires
        state.wf(),
    ensures
        agrees(r, state@.followers(username@)),
{
    match state.credentials.find_user(username) {
        None => Err(Error::UserNotFound(Lookup::Profile)),
        Some(user) => Ok((state.followers_of(user.id), StatusCode::Success)),
    }
}

/// Whether `current_user_id` follows `followee_id`.
pub fn user_following(state: &State, current_user_id: u128, followee_id: u128) -> (b: bool)
    ensures
        b == state@.follows.is_following(current_user_id, followee_id),
{
    state.follows.is_following(current_user_id, followee_id)
}

/// Logs the caller out: revokes the token the request came with.
pub fn logout(state: &mut State, req: &Request) -> (r: Result<StatusCode, Error>)
    requires
        old(state).wf(),
    ensures
        final(state).wf(),
        agrees(r, old(state)@.logout(req@)),
        final(state)@ == old(state)@.after_logout(req@),
        r is Ok ==> final(state)@.logout(req@) == Err::<StatusCode, Error>(Error::Unauthenticated),
        r is Err ==> final(state)@ == old(state)@,
        old(state)@.names_users_only() ==> final(state)@.names_users_only(),
{
    proof {
        if state@.names_users_only() {
            state@.lemma_logout_keeps_references(req@);
        }
    }
    match authenticate(state, req) {
        Ok(_) => {},
        Err(e) => {
            return Err(e);
        },
    };
    match get_auth_token(req) {
        Ok(token) => {
            state.credentials.revoke(token.as_str());
        },
        Err(_) => {},
    }
    Ok(StatusCode::Success)
}

} // verus!
