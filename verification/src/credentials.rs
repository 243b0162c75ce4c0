//! The credential store: user records and the bearer tokens they own.
//!
//! The store keeps four promises: no two users share an id, no two users
//! share a username, no two token rows hold the same token, and every token
//! belongs to a user. It never sees a password in clear; it keeps the hash
//! it is given.

use vstd::prelude::*;
use crate::error::{agrees, Error, Lookup};
use crate::responses::{UserResponse, UserView};

verus! {

/// A user row, mathematically.
pub struct UserRow {
    pub id: u128,
    pub username: Seq<char>,
    pub hashed_password: Seq<char>,
}

impl UserRow {
    /// The public part of a user row.
    pub open spec fn identity(self) -> UserView {
        UserView { id: self.id, username: self.username }
    }
}

/// The identity made of an id and a username.
pub open spec fn identity(id: u128, username: Seq<char>) -> UserView {
    UserView { id, username }
}

/// A token row, mathematically.
pub struct TokenRow {
    pub user_id: u128,
    pub token: Seq<char>,
}

/// The credential store, mathematically: its rows in the order they came.
pub struct Credentials {
    pub users: Seq<UserRow>,
    pub tokens: Seq<TokenRow>,
}

/// The credential store that holds the given rows.
pub open spec fn rows(users: Seq<UserRow>, tokens: Seq<TokenRow>) -> Credentials {
    Credentials { users, tokens }
}

impl Credentials {
    /// The store without any row.
    pub open spec fn empty() -> Credentials {
        Credentials { users: Seq::empty(), tokens: Seq::empty() }
    }

    /// Ids, usernames and tokens are each unique, and every token has an
    /// owner.
    pub open spec fn wf(self) -> bool {
        &&& forall|i: int|
            0 <= i < self.tokens.len() ==> self.has_user_id((#[trigger] self.tokens[i]).user_id)
        &&& forall|i: int, j: int|
            #![trigger self.users[i], self.users[j]]
            0 <= i < j < self.users.len() ==> self.users[i].id != self.users[j].id
        &&& forall|i: int, j: int|
            #![trigger self.users[i], self.users[j]]
            0 <= i < j < self.users.len() ==> self.users[i].username != self.users[j].username
        &&& forall|i: int, j: int|
            #![trigger self.tokens[i], self.tokens[j]]
            0 <= i < j < self.tokens.len() ==> self.tokens[i].token != self.tokens[j].token
    }

    /// Whether a user has the given username.
    pub open spec fn has_username(self, name: Seq<char>) -> bool {
        exists|i: int| 0 <= i < self.users.len() && #[trigger] self.users[i].username == name
    }

    /// Whether a user has the given id.
    pub open spec fn has_user_id(self, id: u128) -> bool {
        exists|i: int| 0 <= i < self.users.len() && #[trigger] self.users[i].id == id
    }

    /// Whether a row holds the given token.
    pub open spec fn has_token(self, token: Seq<char>) -> bool {
        exists|i: int| 0 <= i < self.tokens.len() && #[trigger] self.tokens[i].token == token
    }

    /// The user with the given username, if there is one.
    pub open spec fn user_named(self, name: Seq<char>) -> Option<UserRow> {
        if self.has_username(name) {
            Some(
                self.users[choose|i: int|
                    0 <= i < self.users.len() && #[trigger] self.users[i].username == name],
            )
        } else {
            None
        }
    }

    /// The user with the given id, if there is one.
    pub open spec fn user_with_id(self, id: u128) -> Option<UserRow> {
        if self.has_user_id(id) {
            Some(
                self.users[choose|i: int|
                    0 <= i < self.users.len() && #[trigger] self.users[i].id == id],
            )
        } else {
            None
        }
    }

    /// The identity of the user with the given username.
    pub open spec fn identity_named(self, name: Seq<char>) -> Option<UserView> {
        match self.user_named(name) {
            Some(u) => Some(u.identity()),
            None => None,
        }
    }

    /// The identity of the user with the given id.
    pub open spec fn identity_of(self, id: u128) -> Option<UserView> {
        match self.user_with_id(id) {
            Some(u) => Some(u.identity()),
            None => None,
        }
    }

    /// Where the row of a token stands.
    pub open spec fn token_index(self, token: Seq<char>) -> Option<int> {
        if self.has_token(token) {
            Some(
                choose|i: int|
                    0 <= i < self.tokens.len() && #[trigger] self.tokens[i].token == token,
            )
        } else {
            None
        }
    }

    /// The user a token authenticates: the owner named by the token's row,
    /// provided that user exists. A token without a row authenticates nobody.
    pub open spec fn resolve(self, token: Seq<char>) -> Option<UserView> {
        match self.token_index(token) {
            Some(i) => self.identity_of(self.tokens[i].user_id),
            None => None,
        }
    }

    /// Whether a user owns any token.
    pub open spec fn owns_a_token(self, id: u128) -> bool {
        exists|i: int| 0 <= i < self.tokens.len() && #[trigger] self.tokens[i].user_id == id
    }

    /// Whether row `i` is the oldest token row of user `id`.
    pub open spec fn is_first_token_row(self, id: u128, i: int) -> bool {
        &&& 0 <= i < self.tokens.len()
        &&& self.tokens[i].user_id == id
        &&& forall|j: int| 0 <= j < i ==> (#[trigger] self.tokens[j]).user_id != id
    }

    /// The oldest token a user owns.
    pub open spec fn first_token_of(self, id: u128) -> Option<Seq<char>> {
        if self.owns_a_token(id) {
            Some(self.tokens[choose|i: int| self.is_first_token_row(id, i)].token)
        } else {
            None
        }
    }

    /// Whether a registration is accepted. The username is looked at first;
    /// an id or a token that is in use is the store's refusal.
    pub open spec fn register_outcome(self, id: u128, username: Seq<char>, token: Seq<char>) -> Result<
        (),
        Error,
    > {
        if self.has_username(username) {
            Err(Error::UsernameTaken)
        } else if self.has_user_id(id) || self.has_token(token) {
            Err(Error::StorageUnavailable)
        } else {
            Ok(())
        }
    }

    /// Whether a user row is accepted: its username and its id have to be
    /// new.
    pub open spec fn add_user_outcome(self, id: u128, username: Seq<char>) -> Result<(), Error> {
        if self.has_username(username) {
            Err(Error::UsernameTaken)
        } else if self.has_user_id(id) {
            Err(Error::StorageUnavailable)
        } else {
            Ok(())
        }
    }

    /// The store after a user row was offered.
    pub open spec fn after_add_user(
        self,
        id: u128,
        username: Seq<char>,
        hashed_password: Seq<char>,
    ) -> Credentials {
        if self.add_user_outcome(id, username) is Ok {
            Credentials {
                users: self.users.push(UserRow { id, username, hashed_password }),
                tokens: self.tokens,
            }
        } else {
            self
        }
    }

    /// Whether a token row is accepted: its owner has to exist, and the
    /// token has to be new.
    pub open spec fn add_token_outcome(self, user_id: u128, token: Seq<char>) -> Result<(), Error> {
        if !self.has_user_id(user_id) || self.has_token(token) {
            Err(Error::StorageUnavailable)
        } else {
            Ok(())
        }
    }

    /// The store after a token row was offered.
    pub open spec fn after_add_token(self, user_id: u128, token: Seq<char>) -> Credentials {
        if self.add_token_outcome(user_id, token) is Ok {
            Credentials { users: self.users, tokens: self.tokens.push(TokenRow { user_id, token }) }
        } else {
            self
        }
    }

    /// The store after a registration: one more user, and its token.
    pub open spec fn with_registration(
        self,
        id: u128,
        username: Seq<char>,
        hashed_password: Seq<char>,
        token: Seq<char>,
    ) -> Credentials {
        Credentials {
            users: self.users.push(UserRow { id, username, hashed_password }),
            tokens: self.tokens.push(TokenRow { user_id: id, token }),
        }
    }

    /// The store after a token was revoked: its row is gone, if it had one.
    pub open spec fn without_token(self, token: Seq<char>) -> Credentials {
        match self.token_index(token) {
            Some(i) => Credentials { users: self.users, tokens: self.tokens.remove(i) },
            None => self,
        }
    }

    /// The id and the password hash stored for a username.
    pub open spec fn stored_hash(self, name: Seq<char>) -> Option<(u128, Seq<char>)> {
        match self.user_named(name) {
            Some(u) => Some((u.id, u.hashed_password)),
            None => None,
        }
    }

    /// What a login ends in, given whether the password matched the stored
    /// hash: the user's oldest token, or the reason there is none.
    pub open spec fn login_outcome(self, username: Seq<char>, password_matches: bool) -> Result<
        Seq<char>,
        Error,
    > {
        match self.user_named(username) {
            None => Err(Error::UserNotFound(Lookup::Account)),
            Some(u) => if !password_matches {
                Err(Error::InvalidCredentials)
            } else {
                match self.first_token_of(u.id) {
                    Some(t) => Ok(t),
                    None => Err(Error::StorageUnavailable),
                }
            },
        }
    }
}

/// A user as the store keeps it.
#[derive(Debug, PartialEq, Eq)]
pub struct UserRecord {
    pub id: u128,
    pub username: String,
    pub hashed_password: String,
}

impl DeepView for UserRecord {
    type V = UserRow;

    open spec fn deep_view(&self) -> UserRow {
        UserRow {
            id: self.id,
            username: self.username@,
            hashed_password: self.hashed_password@,
        }
    }
}

/// A bearer token and the user it belongs to.
#[derive(Debug, PartialEq, Eq)]
pub struct AuthToken {
    pub user_id: u128,
    pub token: String,
}

impl DeepView for AuthToken {
    type V = TokenRow;

    open spec fn deep_view(&self) -> TokenRow {
        TokenRow { user_id: self.user_id, token: self.token@ }
    }
}

/// The credential store.
pub struct CredentialStore {
    users: Vec<UserRecord>,
    tokens: Vec<AuthToken>,
}

impl View for CredentialStore {
    type V = Credentials;

    closed spec fn view(&self) -> Credentials {
        Credentials { users: self.users.deep_view(), tokens: self.tokens.deep_view() }
    }
}

impl CredentialStore {
    /// The store's invariant.
    pub open spec fn wf(&self) -> bool {
        self@.wf()
    }

    /// A store without users.
    pub fn new() -> (s: Self)
        ensures
            s@ == Credentials::empty(),
            s.wf(),
    {
        let s = CredentialStore { users: Vec::new(), tokens: Vec::new() };
        assert(s@.users =~= Seq::empty());
        assert(s@.tokens =~= Seq::empty());
        s
    }

    /// How many users are registered.
    pub fn user_count(&self) -> (n: usize)
        ensures
            n == self@.users.len(),
    {
        self.users.len()
    }

    fn position_of_name(&self, name: &String) -> (r: Option<usize>)
        ensures
            match r {
                Some(k) => k < self@.users.len() && self@.users[k as int].username == name@,
                None => !self@.has_username(name@),
            },
    {
        let mut k: usize = 0;
        while k < self.users.len()
            invariant
                k <= self.users.len(),
                forall|j: int| 0 <= j < k ==> (#[trigger] self@.users[j]).username != name@,
            decreases self.users.len() - k,
        {
            if self.users[k].username == *name {
                return Some(k);
            }
            k += 1;
        }
        None
    }

    fn position_of_id(&self, id: u128) -> (r: Option<usize>)
        ensures
            match r {
                Some(k) => k < self@.users.len() && self@.users[k as int].id == id,
                None => !self@.has_user_id(id),
            },
    {
        let mut k: usize = 0;
        while k < self.users.len()
            invariant
                k <= self.users.len(),
                forall|j: int| 0 <= j < k ==> (#[trigger] self@.users[j]).id != id,
            decreases self.users.len() - k,
        {
            if self.users[k].id == id {
                return Some(k);
            }
            k += 1;
        }
        None
    }

    fn position_of_token(&self, token: &String) -> (r: Option<usize>)
        ensures
            match r {
                Some(k) => k < self@.tokens.len() && self@.tokens[k as int].token == token@,
                None => !self@.has_token(token@),
            },
    {
        let mut k: usize = 0;
        while k < self.tokens.len()
            invariant
                k <= self.tokens.len(),
                forall|j: int| 0 <= j < k ==> (#[trigger] self@.tokens[j]).token != token@,
            decreases self.tokens.len() - k,
        {
            if self.tokens[k].token == *token {
                return Some(k);
            }
            k += 1;
        }
        None
    }

    fn identity_at(&self, k: usize) -> (u: UserResponse)
        requires
            k < self@.users.len(),
        ensures
            u@ == self@.users[k as int].identity(),
    {
        UserResponse { id: self.users[k].id, username: self.users[k].username.clone() }
    }

    /// Whether a user has the given username.
    pub fn username_taken(&self, username: &str) -> (b: bool)
        ensures
            b == self@.has_username(username@),
    {
        let name = username.to_owned();
        self.position_of_name(&name).is_some()
    }

    /// The identity of the user with the given username.
    pub fn find_user(&self, username: &str) -> (r: Option<UserResponse>)
        requires
            self.wf(),
        ensures
            r.deep_view() == self@.identity_named(username@),
    {
        let name = username.to_owned();
        match self.position_of_name(&name) {
            Some(k) => {
                proof {
                    self@.lemma_user_named(username@, k as int);
                }
                Some(self.identity_at(k))
            },
            None => None,
        }
    }

    /// The identity of the user with the given id.
    pub fn identity_of(&self, id: u128) -> (r: Option<UserResponse>)
        requires
            self.wf(),
        ensures
            r.deep_view() == self@.identity_of(id),
    {
        match self.position_of_id(id) {
            Some(k) => {
                proof {
                    self@.lemma_user_with_id(id, k as int);
                }
                Some(self.identity_at(k))
            },
            None => None,
        }
    }

    /// The id and the password hash stored for a username: what a login has
    /// to check the submitted password against.
    pub fn stored_hash(&self, username: &str) -> (r: Option<(u128, String)>)
        requires
            self.wf(),
        ensures
            r.deep_view() == self@.stored_hash(username@),
    {
        let name = username.to_owned();
        match self.position_of_name(&name) {
            Some(k) => {
                proof {
                    self@.lemma_user_named(username@, k as int);
                }
                Some((self.users[k].id, self.users[k].hashed_password.clone()))
            },
            None => None,
        }
    }

    /// The user that a token authenticates.
    pub fn resolve(&self, token: &str) -> (r: Option<UserResponse>)
        requires
            self.wf(),
        ensures
            r.deep_view() == self@.resolve(token@),
    {
        let wanted = token.to_owned();
        match self.position_of_token(&wanted) {
            Some(k) => {
                proof {
                    self@.lemma_token_index(token@, k as int);
                }
                self.identity_of(self.tokens[k].user_id)
            },
            None => None,
        }
    }

    /// The oldest token that a user owns.
    pub fn token_of(&self, user_id: u128) -> (r: Option<String>)
        ensures
            r.deep_view() == self@.first_token_of(user_id),
    {
        let mut k: usize = 0;
        while k < self.tokens.len()
            invariant
                k <= self.tokens.len(),
                forall|j: int| 0 <= j < k ==> (#[trigger] self@.tokens[j]).user_id != user_id,
            decreases self.tokens.len() - k,
        {
            if self.tokens[k].user_id == user_id {
                proof {
                    self@.lemma_first_token(user_id, k as int);
                }
                return Some(self.tokens[k].token.clone());
            }
            k += 1;
        }
        None
    }

    /// The store that holds the given rows, in their order, if they keep
    /// the store's promises; none if they do not.
    pub fn restore(users: &Vec<UserRecord>, tokens: &Vec<AuthToken>) -> (r: Option<Self>)
        ensures
            r matches Some(store) ==> store.wf() && store@.users == users.deep_view()
                && store@.tokens == tokens.deep_view(),
            r is Some <==> rows(users.deep_view(), tokens.deep_view()).wf(),
    {
        let ghost all = rows(users.deep_view(), tokens.deep_view());
        let mut store = CredentialStore::new();
        let mut k: usize = 0;
        while k < users.len()
            invariant
                k <= users.len(),
                store.wf(),
                store@.users == users.deep_view().take(k as int),
                store@.tokens == Seq::<TokenRow>::empty(),
                all == rows(users.deep_view(), tokens.deep_view()),
            decreases users.len() - k,
        {
            let user = &users[k];
            let ghost before = store@;
            let added = store.add_user(user.id, user.username.clone(), user.hashed_password.clone());
            if added.is_err() {
                proof {
                    if before.has_username(user.username@) {
                        let i = choose|i: int|
                            0 <= i < before.users.len() && #[trigger] before.users[i].username
                                == user.username@;
                        assert(all.users[i].username == all.users[k as int].username);
                    } else {
                        let i = choose|i: int|
                            0 <= i < before.users.len() && #[trigger] before.users[i].id == user.id;
                        assert(all.users[i].id == all.users[k as int].id);
                    }
                }
                return None;
            }
            assert(store@.users =~= users.deep_view().take(k + 1));
            k += 1;
        }
        assert(users.deep_view().take(k as int) =~= users.deep_view());
        let mut m: usize = 0;
        while m < tokens.len()
            invariant
                m <= tokens.len(),
                store.wf(),
                store@.users == users.deep_view(),
                store@.tokens == tokens.deep_view().take(m as int),
                all == rows(users.deep_view(), tokens.deep_view()),
            decreases tokens.len() - m,
        {
            let token = &tokens[m];
            let ghost before = store@;
            let added = store.add_token(token.user_id, token.token.clone());
            if added.is_err() {
                proof {
                    if before.has_user_id(token.user_id) {
                        let i = choose|i: int|
                            0 <= i < before.tokens.len() && #[trigger] before.tokens[i].token
                                == token.token@;
                        assert(all.tokens[i].token == all.tokens[m as int].token);
                    } else {
                        assert(!all.has_user_id(all.tokens[m as int].user_id));
                    }
                }
                return None;
            }
            assert(store@.tokens =~= tokens.deep_view().take(m + 1));
            m += 1;
        }
        assert(tokens.deep_view().take(m as int) =~= tokens.deep_view());
        Some(store)
    }

    /// Adds a user that has no token yet: a row as it stands in a store that
    /// is read back. Nothing changes unless the row is accepted.
    pub fn add_user(&mut self, id: u128, username: String, hashed_password: String) -> (r: Result<
        (),
        Error,
    >)
        requires
            old(self).wf(),
        ensures
            final(self).wf(),
            r == old(self)@.add_user_outcome(id, username@),
            final(self)@ == old(self)@.after_add_user(id, username@, hashed_password@),
    {
        if self.position_of_name(&username).is_some() {
            return Err(Error::UsernameTaken);
        }
        if self.position_of_id(id).is_some() {
            return Err(Error::StorageUnavailable);
        }
        proof {
            old(self)@.lemma_add_user(id, username@, hashed_password@);
        }
        self.users.push(UserRecord { id, username, hashed_password });
        assert(self@.users =~= old(self)@.users.push(
            UserRow { id, username: username@, hashed_password: hashed_password@ },
        ));
        assert(self@.tokens =~= old(self)@.tokens);
        Ok(())
    }

    /// Gives a user one more token. Nothing changes unless the token is
    /// accepted.
    pub fn add_token(&mut self, user_id: u128, token: String) -> (r: Result<(), Error>)
        requires
            old(self).wf(),
        ensures
            final(self).wf(),
            r == old(self)@.add_token_outcome(user_id, token@),
            final(self)@ == old(self)@.after_add_token(user_id, token@),
    {
        if self.position_of_id(user_id).is_none() || self.position_of_token(&token).is_some() {
            return Err(Error::StorageUnavailable);
        }
        proof {
            old(self)@.lemma_add_token(user_id, token@);
        }
        self.tokens.push(AuthToken { user_id, token });
        assert(self@.tokens =~= old(self)@.tokens.push(TokenRow { user_id, token: token@ }));
        assert(self@.users =~= old(self)@.users);
        Ok(())
    }

    /// Registers a user under a fresh id, with the hash of its password and
    /// a first token. Nothing changes unless the registration is accepted.
    pub fn register(
        &mut self,
        id: u128,
        username: String,
        hashed_password: String,
        token: String,
    ) -> (r: Result<(), Error>)
        requires
            old(self).wf(),
        ensures
            final(self).wf(),
            r == old(self)@.register_outcome(id, username@, token@),
            r is Ok ==> final(self)@ == old(self)@.with_registration(
                id,
                username@,
                hashed_password@,
                token@,
            ),
            r is Ok ==> final(self)@.resolve(token@) == Some(identity(id, username@)),
            r is Err ==> final(self)@ == old(self)@,
    {
        if self.position_of_name(&username).is_some() {
            return Err(Error::UsernameTaken);
        }
        if self.position_of_id(id).is_some() || self.position_of_token(&token).is_some() {
            return Err(Error::StorageUnavailable);
        }
        proof {
            old(self)@.lemma_registration(id, username@, hashed_password@, token@);
        }
        self.users.push(UserRecord { id, username, hashed_password });
        self.tokens.push(AuthToken { user_id: id, token });
        assert(self@.users =~= old(self)@.users.push(
            UserRow { id, username: username@, hashed_password: hashed_password@ },
        ));
        assert(self@.tokens =~= old(self)@.tokens.push(TokenRow { user_id: id, token: token@ }));
        Ok(())
    }

    /// Concludes a login. `password_matches` says whether the submitted
    /// password was verified against the hash that [`Self::stored_hash`]
    /// gave for this username.
    pub fn verify_login(&self, username: &str, password_matches: bool) -> (r: Result<String, Error>)
        requires
            self.wf(),
        ensures
            agrees(r, self@.login_outcome(username@, password_matches)),
    {
        let name = username.to_owned();
        match self.position_of_name(&name) {
            None => Err(Error::UserNotFound(Lookup::Account)),
            Some(k) => {
                proof {
                    self@.lemma_user_named(username@, k as int);
                }
                if !password_matches {
                    Err(Error::InvalidCredentials)
                } else {
                    match self.token_of(self.users[k].id) {
                        Some(t) => Ok(t),
                        None => Err(Error::StorageUnavailable),
                    }
                }
            },
        }
    }

    /// Revokes a token. Revoking a token that has no row changes nothing.
    pub fn revoke(&mut self, token: &str)
        requires
            old(self).wf(),
        ensures
            final(self).wf(),
            final(self)@ == old(self)@.without_token(token@),
            final(self)@.resolve(token@) is None,
    {
        let wanted = token.to_owned();
        proof {
            old(self)@.lemma_revocation(token@);
        }
        match self.position_of_token(&wanted) {
            Some(k) => {
                proof {
                    self@.lemma_token_index(token@, k as int);
                }
                self.tokens.remove(k);
                assert(self@.tokens =~= old(self)@.tokens.remove(k as int));
                assert(self@.users =~= old(self)@.users);
            },
            None => {},
        }
    }
}

impl Credentials {
    /// With unique usernames, any row that has the name is the user of that name.
    pub proof fn lemma_user_named(self, name: Seq<char>, k: int)
        requires
            self.wf(),
            0 <= k < self.users.len(),
            self.users[k].username == name,
        ensures
            self.has_username(name),
            self.user_named(name) == Some(self.users[k]),
    {
        let i = choose|i: int|
            0 <= i < self.users.len() && #[trigger] self.users[i].username == name;
        assert(self.users[i].username == self.users[k].username);
    }

    /// With unique ids, any row that has the id is the user of that id.
    pub proof fn lemma_user_with_id(self, id: u128, k: int)
        requires
            self.wf(),
            0 <= k < self.users.len(),
            self.users[k].id == id,
        ensures
            self.has_user_id(id),
            self.user_with_id(id) == Some(self.users[k]),
    {
        let i = choose|i: int| 0 <= i < self.users.len() && #[trigger] self.users[i].id == id;
        assert(self.users[i].id == self.users[k].id);
    }

    /// With unique tokens, any row that holds the token is the token's row.
    pub proof fn lemma_token_index(self, token: Seq<char>, k: int)
        requires
            self.wf(),
            0 <= k < self.tokens.len(),
            self.tokens[k].token == token,
        ensures
            self.has_token(token),
            self.token_index(token) == Some(k),
    {
        let i = choose|i: int|
            0 <= i < self.tokens.len() && #[trigger] self.tokens[i].token == token;
        assert(self.tokens[i].token == self.tokens[k].token);
    }

    /// The oldest token row of a user is the row that no row of the same
    /// user precedes.
    pub proof fn lemma_first_token(self, id: u128, k: int)
        requires
            self.is_first_token_row(id, k),
        ensures
            self.owns_a_token(id),
            self.first_token_of(id) == Some(self.tokens[k].token),
    {
        let i = choose|i: int| self.is_first_token_row(id, i);
        assert(self.is_first_token_row(id, i));
        assert(self.tokens[k].user_id == id);
        assert(self.tokens[i].user_id == id);
        if i < k {
            assert(self.tokens[i].user_id != id);
        }
        if k < i {
            assert(self.tokens[k].user_id != id);
        }
    }

    /// If row `n` is a token of the user, one of the rows up to `n` is the
    /// user's oldest.
    proof fn lemma_oldest_token_row(self, id: u128, n: int)
        requires
            0 <= n < self.tokens.len(),
            self.tokens[n].user_id == id,
        ensures
            exists|i: int| 0 <= i <= n && self.is_first_token_row(id, i),
        decreases n,
    {
        if forall|j: int| 0 <= j < n ==> (#[trigger] self.tokens[j]).user_id != id {
            assert(self.is_first_token_row(id, n));
        } else {
            let j = choose|j: int| 0 <= j < n && (#[trigger] self.tokens[j]).user_id == id;
            self.lemma_oldest_token_row(id, j);
            let i = choose|i: int| 0 <= i <= j && self.is_first_token_row(id, i);
            assert(0 <= i <= n && self.is_first_token_row(id, i));
        }
    }

    /// A user that owns a token has an oldest one: there is a row of the
    /// user that no row of the user precedes, and [`Self::first_token_of`]
    /// is the token of that row.
    pub proof fn lemma_first_token_exists(self, id: u128)
        requires
            self.owns_a_token(id),
        ensures
            exists|i: int|
                self.is_first_token_row(id, i) && self.first_token_of(id) == Some(
                    self.tokens[i].token,
                ),
    {
        let n = choose|n: int| 0 <= n < self.tokens.len() && #[trigger] self.tokens[n].user_id == id;
        self.lemma_oldest_token_row(id, n);
        let i = choose|i: int| 0 <= i <= n && self.is_first_token_row(id, i);
        self.lemma_first_token(id, i);
    }

    /// An accepted user row keeps the store well formed.
    pub proof fn lemma_add_user(self, id: u128, username: Seq<char>, hashed_password: Seq<char>)
        requires
            self.wf(),
        ensures
            self.after_add_user(id, username, hashed_password).wf(),
    {
        let after = self.after_add_user(id, username, hashed_password);
        if self.add_user_outcome(id, username) is Ok {
            let n = self.users.len() as int;
            assert forall|i: int, j: int| 0 <= i < j < after.users.len() implies after.users[i].id
                != after.users[j].id by {
                if j == n {
                    assert(self.users[i].id != id);
                } else {
                    assert(self.users[i].id != self.users[j].id);
                }
            }
            assert forall|i: int, j: int|
                0 <= i < j < after.users.len() implies after.users[i].username
                != after.users[j].username by {
                if j == n {
                    assert(self.users[i].username != username);
                } else {
                    assert(self.users[i].username != self.users[j].username);
                }
            }
            assert forall|i: int| 0 <= i < after.tokens.len() implies after.has_user_id(
                (#[trigger] after.tokens[i]).user_id,
            ) by {
                let k = choose|k: int|
                    0 <= k < self.users.len() && #[trigger] self.users[k].id
                        == self.tokens[i].user_id;
                assert(after.users[k].id == self.tokens[i].user_id);
            }
        }
    }

    /// An accepted token row keeps the store well formed.
    pub proof fn lemma_add_token(self, user_id: u128, token: Seq<char>)
        requires
            self.wf(),
        ensures
            self.after_add_token(user_id, token).wf(),
    {
        let after = self.after_add_token(user_id, token);
        if self.add_token_outcome(user_id, token) is Ok {
            let m = self.tokens.len() as int;
            assert forall|i: int, j: int|
                0 <= i < j < after.tokens.len() implies after.tokens[i].token
                != after.tokens[j].token by {
                if j == m {
                    assert(self.tokens[i].token != token);
                } else {
                    assert(self.tokens[i].token != self.tokens[j].token);
                }
            }
            assert forall|i: int| 0 <= i < after.tokens.len() implies after.has_user_id(
                (#[trigger] after.tokens[i]).user_id,
            ) by {
                let owner = if i < m {
                    self.tokens[i].user_id
                } else {
                    user_id
                };
                assert(self.has_user_id(owner));
                let k = choose|k: int| 0 <= k < self.users.len() && #[trigger] self.users[k].id == owner;
                assert(after.users[k].id == after.tokens[i].user_id);
            }
        }
    }

    /// An accepted registration keeps the store well formed, and its token
    /// then authenticates the new user.
    pub proof fn lemma_registration(
        self,
        id: u128,
        username: Seq<char>,
        hashed_password: Seq<char>,
        token: Seq<char>,
    )
        requires
            self.wf(),
            self.register_outcome(id, username, token) is Ok,
        ensures
            self.with_registration(id, username, hashed_password, token).wf(),
            self.with_registration(id, username, hashed_password, token).resolve(token) == Some(
                identity(id, username),
            ),
    {
        let after = self.with_registration(id, username, hashed_password, token);
        let n = self.users.len() as int;
        let m = self.tokens.len() as int;
        assert forall|i: int, j: int| 0 <= i < j < after.users.len() implies after.users[i].id
            != after.users[j].id by {
            if j == n {
                assert(self.users[i].id != id);
            } else {
                assert(self.users[i].id != self.users[j].id);
            }
        }
        assert forall|i: int, j: int| 0 <= i < j < after.users.len() implies after.users[i].username
            != after.users[j].username by {
            if j == n {
                assert(self.users[i].username != username);
            } else {
                assert(self.users[i].username != self.users[j].username);
            }
        }
        assert forall|i: int, j: int| 0 <= i < j < after.tokens.len() implies after.tokens[i].token
            != after.tokens[j].token by {
            if j == m {
                assert(self.tokens[i].token != token);
            } else {
                assert(self.tokens[i].token != self.tokens[j].token);
            }
        }
        assert(after.users[n].id == id);
        assert forall|i: int| 0 <= i < after.tokens.len() implies after.has_user_id(
            (#[trigger] after.tokens[i]).user_id,
        ) by {
            if i < m {
                let k = choose|k: int|
                    0 <= k < self.users.len() && #[trigger] self.users[k].id
                        == self.tokens[i].user_id;
                assert(after.users[k].id == self.tokens[i].user_id);
            }
        }
        assert(after.tokens[m].token == token);
        after.lemma_token_index(token, m);
        after.lemma_user_with_id(id, n);
    }

    /// Revocation keeps the store well formed and leaves the token without a row.
    pub proof fn lemma_revocation(self, token: Seq<char>)
        requires
            self.wf(),
        ensures
            self.without_token(token).wf(),
            !self.without_token(token).has_token(token),
            self.without_token(token).resolve(token) is None,
    {
        let after = self.without_token(token);
        match self.token_index(token) {
            Some(k) => {
                assert(0 <= k < self.tokens.len() && self.tokens[k].token == token);
                assert forall|i: int, j: int| 0 <= i < j < after.tokens.len() implies after.tokens[i].token
                    != after.tokens[j].token by {
                    let si = if i < k { i } else { i + 1 };
                    let sj = if j < k { j } else { j + 1 };
                    assert(after.tokens[i] == self.tokens[si]);
                    assert(after.tokens[j] == self.tokens[sj]);
                    assert(self.tokens[si].token != self.tokens[sj].token);
                }
                assert forall|i: int| 0 <= i < after.tokens.len() implies after.has_user_id(
                    (#[trigger] after.tokens[i]).user_id,
                ) by {
                    let si = if i < k { i } else { i + 1 };
                    assert(after.tokens[i] == self.tokens[si]);
                    assert(self.has_user_id(self.tokens[si].user_id));
                    let u = choose|u: int|
                        0 <= u < self.users.len() && #[trigger] self.users[u].id
                            == self.tokens[si].user_id;
                    assert(after.users[u].id == after.tokens[i].user_id);
                }
                assert forall|i: int| 0 <= i < after.tokens.len() implies (
                #[trigger] after.tokens[i]).token != token by {
                    let si = if i < k { i } else { i + 1 };
                    assert(after.tokens[i] == self.tokens[si]);
                    if si < k {
                        assert(self.tokens[si].token != self.tokens[k].token);
                    } else {
                        assert(self.tokens[k].token != self.tokens[si].token);
                    }
                }
            },
            None => {},
        }
    }
}

} // verus!
