//! What holds of the service whatever state it is in: the laws that tie
//! registration, authentication, following and the feed together.

use vstd::prelude::*;
use vstd::seq_lib::*;
use crate::auth::{bearer_header, lemma_bearer_round_trip, presented_token, RequestView};
use crate::credentials::{identity, Credentials};
use crate::error::Error;
use crate::follows::{FollowEdge, Follows};
use crate::status::StatusCode;
use crate::responses::{EventView, UserView};
use crate::state::Tables;
use crate::timeline::{
    effective_page_size,
    lemma_feed,
    newest_first,
    page_offset,
    window,
    MAX_PAGE_SIZE,
};

verus! {

impl Credentials {
    /// A user found by id has that id, and a user found by name has that
    /// name.
    pub proof fn lemma_found_is_asked_for(self, id: u128, name: Seq<char>)
        ensures
            self.identity_of(id) matches Some(u) ==> u.id == id,
            self.identity_named(name) matches Some(u) ==> u.username == name,
    {
    }

    /// A user that a token resolves to is a registered user: it is found
    /// under its id and under its name.
    pub proof fn lemma_resolved_is_registered(self, token: Seq<char>)
        requires
            self.wf(),
        ensures
            self.resolve(token) matches Some(u) ==> self.identity_of(u.id) == Some(u)
                && self.identity_named(u.username) == Some(u),
    {
        if let Some(u) = self.resolve(token) {
            let i = self.token_index(token).unwrap();
            let owner = self.tokens[i].user_id;
            let k = choose|k: int| 0 <= k < self.users.len() && #[trigger] self.users[k].id == owner;
            self.lemma_user_with_id(owner, k);
            self.lemma_user_named(self.users[k].username, k);
        }
    }

    /// A revocation leaves every other token with the user it had.
    pub proof fn lemma_revocation_frame(self, token: Seq<char>, other: Seq<char>)
        requires
            self.wf(),
            other != token,
        ensures
            self.without_token(token).resolve(other) == self.resolve(other),
    {
        let after = self.without_token(token);
        self.lemma_revocation(token);
        if let Some(k) = self.token_index(token) {
            assert(0 <= k < self.tokens.len() && self.tokens[k].token == token);
            if self.has_token(other) {
                let j = choose|j: int|
                    0 <= j < self.tokens.len() && #[trigger] self.tokens[j].token == other;
                self.lemma_token_index(other, j);
                let moved = if j < k {
                    j
                } else {
                    j - 1
                };
                assert(after.tokens[moved] == self.tokens[j]);
                after.lemma_token_index(other, moved);
            } else {
                if after.has_token(other) {
                    let j = choose|j: int|
                        0 <= j < after.tokens.len() && #[trigger] after.tokens[j].token == other;
                    let from = if j < k {
                        j
                    } else {
                        j + 1
                    };
                    assert(self.tokens[from] == after.tokens[j]);
                }
            }
        }
    }

    /// A registration leaves every other token with the user it had.
    pub proof fn lemma_registration_frame(
        self,
        id: u128,
        username: Seq<char>,
        hashed_password: Seq<char>,
        token: Seq<char>,
        other: Seq<char>,
    )
        requires
            self.wf(),
            self.register_outcome(id, username, token) is Ok,
            other != token,
        ensures
            self.with_registration(id, username, hashed_password, token).resolve(other)
                == self.resolve(other),
    {
        let after = self.with_registration(id, username, hashed_password, token);
        self.lemma_registration(id, username, hashed_password, token);
        if self.has_token(other) {
            let k = choose|k: int|
                0 <= k < self.tokens.len() && #[trigger] self.tokens[k].token == other;
            self.lemma_token_index(other, k);
            assert(after.tokens[k].token == other);
            after.lemma_token_index(other, k);
            let owner = self.tokens[k].user_id;
            assert(self.has_user_id(owner));
            let u = choose|u: int| 0 <= u < self.users.len() && #[trigger] self.users[u].id == owner;
            self.lemma_user_with_id(owner, u);
            assert(after.users[u].id == owner);
            after.lemma_user_with_id(owner, u);
        } else {
            if after.has_token(other) {
                let k = choose|k: int|
                    0 <= k < after.tokens.len() && #[trigger] after.tokens[k].token == other;
                if k < self.tokens.len() {
                    assert(self.tokens[k].token == other);
                }
            }
        }
    }
}

/// The token that a registration hands out authenticates the user that was
/// registered, through its row and through a bearer header. Every other
/// token authenticates whom it did before, and none of them authenticates
/// the new user.
pub proof fn law_registration_token_authenticates(
    tables: Tables,
    username: Seq<char>,
    hashed_password: Seq<char>,
    id: u128,
    token: Seq<char>,
)
    requires
        tables.wf(),
        tables.create_user(username, id, token) is Ok,
    ensures
        tables.after_create_user(username, hashed_password, id, token).wf(),
        tables.after_create_user(username, hashed_password, id, token).credentials.resolve(token)
            == Some(identity(id, username)),
        !token.contains('\n') ==> tables.after_create_user(
            username,
            hashed_password,
            id,
            token,
        ).credentials.authenticate(Some(bearer_header(token))) == Ok::<UserView, Error>(
            identity(id, username),
        ),
        forall|other: Seq<char>|
            other != token ==> #[trigger] tables.after_create_user(
                username,
                hashed_password,
                id,
                token,
            ).credentials.resolve(other) == tables.credentials.resolve(other),
        forall|other: Seq<char>|
            other != token ==> #[trigger] tables.after_create_user(
                username,
                hashed_password,
                id,
                token,
            ).credentials.resolve(other) != Some(identity(id, username)),
{
    let after = tables.after_create_user(username, hashed_password, id, token);
    tables.credentials.lemma_registration(id, username, hashed_password, token);
    if !token.contains('\n') {
        lemma_bearer_round_trip(token);
    }
    assert forall|other: Seq<char>| other != token implies #[trigger] after.credentials.resolve(
        other,
    ) == tables.credentials.resolve(other) && after.credentials.resolve(other) != Some(
        identity(id, username),
    ) by {
        tables.credentials.lemma_registration_frame(id, username, hashed_password, token, other);
        tables.credentials.lemma_resolved_is_registered(other);
        if let Some(u) = tables.credentials.resolve(other) {
            assert(tables.credentials.has_user_id(u.id));
        }
    }
}

/// A login succeeds exactly if the user exists, the password matched and the
/// user owns a token. The token it answers with is then a token of that
/// very user: it authenticates the user who logged in, through its row and
/// through a bearer header.
pub proof fn law_login_token_authenticates(
    credentials: Credentials,
    username: Seq<char>,
    password_matches: bool,
)
    requires
        credentials.wf(),
    ensures
        credentials.login_outcome(username, password_matches) is Ok <==> (credentials.user_named(
            username,
        ) matches Some(user) && password_matches && credentials.owns_a_token(user.id)),
        credentials.login_outcome(username, password_matches) matches Ok(token)
            ==> credentials.identity_named(username) is Some && credentials.resolve(token)
            == credentials.identity_named(username),
        credentials.login_outcome(username, password_matches) matches Ok(token) ==> (
        !token.contains('\n') ==> Ok::<UserView, Error>(
            credentials.identity_named(username).unwrap(),
        ) == credentials.authenticate(Some(bearer_header(token)))),
{
    if let Ok(token) = credentials.login_outcome(username, password_matches) {
        let k = choose|k: int|
            0 <= k < credentials.users.len() && #[trigger] credentials.users[k].username
                == username;
        credentials.lemma_user_named(username, k);
        let user = credentials.users[k];
        credentials.lemma_first_token_exists(user.id);
        let i = choose|i: int|
            credentials.is_first_token_row(user.id, i) && credentials.first_token_of(user.id)
                == Some(credentials.tokens[i].token);
        credentials.lemma_token_index(token, i);
        credentials.lemma_user_with_id(user.id, k);
        if !token.contains('\n') {
            lemma_bearer_round_trip(token);
        }
    }
}

/// A token that was revoked authenticates nobody, and every other token
/// authenticates whom it did before. Revoking it once more changes nothing.
pub proof fn law_revoked_token_is_refused(credentials: Credentials, token: Seq<char>)
    requires
        credentials.wf(),
        !token.contains('\n'),
    ensures
        credentials.without_token(token).wf(),
        credentials.without_token(token).authenticate(Some(bearer_header(token))) == Err::<
            UserView,
            Error,
        >(Error::Unauthenticated),
        forall|other: Seq<char>|
            other != token ==> #[trigger] credentials.without_token(token).resolve(other)
                == credentials.resolve(other),
        credentials.without_token(token).without_token(token) == credentials.without_token(token),
{
    credentials.lemma_revocation(token);
    lemma_bearer_round_trip(token);
    assert forall|other: Seq<char>| other != token implies #[trigger] credentials.without_token(
        token,
    ).resolve(other) == credentials.resolve(other) by {
        credentials.lemma_revocation_frame(token, other);
    }
}

impl Tables {
    /// Whether one of the first `n` edges leads from `a` to `b`.
    pub open spec fn follows_within(self, a: u128, b: u128, n: int) -> bool {
        exists|i: int|
            0 <= i < n && i < self.follows.edges.len() && #[trigger] self.follows.edges[i] == (
            FollowEdge { follower_id: a, followed_id: b })
    }

    proof fn lemma_following_prefix(self, user_id: u128, n: int)
        requires
            self.wf(),
            0 <= n <= self.follows.edges.len(),
        ensures
            self.follows.edges.take(n).filter_map(self.followed_by(user_id)).no_duplicates(),
            forall|u: UserView|
                #![trigger self.follows.edges.take(n).filter_map(self.followed_by(user_id)).contains(u)]
                self.follows.edges.take(n).filter_map(self.followed_by(user_id)).contains(u) <==> (
                self.credentials.identity_of(u.id) == Some(u) && self.follows_within(
                    user_id,
                    u.id,
                    n,
                )),
        decreases n,
    {
        let edges = self.follows.edges;
        let f = self.followed_by(user_id);
        let now = edges.take(n).filter_map(f);
        if n == 0 {
            assert(now =~= Seq::<UserView>::empty());
        } else {
            self.lemma_following_prefix(user_id, n - 1);
            edges.lemma_filter_map_take_succ(f, n - 1);
            let before = edges.take(n - 1).filter_map(f);
            let e = edges[n - 1];
            match f(e) {
                Some(x) => {
                    self.credentials.lemma_found_is_asked_for(e.followed_id, x.username);
                    assert(now =~= before.push(x));
                    if before.contains(x) {
                        let i = choose|i: int|
                            0 <= i < n - 1 && i < edges.len() && #[trigger] edges[i] == (FollowEdge {
                                follower_id: user_id,
                                followed_id: x.id,
                            });
                        assert(edges[i] == edges[n - 1]);
                    }
                    assert forall|u: UserView|
                        now.contains(u) <==> (self.credentials.identity_of(u.id) == Some(u)
                            && self.follows_within(user_id, u.id, n)) by {
                        if now.contains(u) {
                            let k = choose|k: int| 0 <= k < now.len() && now[k] == u;
                            if k < before.len() {
                                assert(before[k] == u);
                                assert(before.contains(u));
                                assert(self.follows_within(user_id, u.id, n - 1));
                                let i = choose|i: int|
                                    0 <= i < n - 1 && i < edges.len() && #[trigger] edges[i] == (
                                    FollowEdge { follower_id: user_id, followed_id: u.id });
                                assert(self.follows_within(user_id, u.id, n));
                            } else {
                                assert(u == x);
                                assert(edges[n - 1] == (FollowEdge {
                                    follower_id: user_id,
                                    followed_id: u.id,
                                }));
                            }
                        }
                        if self.credentials.identity_of(u.id) == Some(u) && self.follows_within(
                            user_id,
                            u.id,
                            n,
                        ) {
                            let i = choose|i: int|
                                0 <= i < n && i < edges.len() && #[trigger] edges[i] == (FollowEdge {
                                    follower_id: user_id,
                                    followed_id: u.id,
                                });
                            if i < n - 1 {
                                assert(self.follows_within(user_id, u.id, n - 1));
                                assert(before.contains(u));
                                let k = choose|k: int| 0 <= k < before.len() && before[k] == u;
                                assert(now[k] == u);
                            } else {
                                assert(u == x);
                                assert(now[before.len() as int] == u);
                            }
                        }
                    }
                    assert forall|i: int, j: int|
                        0 <= i < now.len() && 0 <= j < now.len() && i != j implies now[i]
                        != now[j] by {
                        if i < before.len() && j < before.len() {
                            assert(before[i] != before[j]);
                        } else if i < before.len() {
                            assert(before.contains(before[i]));
                        } else {
                            assert(before.contains(before[j]));
                        }
                    }
                },
                None => {
                    assert(now =~= before);
                    assert forall|u: UserView|
                        now.contains(u) <==> (self.credentials.identity_of(u.id) == Some(u)
                            && self.follows_within(user_id, u.id, n)) by {
                        if now.contains(u) {
                            assert(self.follows_within(user_id, u.id, n - 1));
                            let i = choose|i: int|
                                0 <= i < n - 1 && i < edges.len() && #[trigger] edges[i] == (
                                FollowEdge { follower_id: user_id, followed_id: u.id });
                            assert(self.follows_within(user_id, u.id, n));
                        }
                        if self.credentials.identity_of(u.id) == Some(u) && self.follows_within(
                            user_id,
                            u.id,
                            n,
                        ) {
                            let i = choose|i: int|
                                0 <= i < n && i < edges.len() && #[trigger] edges[i] == (FollowEdge {
                                    follower_id: user_id,
                                    followed_id: u.id,
                                });
                            if i == n - 1 {
                                assert(f(e) == Some(u));
                            }
                            assert(self.follows_within(user_id, u.id, n - 1));
                        }
                    }
                },
            }
        }
    }

    /// The users that somebody follows are exactly the registered users to
    /// whom an edge leads, and none of them is listed twice.
    pub proof fn lemma_following_of(self, user_id: u128)
        requires
            self.wf(),
        ensures
            self.following_of(user_id).no_duplicates(),
            forall|u: UserView|
                #![trigger self.following_of(user_id).contains(u)]
                self.following_of(user_id).contains(u) <==> (self.credentials.identity_of(u.id)
                    == Some(u) && self.follows.is_following(user_id, u.id)),
    {
        let n = self.follows.edges.len() as int;
        self.lemma_following_prefix(user_id, n);
        assert(self.follows.edges.take(n) =~= self.follows.edges);
        assert forall|u: UserView|
            self.follows_within(user_id, u.id, n) <==> self.follows.is_following(
                user_id,
                u.id,
            ) by {
            let edge = FollowEdge { follower_id: user_id, followed_id: u.id };
            if self.follows_within(user_id, u.id, n) {
                let i = choose|i: int|
                    0 <= i < n && i < self.follows.edges.len() && #[trigger] self.follows.edges[i]
                        == edge;
                assert(self.follows.edges.contains(edge));
            }
            if self.follows.is_following(user_id, u.id) {
                let i = choose|i: int| 0 <= i < self.follows.edges.len() && self.follows.edges[i] == edge;
                assert(self.follows.edges[i] == edge);
            }
        }
    }

    proof fn lemma_followers_prefix(self, user_id: u128, n: int)
        requires
            self.wf(),
            0 <= n <= self.follows.edges.len(),
        ensures
            self.follows.edges.take(n).filter_map(self.follower_of(user_id)).no_duplicates(),
            forall|u: UserView|
                #![trigger self.follows.edges.take(n).filter_map(self.follower_of(user_id)).contains(u)]
                self.follows.edges.take(n).filter_map(self.follower_of(user_id)).contains(u) <==> (
                self.credentials.identity_of(u.id) == Some(u) && self.follows_within(u.id, user_id, n)),
        decreases n,
    {
        let edges = self.follows.edges;
        let f = self.follower_of(user_id);
        let now = edges.take(n).filter_map(f);
        if n == 0 {
            assert(now =~= Seq::<UserView>::empty());
        } else {
            self.lemma_followers_prefix(user_id, n - 1);
            edges.lemma_filter_map_take_succ(f, n - 1);
            let before = edges.take(n - 1).filter_map(f);
            let e = edges[n - 1];
            match f(e) {
                Some(x) => {
                    self.credentials.lemma_found_is_asked_for(e.follower_id, x.username);
                    assert(now =~= before.push(x));
                    if before.contains(x) {
                        let i = choose|i: int|
                            0 <= i < n - 1 && i < edges.len() && #[trigger] edges[i] == (FollowEdge {
                                follower_id: x.id,
                                followed_id: user_id,
                            });
                        assert(edges[i] == edges[n - 1]);
                    }
                    assert forall|u: UserView|
                        now.contains(u) <==> (self.credentials.identity_of(u.id) == Some(u)
                            && self.follows_within(u.id, user_id, n)) by {
                        if now.contains(u) {
                            let k = choose|k: int| 0 <= k < now.len() && now[k] == u;
                            if k < before.len() {
                                assert(before[k] == u);
                                assert(before.contains(u));
                                assert(self.follows_within(u.id, user_id, n - 1));
                                let i = choose|i: int|
                                    0 <= i < n - 1 && i < edges.len() && #[trigger] edges[i] == (
                                    FollowEdge { follower_id: u.id, followed_id: user_id });
                                assert(self.follows_within(u.id, user_id, n));
                            } else {
                                assert(u == x);
                                assert(edges[n - 1] == (FollowEdge {
                                    follower_id: u.id,
                                    followed_id: user_id,
                                }));
                            }
                        }
                        if self.credentials.identity_of(u.id) == Some(u) && self.follows_within(u.id, user_id, n) {
                            let i = choose|i: int|
                                0 <= i < n && i < edges.len() && #[trigger] edges[i] == (FollowEdge {
                                    follower_id: u.id,
                                    followed_id: user_id,
                                });
                            if i < n - 1 {
                                assert(self.follows_within(u.id, user_id, n - 1));
                                assert(before.contains(u));
                                let k = choose|k: int| 0 <= k < before.len() && before[k] == u;
                                assert(now[k] == u);
                            } else {
                                assert(u == x);
                                assert(now[before.len() as int] == u);
                            }
                        }
                    }
                    assert forall|i: int, j: int|
                        0 <= i < now.len() && 0 <= j < now.len() && i != j implies now[i]
                        != now[j] by {
                        if i < before.len() && j < before.len() {
                            assert(before[i] != before[j]);
                        } else if i < before.len() {
                            assert(before.contains(before[i]));
                        } else {
                            assert(before.contains(before[j]));
                        }
                    }
                },
                None => {
                    assert(now =~= before);
                    assert forall|u: UserView|
                        now.contains(u) <==> (self.credentials.identity_of(u.id) == Some(u)
                            && self.follows_within(u.id, user_id, n)) by {
                        if now.contains(u) {
                            assert(self.follows_within(u.id, user_id, n - 1));
                            let i = choose|i: int|
                                0 <= i < n - 1 && i < edges.len() && #[trigger] edges[i] == (
                                FollowEdge { follower_id: u.id, followed_id: user_id });
                            assert(self.follows_within(u.id, user_id, n));
                        }
                        if self.credentials.identity_of(u.id) == Some(u) && self.follows_within(u.id, user_id, n) {
                            let i = choose|i: int|
                                0 <= i < n && i < edges.len() && #[trigger] edges[i] == (FollowEdge {
                                    follower_id: u.id,
                                    followed_id: user_id,
                                });
                            if i == n - 1 {
                                assert(f(e) == Some(u));
                            }
                            assert(self.follows_within(u.id, user_id, n - 1));
                        }
                    }
                },
            }
        }
    }

    /// The followers of somebody are exactly the registered users from
    /// whom an edge leads there, and none of them is listed twice.
    pub proof fn lemma_followers_of(self, user_id: u128)
        requires
            self.wf(),
        ensures
            self.followers_of(user_id).no_duplicates(),
            forall|u: UserView|
                #![trigger self.followers_of(user_id).contains(u)]
                self.followers_of(user_id).contains(u) <==> (self.credentials.identity_of(u.id)
                    == Some(u) && self.follows.is_following(u.id, user_id)),
    {
        let n = self.follows.edges.len() as int;
        self.lemma_followers_prefix(user_id, n);
        assert(self.follows.edges.take(n) =~= self.follows.edges);
        assert forall|u: UserView|
            self.follows_within(u.id, user_id, n) <==> self.follows.is_following(u.id, user_id) by {
            let edge = FollowEdge { follower_id: u.id, followed_id: user_id };
            if self.follows_within(u.id, user_id, n) {
                let i = choose|i: int|
                    0 <= i < n && i < self.follows.edges.len() && #[trigger] self.follows.edges[i]
                        == edge;
                assert(self.follows.edges.contains(edge));
            }
            if self.follows.is_following(u.id, user_id) {
                let i = choose|i: int| 0 <= i < self.follows.edges.len() && self.follows.edges[i] == edge;
                assert(self.follows.edges[i] == edge);
            }
        }
    }

    /// This state with another follow graph.
    pub open spec fn with_follows(self, follows: Follows) -> Tables {
        Tables { credentials: self.credentials, follows, events: self.events }
    }
}

/// Where every edge names registered users, every edge is listed: whoever
/// is followed stands among those that the follower follows, and whoever
/// follows stands among the followers of the followed.
pub proof fn law_every_edge_is_listed(tables: Tables, a: u128, b: u128)
    requires
        tables.wf(),
        tables.names_users_only(),
        tables.follows.is_following(a, b),
    ensures
        tables.credentials.identity_of(b) matches Some(followed) && followed.id == b
            && tables.following_of(a).contains(followed),
        tables.credentials.identity_of(a) matches Some(follower) && follower.id == a
            && tables.followers_of(b).contains(follower),
{
    let edge = FollowEdge { follower_id: a, followed_id: b };
    let i = choose|i: int| 0 <= i < tables.follows.edges.len() && tables.follows.edges[i] == edge;
    assert(tables.follows.edges[i] == edge);
    assert(tables.credentials.has_user_id(tables.follows.edges[i].follower_id));
    assert(tables.credentials.has_user_id(tables.follows.edges[i].followed_id));
    let followed = tables.credentials.identity_of(b).unwrap();
    let follower = tables.credentials.identity_of(a).unwrap();
    tables.credentials.lemma_found_is_asked_for(b, followed.username);
    tables.credentials.lemma_found_is_asked_for(a, follower.username);
    tables.lemma_following_of(a);
    tables.lemma_followers_of(b);
}

/// Where every event is of a registered user, every event has its entry,
/// and the feed of a viewer shows exactly the events of the viewer and of
/// everyone the viewer follows.
pub proof fn law_every_seen_event_is_shown(tables: Tables, viewer: u128, k: int)
    requires
        tables.wf(),
        tables.names_users_only(),
        0 <= k < tables.events.rows.len(),
    ensures
        tables.entry(tables.events.rows[k]) matches Some(item) && item.id
            == tables.events.rows[k].id && (tables.feed(viewer).contains(item)
            <==> tables.events.rows[k].user_id == viewer || tables.follows.is_following(
            viewer,
            tables.events.rows[k].user_id,
        )),
{
    assert(tables.credentials.has_user_id(tables.events.rows[k].user_id));
    law_feed_is_ordered_and_complete(tables, viewer, k);
}

/// Following the same user a second time is refused and changes nothing.
/// The followed user, if registered, is then listed exactly once among
/// those the follower follows, and the follower, if registered, exactly
/// once among the followers of the followed.
pub proof fn law_second_follow_is_refused(tables: Tables, a: u128, b: u128)
    requires
        tables.wf(),
        a != b,
    ensures
        tables.follows.after_follow(a, b).follow_outcome(a, b) == Err::<(), Error>(
            Error::AlreadyFollowing,
        ),
        tables.follows.after_follow(a, b).after_follow(a, b) == tables.follows.after_follow(a, b),
        tables.credentials.identity_of(b) matches Some(user) ==> tables.with_follows(
            tables.follows.after_follow(a, b).after_follow(a, b),
        ).following_of(a).to_multiset().count(user) == 1,
        tables.credentials.identity_of(a) matches Some(user) ==> tables.with_follows(
            tables.follows.after_follow(a, b).after_follow(a, b),
        ).followers_of(b).to_multiset().count(user) == 1,
{
    let once = tables.follows.after_follow(a, b);
    tables.follows.lemma_follow(a, b);
    if let Some(user) = tables.credentials.identity_of(b) {
        tables.credentials.lemma_found_is_asked_for(b, user.username);
        let after = tables.with_follows(once);
        after.lemma_following_of(a);
        let listed = after.following_of(a);
        assert(listed.contains(user));
        listed.lemma_multiset_has_no_duplicates();
        listed.to_multiset_ensures();
    }
    if let Some(user) = tables.credentials.identity_of(a) {
        tables.credentials.lemma_found_is_asked_for(a, user.username);
        let after = tables.with_follows(once);
        after.lemma_followers_of(b);
        let listed = after.followers_of(b);
        assert(listed.contains(user));
        listed.lemma_multiset_has_no_duplicates();
        listed.to_multiset_ensures();
    }
}

/// A caller who asks to follow itself is refused, and nothing changes.
pub proof fn law_nobody_follows_themselves(tables: Tables, req: RequestView)
    requires
        tables.wf(),
    ensures
        tables.credentials.authenticate(req.authorization) matches Ok(caller) ==> tables.follow(
            req,
            caller.username,
        ) == Err::<StatusCode, Error>(Error::SelfFollow) && tables.after_follow(
            req,
            caller.username,
        ) == tables,
{
    if let Ok(caller) = tables.credentials.authenticate(req.authorization) {
        let token = presented_token(req.authorization).unwrap();
        tables.credentials.lemma_resolved_is_registered(token);
    }
}

/// A page never holds more than the page size that is served, which is
/// never more than [`MAX_PAGE_SIZE`]; it holds exactly what the feed has
/// left behind the page's offset, up to that size.
pub proof fn law_page_is_bounded(
    tables: Tables,
    viewer: u128,
    page: usize,
    page_size: Option<usize>,
)
    ensures
        0 <= effective_page_size(page_size) <= MAX_PAGE_SIZE,
        page_size matches Some(n) ==> effective_page_size(page_size) <= n,
        tables.timeline_outcome(viewer, page, page_size) matches Ok(items) ==> {
            let size = effective_page_size(page_size);
            let left = tables.feed(viewer).len() - page_offset(page, size);
            &&& items.len() <= size
            &&& items.len() == if left <= 0 {
                0
            } else if left < size {
                left
            } else {
                size
            }
        },
{
    let size = effective_page_size(page_size);
    let offset = page_offset(page, size);
    if offset >= 0 {
        assert(tables.timeline_outcome(viewer, page, page_size) == Ok::<Seq<EventView>, Error>(
            window(tables.feed(viewer), offset, size),
        ));
    }
}

/// Pages follow each other without a gap and without an overlap: a page and
/// the next one, put together, are the window of twice the size.
pub proof fn law_pages_tile_the_feed<T>(t: Seq<T>, page: usize, size: int)
    requires
        page >= 1,
        size >= 0,
        page < usize::MAX,
    ensures
        window(t, page_offset(page, size), size) + window(
            t,
            page_offset((page + 1) as usize, size),
            size,
        ) == window(t, page_offset(page, size), 2 * size),
{
    let first = page_offset(page, size);
    let second = page_offset((page + 1) as usize, size);
    assert(second == first + size) by (nonlinear_arith)
        requires
            first == (page - 1) * size,
            second == ((page + 1) as usize - 1) * size,
            page >= 1,
            page < usize::MAX,
    ;
    assert(first >= 0) by (nonlinear_arith)
        requires
            first == (page - 1) * size,
            page >= 1,
            size >= 0,
    ;
    assert(window(t, first, size) + window(t, second, size) =~= window(t, first, 2 * size));
}

/// The feed of a viewer is in order, newest first, and it shows every event
/// of the viewer and of everyone the viewer follows, as long as the author
/// is registered, and nothing else.
pub proof fn law_feed_is_ordered_and_complete(tables: Tables, viewer: u128, k: int)
    requires
        tables.wf(),
        0 <= k < tables.events.rows.len(),
    ensures
        newest_first(tables.feed(viewer)),
        tables.entry(tables.events.rows[k]) matches Some(item) ==> (tables.feed(viewer).contains(
            item,
        ) <==> tables.visible_to(viewer, tables.events.rows[k])),
{
    lemma_feed(tables, viewer);
    if let Some(item) = tables.entry(tables.events.rows[k]) {
        let feed = tables.feed(viewer);
        assert(feed.contains(item) <==> tables.shows(viewer, item));
        if tables.visible_to(viewer, tables.events.rows[k]) {
            assert(tables.shows(viewer, item));
        }
        if tables.shows(viewer, item) {
            let m = choose|m: int|
                0 <= m < tables.events.rows.len() && m < tables.events.rows.len()
                    && tables.visible_to(viewer, #[trigger] tables.events.rows[m]) && tables.entry(
                    tables.events.rows[m],
                ) == Some(item);
            if m != k {
                if m < k {
                    assert(tables.events.rows[m].id != tables.events.rows[k].id);
                } else {
                    assert(tables.events.rows[k].id != tables.events.rows[m].id);
                }
            }
        }
    }
}

} // verus!
