//! The whole state of the service: credentials, follow graph and events,
//! and the queries that join them.

use vstd::prelude::*;
use crate::credentials::{
    AuthToken,
    CredentialStore,
    Credentials,
    TokenRow,
    UserRecord,
    UserRow,
};
use crate::events::{EventRecord, EventRow, EventStore, Events};
use crate::follows::{FollowEdge, FollowGraph, Follows};
use crate::responses::{UserResponse, UserView};

verus! {

/// The state of the service, mathematically.
pub struct Tables {
    pub credentials: Credentials,
    pub follows: Follows,
    pub events: Events,
}

impl Tables {
    /// The state of a service that nobody has used yet.
    pub open spec fn empty() -> Tables {
        Tables {
            credentials: Credentials::empty(),
            follows: Follows::empty(),
            events: Events::empty(),
        }
    }

    /// Every component keeps its own invariant. The components do not know
    /// of each other, so an edge or an event that was put into its component
    /// directly may name a user that does not exist: the joins below leave
    /// such rows out. [`Self::names_users_only`] says that there is no such
    /// row.
    pub open spec fn wf(self) -> bool {
        &&& self.credentials.wf()
        &&& self.follows.wf()
        &&& self.events.wf()
    }

    /// Whether every edge leads from a registered user to a registered
    /// user, and every event is of a registered user. The empty state is
    /// so, and every endpoint keeps it so.
    pub open spec fn names_users_only(self) -> bool {
        &&& forall|i: int|
            0 <= i < self.follows.edges.len() ==> self.credentials.has_user_id(
                (#[trigger] self.follows.edges[i]).follower_id,
            ) && self.credentials.has_user_id(self.follows.edges[i].followed_id)
        &&& forall|i: int|
            0 <= i < self.events.rows.len() ==> self.credentials.has_user_id(
                (#[trigger] self.events.rows[i]).user_id,
            )
    }

    /// Maps an edge that leaves `user_id` to the user it leads to.
    pub open spec fn followed_by(self, user_id: u128) -> spec_fn(FollowEdge) -> Option<UserView> {
        |e: FollowEdge|
            if e.follower_id == user_id {
                self.credentials.identity_of(e.followed_id)
            } else {
                None
            }
    }

    /// Maps an edge that leads to `user_id` to the user it leaves.
    pub open spec fn follower_of(self, user_id: u128) -> spec_fn(FollowEdge) -> Option<UserView> {
        |e: FollowEdge|
            if e.followed_id == user_id {
                self.credentials.identity_of(e.follower_id)
            } else {
                None
            }
    }

    /// The users that `user_id` follows, in the order the follows were made.
    pub open spec fn following_of(self, user_id: u128) -> Seq<UserView> {
        self.follows.edges.filter_map(self.followed_by(user_id))
    }

    /// The users that follow `user_id`, in the order the follows were made.
    pub open spec fn followers_of(self, user_id: u128) -> Seq<UserView> {
        self.follows.edges.filter_map(self.follower_of(user_id))
    }
}

/// The state that holds the given rows.
pub open spec fn written(
    users: Seq<UserRow>,
    tokens: Seq<TokenRow>,
    follows: Seq<FollowEdge>,
    events: Seq<EventRow>,
) -> Tables {
    Tables {
        credentials: Credentials { users, tokens },
        follows: Follows { edges: follows },
        events: Events { rows: events },
    }
}

/// The state of the service.
pub struct State {
    pub credentials: CredentialStore,
    pub follows: FollowGraph,
    pub events: EventStore,
}

impl View for State {
    type V = Tables;

    open spec fn view(&self) -> Tables {
        Tables { credentials: self.credentials@, follows: self.follows@, events: self.events@ }
    }
}

impl State {
    /// The state's invariant.
    pub open spec fn wf(&self) -> bool {
        self@.wf()
    }

    /// The state of a service that nobody has used yet.
    pub fn new() -> (s: Self)
        ensures
            s@ == Tables::empty(),
            s.wf(),
            s@.names_users_only(),
    {
        State {
            credentials: CredentialStore::new(),
            follows: FollowGraph::new(),
            events: EventStore::new(),
        }
    }

    /// The state that holds the given rows, each table in its order, if
    /// every table keeps its promises; none if one does not. This is how a
    /// state that was written down is read back.
    pub fn restore(
        users: &Vec<UserRecord>,
        tokens: &Vec<AuthToken>,
        follows: &Vec<FollowEdge>,
        events: &Vec<EventRecord>,
    ) -> (r: Option<Self>)
        ensures
            r matches Some(state) ==> state.wf() && state@ == written(
                users.deep_view(),
                tokens.deep_view(),
                follows@,
                events.deep_view(),
            ),
            r is Some <==> written(
                users.deep_view(),
                tokens.deep_view(),
                follows@,
                events.deep_view(),
            ).wf(),
    {
        let credentials = match CredentialStore::restore(users, tokens) {
            Some(store) => store,
            None => {
                return None;
            },
        };
        let graph = match FollowGraph::restore(follows) {
            Some(graph) => graph,
            None => {
                return None;
            },
        };
        let events = match EventStore::restore(events) {
            Some(store) => store,
            None => {
                return None;
            },
        };
        Some(State { credentials, follows: graph, events })
    }

    /// Whether every edge and every event names registered users only.
    pub fn names_users_only(&self) -> (b: bool)
        requires
            self.wf(),
        ensures
            b == self@.names_users_only(),
    {
        let mut k: usize = 0;
        while k < self.follows.len()
            invariant
                self.wf(),
                k <= self@.follows.edges.len(),
                forall|i: int|
                    0 <= i < k ==> self@.credentials.has_user_id(
                        (#[trigger] self@.follows.edges[i]).follower_id,
                    ) && self@.credentials.has_user_id(self@.follows.edges[i].followed_id),
            decreases self@.follows.edges.len() - k,
        {
            let edge = self.follows.edge(k);
            if self.credentials.identity_of(edge.follower_id).is_none()
                || self.credentials.identity_of(edge.followed_id).is_none() {
                assert(!(self@.credentials.has_user_id(self@.follows.edges[k as int].follower_id)
                    && self@.credentials.has_user_id(self@.follows.edges[k as int].followed_id)));
                return false;
            }
            k += 1;
        }
        let mut m: usize = 0;
        while m < self.events.len()
            invariant
                self.wf(),
                m <= self@.events.rows.len(),
                forall|i: int|
                    0 <= i < self@.follows.edges.len() ==> self@.credentials.has_user_id(
                        (#[trigger] self@.follows.edges[i]).follower_id,
                    ) && self@.credentials.has_user_id(self@.follows.edges[i].followed_id),
                forall|i: int|
                    0 <= i < m ==> self@.credentials.has_user_id(
                        (#[trigger] self@.events.rows[i]).user_id,
                    ),
            decreases self@.events.rows.len() - m,
        {
            let event = self.events.get(m);
            if self.credentials.identity_of(event.user_id).is_none() {
                assert(!self@.credentials.has_user_id(self@.events.rows[m as int].user_id));
                return false;
            }
            m += 1;
        }
        true
    }

    /// The users that `user_id` follows.
    pub fn following_of(&self, user_id: u128) -> (r: Vec<UserResponse>)
        requires
            self.wf(),
        ensures
            r.deep_view() == self@.following_of(user_id),
    {
        let ghost edges = self@.follows.edges;
        let ghost f = self@.followed_by(user_id);
        let mut out: Vec<UserResponse> = Vec::new();
        let mut k: usize = 0;
        assert(out.deep_view() =~= edges.take(0).filter_map(f));
        while k < self.follows.len()
            invariant
                self.wf(),
                edges == self@.follows.edges,
                f == self@.followed_by(user_id),
                k <= edges.len(),
                out.deep_view() == edges.take(k as int).filter_map(f),
            decreases edges.len() - k,
        {
            let e = self.follows.edge(k);
            proof {
                edges.lemma_filter_map_take_succ(f, k as int);
            }
            if e.follower_id == user_id {
                if let Some(u) = self.credentials.identity_of(e.followed_id) {
                    let ghost before = out.deep_view();
                    out.push(u);
                    assert(out.deep_view() =~= before + seq![u@]);
                }
            }
            k += 1;
        }
        assert(edges.take(k as int) =~= edges);
        out
    }

    /// The users that follow `user_id`.
    pub fn followers_of(&self, user_id: u128) -> (r: Vec<UserResponse>)
        requires
            self.wf(),
        ensures
            r.deep_view() == self@.followers_of(user_id),
    {
        let ghost edges = self@.follows.edges;
        let ghost f = self@.follower_of(user_id);
        let mut out: Vec<UserResponse> = Vec::new();
        let mut k: usize = 0;
        assert(out.deep_view() =~= edges.take(0).filter_map(f));
        while k < self.follows.len()
            invariant
                self.wf(),
                edges == self@.follows.edges,
                f == self@.follower_of(user_id),
                k <= edges.len(),
                out.deep_view() == edges.take(k as int).filter_map(f),
            decreases edges.len() - k,
        {
            let e = self.follows.edge(k);
            proof {
                edges.lemma_filter_map_take_succ(f, k as int);
            }
            if e.followed_id == user_id {
                if let Some(u) = self.credentials.identity_of(e.follower_id) {
                    let ghost before = out.deep_view();
                    out.push(u);
                    assert(out.deep_view() =~= before + seq![u@]);
                }
            }
            k += 1;
        }
        assert(edges.take(k as int) =~= edges);
        out
    }
}

} // verus!
