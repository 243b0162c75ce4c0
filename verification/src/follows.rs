//! The follow graph: directed edges from a follower to the user it follows.
//!
//! Nobody follows themselves, and an edge is never stored twice.

use vstd::prelude::*;
use crate::error::Error;

verus! {

/// A follow edge.
#[derive(Debug, PartialEq, Eq, Clone, Copy, Structural)]
pub struct FollowEdge {
    pub follower_id: u128,
    pub followed_id: u128,
}

/// The follow graph, mathematically: its edges in the order they came.
pub struct Follows {
    pub edges: Seq<FollowEdge>,
}

impl Follows {
    /// The graph without any edge.
    pub open spec fn empty() -> Follows {
        Follows { edges: Seq::empty() }
    }

    /// No edge leads from a user to itself, and no edge is there twice.
    pub open spec fn wf(self) -> bool {
        &&& forall|i: int|
            0 <= i < self.edges.len() ==> (#[trigger] self.edges[i]).follower_id
                != self.edges[i].followed_id
        &&& forall|i: int, j: int|
            #![trigger self.edges[i], self.edges[j]]
            0 <= i < j < self.edges.len() ==> self.edges[i] != self.edges[j]
    }

    /// Whether `follower_id` follows `followed_id`.
    pub open spec fn is_following(self, follower_id: u128, followed_id: u128) -> bool {
        self.edges.contains(FollowEdge { follower_id, followed_id })
    }

    /// Whether a follow is accepted.
    pub open spec fn follow_outcome(self, follower_id: u128, followed_id: u128) -> Result<
        (),
        Error,
    > {
        if follower_id == followed_id {
            Err(Error::SelfFollow)
        } else if self.is_following(follower_id, followed_id) {
            Err(Error::AlreadyFollowing)
        } else {
            Ok(())
        }
    }

    /// The graph with one more edge.
    pub open spec fn with_edge(self, follower_id: u128, followed_id: u128) -> Follows {
        Follows { edges: self.edges.push(FollowEdge { follower_id, followed_id }) }
    }

    /// The graph after a follow was asked for: the edge is added if the
    /// follow is accepted, and nothing changes if it is not.
    pub open spec fn after_follow(self, follower_id: u128, followed_id: u128) -> Follows {
        if self.follow_outcome(follower_id, followed_id) is Ok {
            self.with_edge(follower_id, followed_id)
        } else {
            self
        }
    }

    /// An accepted follow keeps the graph well formed.
    pub proof fn lemma_follow(self, follower_id: u128, followed_id: u128)
        requires
            self.wf(),
        ensures
            self.after_follow(follower_id, followed_id).wf(),
            follower_id != followed_id ==> self.after_follow(follower_id, followed_id).is_following(
                follower_id,
                followed_id,
            ),
    {
        let edge = FollowEdge { follower_id, followed_id };
        let after = self.after_follow(follower_id, followed_id);
        if self.follow_outcome(follower_id, followed_id) is Ok {
            let n = self.edges.len() as int;
            assert forall|i: int, j: int| 0 <= i < j < after.edges.len() implies after.edges[i]
                != after.edges[j] by {
                if j == n {
                    if self.edges[i] == edge {
                        assert(self.edges.contains(edge));
                    }
                } else {
                    assert(self.edges[i] != self.edges[j]);
                }
            }
            assert(after.edges[n] == edge);
        }
    }
}

/// The follow graph.
pub struct FollowGraph {
    edges: Vec<FollowEdge>,
}

impl View for FollowGraph {
    type V = Follows;

    closed spec fn view(&self) -> Follows {
        Follows { edges: self.edges@ }
    }
}

impl FollowGraph {
    /// The graph's invariant.
    pub open spec fn wf(&self) -> bool {
        self@.wf()
    }

    /// A graph without edges.
    pub fn new() -> (g: Self)
        ensures
            g@ == Follows::empty(),
            g.wf(),
    {
        FollowGraph { edges: Vec::new() }
    }

    /// The graph that holds the given edges, in their order, if they keep
    /// the graph's promises; none if they do not.
    pub fn restore(edges: &Vec<FollowEdge>) -> (r: Option<Self>)
        ensures
            r matches Some(graph) ==> graph.wf() && graph@.edges == edges@,
            r is Some <==> (Follows { edges: edges@ }).wf(),
    {
        let ghost all = Follows { edges: edges@ };
        let mut graph = FollowGraph::new();
        let mut k: usize = 0;
        while k < edges.len()
            invariant
                k <= edges.len(),
                graph.wf(),
                graph@.edges == edges@.take(k as int),
                all == (Follows { edges: edges@ }),
            decreases edges.len() - k,
        {
            let edge = edges[k];
            let ghost before = graph@;
            let added = graph.follow(edge.follower_id, edge.followed_id);
            if added.is_err() {
                proof {
                    if edge.follower_id != edge.followed_id {
                        let i = choose|i: int| 0 <= i < before.edges.len() && before.edges[i] == edge;
                        assert(all.edges[i] == all.edges[k as int]);
                    } else {
                        assert(all.edges[k as int].follower_id == all.edges[k as int].followed_id);
                    }
                }
                return None;
            }
            assert(graph@.edges =~= edges@.take(k + 1));
            k += 1;
        }
        assert(edges@.take(k as int) =~= edges@);
        Some(graph)
    }

    /// How many edges the graph has.
    pub fn len(&self) -> (n: usize)
        ensures
            n == self@.edges.len(),
    {
        self.edges.len()
    }

    /// The edge that was added as the `i`-th, counting from zero.
    pub fn edge(&self, i: usize) -> (e: FollowEdge)
        requires
            i < self@.edges.len(),
        ensures
            e == self@.edges[i as int],
    {
        self.edges[i]
    }

    /// Whether `follower_id` follows `followed_id`.
    pub fn is_following(&self, follower_id: u128, followed_id: u128) -> (b: bool)
        ensures
            b == self@.is_following(follower_id, followed_id),
    {
        let mut k: usize = 0;
        while k < self.edges.len()
            invariant
                k <= self.edges.len(),
                forall|j: int|
                    0 <= j < k ==> (#[trigger] self@.edges[j]) != (FollowEdge {
                        follower_id,
                        followed_id,
                    }),
            decreases self.edges.len() - k,
        {
            let e = self.edges[k];
            if e.follower_id == follower_id && e.followed_id == followed_id {
                assert(self@.edges[k as int] == (FollowEdge { follower_id, followed_id }));
                return true;
            }
            k += 1;
        }
        false
    }

    /// Makes `follower_id` follow `followed_id`. Nobody follows themselves,
    /// and nobody follows the same user twice; a refused follow changes
    /// nothing.
    pub fn follow(&mut self, follower_id: u128, followed_id: u128) -> (r: Result<(), Error>)
        requires
            old(self).wf(),
        ensures
            final(self).wf(),
            r == old(self)@.follow_outcome(follower_id, followed_id),
            final(self)@ == old(self)@.after_follow(follower_id, followed_id),
            follower_id == followed_id ==> r == Err::<(), Error>(Error::SelfFollow),
    {
        if follower_id == followed_id {
            return Err(Error::SelfFollow);
        }
        if self.is_following(follower_id, followed_id) {
            return Err(Error::AlreadyFollowing);
        }
        proof {
            old(self)@.lemma_follow(follower_id, followed_id);
        }
        self.edges.push(FollowEdge { follower_id, followed_id });
        Ok(())
    }
}

} // verus!
