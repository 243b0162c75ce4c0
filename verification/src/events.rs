//! The event store and event intake: short texts, each owned by its author
//! and stamped with the instant it was created.
//!
//! An event never changes once it is stored. No two events share an id, and
//! no content is longer than [`MAX_CONTENT_LEN`] characters.

use vstd::prelude::*;
use vstd::string::StrSliceExecFns;
use crate::error::{agrees, Error};
use crate::responses::{PostEventResponse, PostEventView};

verus! {

/// The longest content an event may have, in characters.
pub const MAX_CONTENT_LEN: usize = 200;

/// An event row, mathematically.
pub struct EventRow {
    pub id: u128,
    pub user_id: u128,
    pub content: Seq<char>,
    pub created_at: i64,
}

/// The event store, mathematically: its rows in the order they came.
pub struct Events {
    pub rows: Seq<EventRow>,
}

impl Events {
    /// The store without any event.
    pub open spec fn empty() -> Events {
        Events { rows: Seq::empty() }
    }

    /// Ids are unique and every content is within the limit.
    pub open spec fn wf(self) -> bool {
        &&& forall|i: int, j: int|
            #![trigger self.rows[i], self.rows[j]]
            0 <= i < j < self.rows.len() ==> self.rows[i].id != self.rows[j].id
        &&& forall|i: int|
            0 <= i < self.rows.len() ==> (#[trigger] self.rows[i]).content.len() <= MAX_CONTENT_LEN
    }

    /// Whether an event has the given id.
    pub open spec fn has_id(self, id: u128) -> bool {
        exists|i: int| 0 <= i < self.rows.len() && #[trigger] self.rows[i].id == id
    }

    /// Whether an event is accepted. The content is looked at first; an id
    /// that is in use is the store's refusal.
    pub open spec fn post_outcome(self, id: u128, content: Seq<char>) -> Result<(), Error> {
        if content.len() > MAX_CONTENT_LEN {
            Err(Error::ContentTooLong)
        } else if self.has_id(id) {
            Err(Error::StorageUnavailable)
        } else {
            Ok(())
        }
    }

    /// What posting an event ends in: its acknowledgement, or the refusal.
    pub open spec fn post(self, id: u128, content: Seq<char>) -> Result<PostEventView, Error> {
        match self.post_outcome(id, content) {
            Ok(_) => Ok(acknowledgement(id, content)),
            Err(e) => Err(e),
        }
    }

    /// The store after an event was posted: the event is added if it is
    /// accepted, and nothing changes if it is not.
    pub open spec fn after_post(
        self,
        id: u128,
        user_id: u128,
        content: Seq<char>,
        created_at: i64,
    ) -> Events {
        if self.post_outcome(id, content) is Ok {
            self.with_event(id, user_id, content, created_at)
        } else {
            self
        }
    }

    /// The store with one more event.
    pub open spec fn with_event(
        self,
        id: u128,
        user_id: u128,
        content: Seq<char>,
        created_at: i64,
    ) -> Events {
        Events { rows: self.rows.push(EventRow { id, user_id, content, created_at }) }
    }

    /// An accepted event keeps the store well formed.
    pub proof fn lemma_post(self, id: u128, user_id: u128, content: Seq<char>, created_at: i64)
        requires
            self.wf(),
            self.post_outcome(id, content) is Ok,
        ensures
            self.with_event(id, user_id, content, created_at).wf(),
    {
        let after = self.with_event(id, user_id, content, created_at);
        let n = self.rows.len() as int;
        assert forall|i: int, j: int| 0 <= i < j < after.rows.len() implies after.rows[i].id
            != after.rows[j].id by {
            if j == n {
                assert(self.rows[i].id != id);
            } else {
                assert(self.rows[i].id != self.rows[j].id);
            }
        }
        assert forall|i: int| 0 <= i < after.rows.len() implies (#[trigger] after.rows[i]).content.len()
            <= MAX_CONTENT_LEN by {
            if i < n {
                assert(self.rows[i].content.len() <= MAX_CONTENT_LEN);
            }
        }
    }
}

/// An event as the store keeps it.
#[derive(Debug, PartialEq, Eq)]
pub struct EventRecord {
    pub id: u128,
    pub user_id: u128,
    pub content: String,
    pub created_at: i64,
}

impl DeepView for EventRecord {
    type V = EventRow;

    open spec fn deep_view(&self) -> EventRow {
        EventRow {
            id: self.id,
            user_id: self.user_id,
            content: self.content@,
            created_at: self.created_at,
        }
    }
}

/// The acknowledgement of an event with the given id and content.
pub open spec fn acknowledgement(id: u128, content: Seq<char>) -> PostEventView {
    PostEventView { id: Some(id), content: Some(content) }
}

/// Whether a content is short enough to be posted.
pub fn content_fits(content: &str) -> (b: bool)
    ensures
        b == (content@.len() <= MAX_CONTENT_LEN),
{
    content.unicode_len() <= MAX_CONTENT_LEN
}

/// The event store.
pub struct EventStore {
    events: Vec<EventRecord>,
}

impl View for EventStore {
    type V = Events;

    closed spec fn view(&self) -> Events {
        Events { rows: self.events.deep_view() }
    }
}

impl EventStore {
    /// The store's invariant.
    pub open spec fn wf(&self) -> bool {
        self@.wf()
    }

    /// A store without events.
    pub fn new() -> (s: Self)
        ensures
            s@ == Events::empty(),
            s.wf(),
    {
        let s = EventStore { events: Vec::new() };
        assert(s@.rows =~= Seq::empty());
        s
    }

    /// The store that holds the given events, in their order, if they keep
    /// the store's promises; none if they do not.
    pub fn restore(events: &Vec<EventRecord>) -> (r: Option<Self>)
        ensures
            r matches Some(store) ==> store.wf() && store@.rows == events.deep_view(),
            r is Some <==> (Events { rows: events.deep_view() }).wf(),
    {
        let ghost all = Events { rows: events.deep_view() };
        let mut store = EventStore::new();
        let mut k: usize = 0;
        while k < events.len()
            invariant
                k <= events.len(),
                store.wf(),
                store@.rows == events.deep_view().take(k as int),
                all == (Events { rows: events.deep_view() }),
            decreases events.len() - k,
        {
            let event = &events[k];
            let ghost before = store@;
            let added = store.post_event(
                event.id,
                event.user_id,
                event.content.clone(),
                event.created_at,
            );
            if added.is_err() {
                proof {
                    if event.content@.len() > MAX_CONTENT_LEN {
                        assert(all.rows[k as int].content.len() > MAX_CONTENT_LEN);
                    } else {
                        let i = choose|i: int|
                            0 <= i < before.rows.len() && #[trigger] before.rows[i].id == event.id;
                        assert(all.rows[i].id == all.rows[k as int].id);
                    }
                }
                return None;
            }
            assert(store@.rows =~= events.deep_view().take(k + 1));
            k += 1;
        }
        assert(events.deep_view().take(k as int) =~= events.deep_view());
        Some(store)
    }

    /// How many events are stored.
    pub fn len(&self) -> (n: usize)
        ensures
            n == self@.rows.len(),
    {
        self.events.len()
    }

    /// The event that was stored as the `i`-th, counting from zero.
    pub fn get(&self, i: usize) -> (e: &EventRecord)
        requires
            i < self@.rows.len(),
        ensures
            e.deep_view() == self@.rows[i as int],
    {
        &self.events[i]
    }

    fn holds_id(&self, id: u128) -> (b: bool)
        ensures
            b == self@.has_id(id),
    {
        let mut k: usize = 0;
        while k < self.events.len()
            invariant
                k <= self.events.len(),
                forall|j: int| 0 <= j < k ==> (#[trigger] self@.rows[j]).id != id,
            decreases self.events.len() - k,
        {
            if self.events[k].id == id {
                assert(self@.rows[k as int].id == id);
                return true;
            }
            k += 1;
        }
        false
    }

    /// Stores a new event of `author_id` under the id `id`, stamped with
    /// `created_at`, and acknowledges it. A content of more than
    /// [`MAX_CONTENT_LEN`] characters is refused, and so is an id that an
    /// event has already; a refused event changes nothing.
    pub fn post_event(
        &mut self,
        id: u128,
        author_id: u128,
        content: String,
        created_at: i64,
    ) -> (r: Result<PostEventResponse, Error>)
        requires
            old(self).wf(),
        ensures
            final(self).wf(),
            agrees(r, old(self)@.post(id, content@)),
            final(self)@ == old(self)@.after_post(id, author_id, content@, created_at),
            r is Err ==> final(self)@ == old(self)@,
            content@.len() > MAX_CONTENT_LEN ==> r == Err::<PostEventResponse, Error>(
                Error::ContentTooLong,
            ),
            content@.len() <= MAX_CONTENT_LEN && !old(self)@.has_id(id) ==> r is Ok,
    {
        if !content_fits(content.as_str()) {
            return Err(Error::ContentTooLong);
        }
        if self.holds_id(id) {
            return Err(Error::StorageUnavailable);
        }
        proof {
            old(self)@.lemma_post(id, author_id, content@, created_at);
        }
        let ack = PostEventResponse { id: Some(id), content: Some(content.clone()) };
        self.events.push(EventRecord { id, user_id: author_id, content, created_at });
        assert(self@.rows =~= old(self)@.rows.push(
            EventRow { id, user_id: author_id, content: content@, created_at },
        ));
        Ok(ack)
    }
}

} // verus!
