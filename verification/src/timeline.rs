//! The feed assembler: a user's own events and the events of everyone the
//! user follows, newest first, one page at a time.
//!
//! The feed is assembled when it is read. An event stands in the feed of a
//! viewer if its author is the viewer or somebody the viewer follows, and if
//! that author is a registered user. Entries are ordered by creation
//! instant, latest first; of two events created at the same instant the one
//! with the smaller id comes first, so that pages never shift.

use vstd::prelude::*;
use crate::error::{agrees, Error};
use crate::events::EventRow;
use crate::responses::{EventResponse, EventView};
use crate::state::{State, Tables};

verus! {

/// The largest page that is ever served, and the size of a page when the
/// caller asks for none.
pub const MAX_PAGE_SIZE: usize = 20;

/// Whether `a` stands before `b` in a feed.
pub open spec fn newer(a: EventView, b: EventView) -> bool {
    a.created_at > b.created_at || (a.created_at == b.created_at && a.id < b.id)
}

/// Whether every entry stands before all entries after it.
pub open spec fn newest_first(t: Seq<EventView>) -> bool {
    forall|i: int, j: int| #![trigger t[i], t[j]] 0 <= i < j < t.len() ==> newer(t[i], t[j])
}

/// The page size that is served for a requested one: the requested size,
/// cut down to [`MAX_PAGE_SIZE`], or [`MAX_PAGE_SIZE`] if none was asked for.
pub open spec fn effective_page_size(requested: Option<usize>) -> int {
    match requested {
        Some(n) => if n < MAX_PAGE_SIZE {
            n as int
        } else {
            MAX_PAGE_SIZE as int
        },
        None => MAX_PAGE_SIZE as int,
    }
}

/// How many entries precede page `page` when pages hold `size` entries.
/// Pages are counted from one.
pub open spec fn page_offset(page: usize, size: int) -> int {
    (page - 1) * size
}

/// The `limit` entries of `t` that follow the first `offset` ones, or as
/// many of them as there are.
pub open spec fn window<T>(t: Seq<T>, offset: int, limit: int) -> Seq<T>
    recommends
        0 <= offset,
        0 <= limit,
{
    let start = if offset < t.len() {
        offset
    } else {
        t.len() as int
    };
    let end = if offset + limit < t.len() {
        offset + limit
    } else {
        t.len() as int
    };
    t.subrange(start, end)
}

impl Tables {
    /// Whether an event is of an author whose events `viewer` sees.
    pub open spec fn visible_to(self, viewer: u128, e: EventRow) -> bool {
        e.user_id == viewer || self.follows.is_following(viewer, e.user_id)
    }

    /// An event joined with its author, if the author is a registered user.
    pub open spec fn entry(self, e: EventRow) -> Option<EventView> {
        match self.credentials.identity_of(e.user_id) {
            Some(user) => Some(
                EventView { id: e.id, content: e.content, created_at: e.created_at, user },
            ),
            None => None,
        }
    }

    /// Whether `item` is the entry of an event that `viewer` sees and that
    /// is among the first `n` stored events.
    pub open spec fn shows_within(self, viewer: u128, item: EventView, n: int) -> bool {
        exists|k: int|
            0 <= k < n && k < self.events.rows.len() && self.visible_to(
                viewer,
                #[trigger] self.events.rows[k],
            ) && self.entry(self.events.rows[k]) == Some(item)
    }

    /// Whether `item` is the entry of an event that `viewer` sees.
    pub open spec fn shows(self, viewer: u128, item: EventView) -> bool {
        self.shows_within(viewer, item, self.events.rows.len() as int)
    }

    /// Whether `t` is the feed of `viewer`: it holds exactly the entries
    /// that the viewer sees, each once, newest first.
    pub open spec fn is_feed(self, viewer: u128, t: Seq<EventView>) -> bool {
        &&& newest_first(t)
        &&& forall|item: EventView|
            #![trigger t.contains(item)]
            #![trigger self.shows(viewer, item)]
            t.contains(item) <==> self.shows(viewer, item)
    }

    /// The feed of `viewer`. In a well-formed state there is exactly one
    /// sequence that [`Self::is_feed`] accepts: see [`lemma_feed`] and
    /// [`lemma_feed_unique`].
    pub open spec fn feed(self, viewer: u128) -> Seq<EventView> {
        choose|t: Seq<EventView>| self.is_feed(viewer, t)
    }

    /// What reading a page of the feed ends in. A page before the first
    /// one, of a size that is not zero, lies before the feed's start: the
    /// store refuses such a read.
    pub open spec fn timeline_outcome(
        self,
        viewer: u128,
        page: usize,
        page_size: Option<usize>,
    ) -> Result<Seq<EventView>, Error> {
        let size = effective_page_size(page_size);
        let offset = page_offset(page, size);
        if offset < 0 {
            Err(Error::StorageUnavailable)
        } else {
            Ok(window(self.feed(viewer), offset, size))
        }
    }
}

/// Of two entries with different ids, one stands before the other.
proof fn lemma_newer_total(a: EventView, b: EventView)
    requires
        a.id != b.id,
    ensures
        newer(a, b) || newer(b, a),
{
}

/// Two newest-first sequences that hold the same entries are equal.
pub proof fn lemma_newest_first_unique(a: Seq<EventView>, b: Seq<EventView>)
    requires
        newest_first(a),
        newest_first(b),
        forall|x: EventView| a.contains(x) <==> b.contains(x),
    ensures
        a == b,
    decreases a.len(),
{
    if a.len() == 0 {
        if b.len() > 0 {
            assert(b.contains(b[0]));
            assert(a.contains(b[0]));
        }
        assert(a =~= b);
    } else {
        assert(a.contains(a[0]));
        assert(b.contains(a[0]));
        let j = choose|j: int| 0 <= j < b.len() && b[j] == a[0];
        assert(b.contains(b[0]));
        assert(a.contains(b[0]));
        let i = choose|i: int| 0 <= i < a.len() && a[i] == b[0];
        if i > 0 && j > 0 {
            assert(newer(a[0], a[i]));
            assert(newer(b[0], b[j]));
        }
        assert(a[0] == b[0]);
        let a1 = a.drop_first();
        let b1 = b.drop_first();
        assert forall|p: int, q: int| 0 <= p < q < a1.len() implies newer(a1[p], a1[q]) by {
            assert(newer(a[p + 1], a[q + 1]));
        }
        assert forall|p: int, q: int| 0 <= p < q < b1.len() implies newer(b1[p], b1[q]) by {
            assert(newer(b[p + 1], b[q + 1]));
        }
        assert forall|x: EventView| a1.contains(x) <==> b1.contains(x) by {
            if a1.contains(x) {
                let k = choose|k: int| 0 <= k < a1.len() && a1[k] == x;
                assert(a[k + 1] == x);
                assert(newer(a[0], a[k + 1]));
                assert(a.contains(x));
                assert(b.contains(x));
                let m = choose|m: int| 0 <= m < b.len() && b[m] == x;
                assert(m > 0);
                assert(b1[m - 1] == x);
            }
            if b1.contains(x) {
                let k = choose|k: int| 0 <= k < b1.len() && b1[k] == x;
                assert(b[k + 1] == x);
                assert(newer(b[0], b[k + 1]));
                assert(b.contains(x));
                assert(a.contains(x));
                let m = choose|m: int| 0 <= m < a.len() && a[m] == x;
                assert(m > 0);
                assert(a1[m - 1] == x);
            }
        }
        lemma_newest_first_unique(a1, b1);
        assert(a =~= seq![a[0]] + a1);
        assert(b =~= seq![b[0]] + b1);
    }
}

/// A feed is the only feed: whatever [`Tables::is_feed`] accepts is
/// [`Tables::feed`].
pub proof fn lemma_feed_unique(tables: Tables, viewer: u128, t: Seq<EventView>)
    requires
        tables.is_feed(viewer, t),
    ensures
        t == tables.feed(viewer),
        tables.is_feed(viewer, tables.feed(viewer)),
{
    let f = tables.feed(viewer);
    assert(tables.is_feed(viewer, f));
    assert forall|x: EventView| t.contains(x) <==> f.contains(x) by {
        assert(t.contains(x) <==> tables.shows(viewer, x));
        assert(f.contains(x) <==> tables.shows(viewer, x));
    }
    lemma_newest_first_unique(t, f);
}

/// Where a new entry goes: behind every entry that stands before it.
spec fn slot(t: Seq<EventView>, item: EventView) -> int
    decreases t.len(),
{
    if t.len() == 0 || !newer(t[0], item) {
        0
    } else {
        1 + slot(t.drop_first(), item)
    }
}

/// Putting a new entry into its slot keeps a sequence newest first.
proof fn lemma_slot(t: Seq<EventView>, item: EventView)
    requires
        newest_first(t),
        forall|i: int| 0 <= i < t.len() ==> (#[trigger] t[i]).id != item.id,
    ensures
        0 <= slot(t, item) <= t.len(),
        forall|i: int| 0 <= i < slot(t, item) ==> newer(#[trigger] t[i], item),
        forall|i: int| slot(t, item) <= i < t.len() ==> newer(item, #[trigger] t[i]),
    decreases t.len(),
{
    if t.len() == 0 {
    } else if !newer(t[0], item) {
        lemma_newer_total(t[0], item);
        assert forall|i: int| 0 <= i < t.len() implies newer(item, #[trigger] t[i]) by {
            if i > 0 {
                assert(newer(t[0], t[i]));
            }
        }
    } else {
        let rest = t.drop_first();
        assert forall|p: int, q: int| 0 <= p < q < rest.len() implies newer(rest[p], rest[q]) by {
            assert(newer(t[p + 1], t[q + 1]));
        }
        assert forall|i: int| 0 <= i < rest.len() implies (#[trigger] rest[i]).id != item.id by {
            assert(t[i + 1].id != item.id);
        }
        lemma_slot(rest, item);
        assert forall|i: int| 0 <= i < slot(t, item) implies newer(#[trigger] t[i], item) by {
            if i > 0 {
                assert(newer(rest[i - 1], item));
            }
        }
        assert forall|i: int| slot(t, item) <= i < t.len() implies newer(item, #[trigger] t[i]) by {
            assert(newer(item, rest[i - 1]));
        }
    }
}

/// What a sequence holds once an entry was put in at `p`.
proof fn lemma_insert_at(t: Seq<EventView>, p: int, item: EventView)
    requires
        newest_first(t),
        0 <= p <= t.len(),
        forall|i: int| 0 <= i < p ==> newer(#[trigger] t[i], item),
        forall|i: int| p <= i < t.len() ==> newer(item, #[trigger] t[i]),
    ensures
        newest_first(t.insert(p, item)),
        forall|x: EventView| t.insert(p, item).contains(x) <==> (t.contains(x) || x == item),
{
    let r = t.insert(p, item);
    assert(r.len() == t.len() + 1);
    assert(r[p] == item);
    assert forall|i: int| 0 <= i < p implies r[i] == t[i] by {}
    assert forall|i: int| p < i < r.len() implies r[i] == t[i - 1] by {}
    assert forall|i: int, j: int| 0 <= i < j < r.len() implies newer(r[i], r[j]) by {
        if j < p {
            assert(newer(t[i], t[j]));
        } else if j == p {
            assert(newer(t[i], item));
        } else if i < p {
            assert(newer(t[i], t[j - 1]));
        } else if i == p {
            assert(newer(item, t[j - 1]));
        } else {
            assert(newer(t[i - 1], t[j - 1]));
        }
    }
    assert forall|x: EventView| r.contains(x) <==> (t.contains(x) || x == item) by {
        if r.contains(x) {
            let k = choose|k: int| 0 <= k < r.len() && r[k] == x;
            if k < p {
                assert(t[k] == x);
            } else if k > p {
                assert(t[k - 1] == x);
            }
        }
        if t.contains(x) {
            let k = choose|k: int| 0 <= k < t.len() && t[k] == x;
            if k < p {
                assert(r[k] == x);
            } else {
                assert(r[k + 1] == x);
            }
        }
    }
}

/// The entries that `viewer` sees among the first `n` events, newest first.
proof fn lemma_feed_within(tables: Tables, viewer: u128, n: int) -> (t: Seq<EventView>)
    requires
        tables.wf(),
        0 <= n <= tables.events.rows.len(),
    ensures
        newest_first(t),
        forall|x: EventView| t.contains(x) <==> tables.shows_within(viewer, x, n),
    decreases n,
{
    if n == 0 {
        let t = Seq::<EventView>::empty();
        assert forall|x: EventView| t.contains(x) <==> tables.shows_within(viewer, x, n) by {
            assert(!t.contains(x));
            assert(!tables.shows_within(viewer, x, 0));
        }
        t
    } else {
        let before = lemma_feed_within(tables, viewer, n - 1);
        let row = tables.events.rows[n - 1];
        if tables.visible_to(viewer, row) && tables.entry(row) is Some {
            let item = tables.entry(row).unwrap();
            lemma_row_is_new(tables, viewer, before, n - 1);
            lemma_slot(before, item);
            lemma_insert_at(before, slot(before, item), item);
            let t = before.insert(slot(before, item), item);
            lemma_shows_one_more(tables, viewer, n - 1);
            assert forall|x: EventView| t.contains(x) <==> tables.shows_within(viewer, x, n) by {
                assert(t.contains(x) <==> (before.contains(x) || x == item));
                assert(before.contains(x) <==> tables.shows_within(viewer, x, n - 1));
            }
            t
        } else {
            lemma_shows_one_more(tables, viewer, n - 1);
            assert forall|x: EventView|
                before.contains(x) <==> tables.shows_within(viewer, x, n) by {
                assert(before.contains(x) <==> tables.shows_within(viewer, x, n - 1));
            }
            before
        }
    }
}

/// The entry of event `k` has an id that no entry of an earlier event has.
proof fn lemma_row_is_new(tables: Tables, viewer: u128, before: Seq<EventView>, k: int)
    requires
        tables.wf(),
        0 <= k < tables.events.rows.len(),
        tables.entry(tables.events.rows[k]) is Some,
        forall|x: EventView| before.contains(x) ==> tables.shows_within(viewer, x, k),
    ensures
        forall|i: int|
            0 <= i < before.len() ==> (#[trigger] before[i]).id != tables.entry(
                tables.events.rows[k],
            ).unwrap().id,
{
    assert forall|i: int| 0 <= i < before.len() implies (#[trigger] before[i]).id != tables.entry(
        tables.events.rows[k],
    ).unwrap().id by {
        assert(before.contains(before[i]));
        assert(tables.shows_within(viewer, before[i], k));
        let m = choose|m: int|
            0 <= m < k && m < tables.events.rows.len() && tables.visible_to(
                viewer,
                #[trigger] tables.events.rows[m],
            ) && tables.entry(tables.events.rows[m]) == Some(before[i]);
        assert(tables.events.rows[m].id != tables.events.rows[k].id);
    }
}

/// What one more event adds to what a viewer sees.
proof fn lemma_shows_one_more(tables: Tables, viewer: u128, k: int)
    requires
        0 <= k < tables.events.rows.len(),
    ensures
        forall|x: EventView|
            tables.shows_within(viewer, x, k + 1) <==> (tables.shows_within(viewer, x, k) || (
            tables.visible_to(viewer, tables.events.rows[k]) && tables.entry(tables.events.rows[k])
                == Some(x))),
{
    assert forall|x: EventView|
        tables.shows_within(viewer, x, k + 1) <==> (tables.shows_within(viewer, x, k) || (
        tables.visible_to(viewer, tables.events.rows[k]) && tables.entry(tables.events.rows[k])
            == Some(x))) by {
        if tables.shows_within(viewer, x, k + 1) {
            let m = choose|m: int|
                0 <= m < k + 1 && m < tables.events.rows.len() && tables.visible_to(
                    viewer,
                    #[trigger] tables.events.rows[m],
                ) && tables.entry(tables.events.rows[m]) == Some(x);
            if m < k {
                assert(tables.shows_within(viewer, x, k));
            }
        }
        if tables.shows_within(viewer, x, k) {
            let m = choose|m: int|
                0 <= m < k && m < tables.events.rows.len() && tables.visible_to(
                    viewer,
                    #[trigger] tables.events.rows[m],
                ) && tables.entry(tables.events.rows[m]) == Some(x);
            assert(tables.shows_within(viewer, x, k + 1));
        }
        if tables.visible_to(viewer, tables.events.rows[k]) && tables.entry(tables.events.rows[k])
            == Some(x) {
            assert(tables.shows_within(viewer, x, k + 1));
        }
    }
}

/// Every viewer has a feed: [`Tables::feed`] is one.
pub proof fn lemma_feed(tables: Tables, viewer: u128)
    requires
        tables.wf(),
    ensures
        tables.is_feed(viewer, tables.feed(viewer)),
{
    let t = lemma_feed_within(tables, viewer, tables.events.rows.len() as int);
    assert(tables.is_feed(viewer, t));
}

impl Tables {
    /// This state with one more event.
    pub open spec fn with_event(
        self,
        id: u128,
        user_id: u128,
        content: Seq<char>,
        created_at: i64,
    ) -> Tables {
        Tables {
            credentials: self.credentials,
            follows: self.follows,
            events: self.events.with_event(id, user_id, content, created_at),
        }
    }
}

/// What a new event does to a feed. If the viewer sees the event, and its
/// author is registered, the feed gains the event's entry and is otherwise
/// what it was; if not, the feed is what it was.
pub proof fn lemma_feed_after_post(
    tables: Tables,
    viewer: u128,
    id: u128,
    user_id: u128,
    content: Seq<char>,
    created_at: i64,
)
    requires
        tables.wf(),
        tables.events.post_outcome(id, content) is Ok,
    ensures
        tables.with_event(id, user_id, content, created_at).wf(),
        gains(
            tables.feed(viewer),
            tables.with_event(id, user_id, content, created_at).feed(viewer),
            if tables.visible_to(viewer, EventRow { id, user_id, content, created_at }) {
                tables.entry(EventRow { id, user_id, content, created_at })
            } else {
                None
            },
        ),
{
    let row = EventRow { id, user_id, content, created_at };
    let after = tables.with_event(id, user_id, content, created_at);
    let n = tables.events.rows.len() as int;
    tables.events.lemma_post(id, user_id, content, created_at);
    lemma_feed(tables, viewer);
    let before = tables.feed(viewer);
    assert(after.events.rows[n] == row);
    assert forall|k: int| 0 <= k < n implies #[trigger] after.events.rows[k]
        == tables.events.rows[k] by {}
    let gained = if tables.visible_to(viewer, row) {
        tables.entry(row)
    } else {
        None
    };
    assert forall|x: EventView|
        after.shows(viewer, x) <==> (tables.shows(viewer, x) || gained == Some(x)) by {
        if after.shows(viewer, x) {
            let m = choose|m: int|
                0 <= m < n + 1 && m < after.events.rows.len() && after.visible_to(
                    viewer,
                    #[trigger] after.events.rows[m],
                ) && after.entry(after.events.rows[m]) == Some(x);
            if m < n {
                assert(tables.events.rows[m] == after.events.rows[m]);
                assert(tables.shows(viewer, x));
            }
        }
        if tables.shows(viewer, x) {
            let m = choose|m: int|
                0 <= m < n && m < tables.events.rows.len() && tables.visible_to(
                    viewer,
                    #[trigger] tables.events.rows[m],
                ) && tables.entry(tables.events.rows[m]) == Some(x);
            assert(after.events.rows[m] == tables.events.rows[m]);
            assert(after.shows(viewer, x));
        }
        if gained == Some(x) {
            assert(after.visible_to(viewer, after.events.rows[n]));
            assert(after.shows(viewer, x));
        }
    }
    match gained {
        Some(item) => {
            assert forall|i: int| 0 <= i < before.len() implies (#[trigger] before[i]).id
                != item.id by {
                assert(before.contains(before[i]));
                assert(tables.shows(viewer, before[i]));
                let m = choose|m: int|
                    0 <= m < n && m < tables.events.rows.len() && tables.visible_to(
                        viewer,
                        #[trigger] tables.events.rows[m],
                    ) && tables.entry(tables.events.rows[m]) == Some(before[i]);
                assert(tables.events.rows[m].id != id);
            }
            lemma_slot(before, item);
            lemma_insert_at(before, slot(before, item), item);
            let grown = before.insert(slot(before, item), item);
            before.insert_ensures(slot(before, item), item);
            assert(after.is_feed(viewer, grown));
            lemma_feed_unique(after, viewer, grown);
            if before.contains(item) {
                let i = choose|i: int| 0 <= i < before.len() && before[i] == item;
                assert(before[i].id != item.id);
            }
        },
        None => {
            assert(after.is_feed(viewer, before));
            lemma_feed_unique(after, viewer, before);
        },
    }
}

/// Whether `after` is `before` with the entry `gained` put in, if there is
/// one, and `before` itself if there is none.
pub open spec fn gains(before: Seq<EventView>, after: Seq<EventView>, gained: Option<EventView>) -> bool {
    match gained {
        Some(item) => {
            &&& after.len() == before.len() + 1
            &&& !before.contains(item)
            &&& forall|x: EventView|
                #![trigger after.contains(x)]
                after.contains(x) <==> (before.contains(x) || x == item)
        },
        None => after == before,
    }
}

/// Puts an entry into a newest-first list, at its place.
fn insert_newest_first(out: &mut Vec<EventResponse>, item: EventResponse)
    requires
        newest_first(old(out).deep_view()),
        forall|i: int|
            0 <= i < old(out).deep_view().len() ==> (#[trigger] old(out).deep_view()[i]).id
                != item.id,
    ensures
        newest_first(final(out).deep_view()),
        forall|x: EventView|
            #![trigger final(out).deep_view().contains(x)]
            final(out).deep_view().contains(x) <==> (old(out).deep_view().contains(x) || x
                == item@),
{
    let ghost before = out.deep_view();
    let mut p: usize = 0;
    while p < out.len() && (out[p].created_at > item.created_at || (out[p].created_at
        == item.created_at && out[p].id < item.id))
        invariant
            p <= out.len(),
            before == out.deep_view(),
            before == old(out).deep_view(),
            newest_first(before),
            forall|i: int| 0 <= i < before.len() ==> (#[trigger] before[i]).id != item.id,
            forall|i: int| 0 <= i < p ==> newer(#[trigger] before[i], item@),
        decreases out.len() - p,
    {
        p += 1;
    }
    let ghost entry = item@;
    proof {
        assert forall|i: int| p <= i < before.len() implies newer(item@, #[trigger] before[i]) by {
            assert(!newer(before[p as int], item@));
            lemma_newer_total(before[p as int], item@);
            if i > p {
                assert(newer(before[p as int], before[i]));
            }
        }
        lemma_insert_at(before, p as int, item@);
    }
    out.insert(p, item);
    assert(out.deep_view() =~= before.insert(p as int, entry));
    assert forall|x: EventView| #![trigger out.deep_view().contains(x)]
        out.deep_view().contains(x) <==> (before.contains(x) || x == entry) by {
        assert(before.insert(p as int, entry).contains(x) <==> (before.contains(x) || x == entry));
    }
}

impl State {
    /// The whole feed of `viewer`, newest first.
    pub fn feed(&self, viewer: u128) -> (r: Vec<EventResponse>)
        requires
            self.wf(),
        ensures
            self@.is_feed(viewer, r.deep_view()),
            r.deep_view() == self@.feed(viewer),
    {
        let ghost tables = self@;
        let mut out: Vec<EventResponse> = Vec::new();
        let mut k: usize = 0;
        assert forall|x: EventView|
            out.deep_view().contains(x) <==> tables.shows_within(viewer, x, 0) by {}
        while k < self.events.len()
            invariant
                self.wf(),
                tables == self@,
                k <= tables.events.rows.len(),
                newest_first(out.deep_view()),
                forall|x: EventView|
                    out.deep_view().contains(x) <==> tables.shows_within(viewer, x, k as int),
            decreases tables.events.rows.len() - k,
        {
            let e = self.events.get(k);
            proof {
                lemma_shows_one_more(tables, viewer, k as int);
            }
            if e.user_id == viewer || self.follows.is_following(viewer, e.user_id) {
                if let Some(user) = self.credentials.identity_of(e.user_id) {
                    let item = EventResponse {
                        id: e.id,
                        content: e.content.clone(),
                        created_at: e.created_at,
                        user,
                    };
                    proof {
                        assert(tables.entry(tables.events.rows[k as int]) == Some(item@));
                        lemma_row_is_new(tables, viewer, out.deep_view(), k as int);
                    }
                    insert_newest_first(&mut out, item);
                }
            }
            k += 1;
        }
        proof {
            assert(tables.is_feed(viewer, out.deep_view()));
            lemma_feed_unique(tables, viewer, out.deep_view());
        }
        out
    }

    /// One page of the feed of `viewer`. Pages are counted from one and hold
    /// `page_size` entries, at most [`MAX_PAGE_SIZE`]; a page beyond the
    /// feed's end is empty.
    pub fn timeline(&self, viewer: u128, page: usize, page_size: Option<usize>) -> (r: Result<
        Vec<EventResponse>,
        Error,
    >)
        requires
            self.wf(),
        ensures
            agrees(r, self@.timeline_outcome(viewer, page, page_size)),
            r is Ok ==> r.unwrap().len() <= MAX_PAGE_SIZE,
    {
        let size: usize = match page_size {
            Some(n) => if n < MAX_PAGE_SIZE {
                n
            } else {
                MAX_PAGE_SIZE
            },
            None => MAX_PAGE_SIZE,
        };
        if page == 0 {
            if size > 0 {
                return Err(Error::StorageUnavailable);
            }
            let empty: Vec<EventResponse> = Vec::new();
            assert(empty.deep_view() =~= window(self@.feed(viewer), 0, 0));
            return Ok(empty);
        }
        let mut feed = self.feed(viewer);
        let ghost whole = feed.deep_view();
        let len = feed.len();
        let pages_before: u128 = (page - 1) as u128;
        let per_page: u128 = size as u128;
        assert(pages_before * per_page <= 0xFFFF_FFFF_FFFF_FFFF * 20) by (nonlinear_arith)
            requires
                pages_before <= 0xFFFF_FFFF_FFFF_FFFF,
                per_page <= 20,
        ;
        let offset: u128 = pages_before * per_page;
        assert(offset == page_offset(page, size as int));
        if offset >= len as u128 {
            let empty: Vec<EventResponse> = Vec::new();
            assert(empty.deep_view() =~= window(whole, offset as int, size as int));
            return Ok(empty);
        }
        let start: usize = offset as usize;
        let end: usize = if size > len - start {
            len
        } else {
            start + size
        };
        feed.truncate(end);
        let page_items = feed.split_off(start);
        assert(page_items.deep_view() =~= window(whole, offset as int, size as int));
        Ok(page_items)
    }
}

} // verus!
