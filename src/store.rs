//! The message store of one open chat: the ordered, duplicate-free message
//! sequence, the state of backward pagination, and every mutation of them.
use vstd::prelude::*;
use crate::models::{ApiError, ChatMessage};
use crate::ordering::{
    count_before, has_id, insert_message, insert_page, is_ordered, key_lt, lemma_count_before,
    lemma_insert_message, lemma_pin_messages, lemma_remove_id, pin_messages, remove_id,
    replace_message, stamped, well_ordered,
};

verus! {

/// The number of messages that a full history page holds.
pub const PAGE_SIZE: usize = 20;

/// The abstract state of a store.
pub struct StoreState {
    /// The messages, in canonical order.
    pub messages: Seq<ChatMessage>,
    /// Whether older history may still be fetched.
    pub has_more_older: bool,
    /// The history page that the next backfill asks for (pages count from 1, newest first).
    pub next_page: u32,
    /// Whether a backfill request is in flight.
    pub pending_backfill: bool,
    /// The session token; it changes whenever the store is refilled from scratch.
    pub generation: u64,
    /// The signed-in user, against whom `is_my_message` is computed.
    pub current_user: Option<u128>,
}

/// What a caller needs to fetch one backfill page, and to hand its result back.
#[derive(Clone, Copy, Debug, PartialEq, Eq, Structural)]
pub struct BackfillTicket {
    pub generation: u64,
    pub page: u32,
    pub page_size: usize,
}

/// What became of a backfill result handed to the store.
#[derive(Clone, Copy, Debug, PartialEq, Eq, Structural)]
pub enum BackfillOutcome {
    /// The page was merged.
    Applied,
    /// The fetch failed; the store may try the same page again.
    Failed,
    /// The result belongs to no fetch that the store is waiting for; it was discarded.
    Stale,
}

/// The session token after a refill: the next value, wrapping around.
pub open spec fn next_generation(g: u64) -> u64 {
    if g == u64::MAX {
        0
    } else {
        (g + 1) as u64
    }
}

/// A backfill may start: none is in flight and history is not exhausted.
pub open spec fn can_begin(st: StoreState) -> bool {
    !st.pending_backfill && st.has_more_older
}

/// The ticket of a backfill started in `st`.
pub open spec fn ticket_for(st: StoreState) -> BackfillTicket {
    BackfillTicket { generation: st.generation, page: st.next_page, page_size: PAGE_SIZE }
}

/// The state after a backfill trigger: unchanged when no backfill may start.
pub open spec fn after_begin(st: StoreState) -> StoreState {
    if can_begin(st) {
        StoreState { pending_backfill: true, ..st }
    } else {
        st
    }
}

/// The ticket is that of the backfill the store is waiting for.
pub open spec fn is_current(st: StoreState, t: BackfillTicket) -> bool {
    st.pending_backfill && t.generation == st.generation && t.page == st.next_page
}

/// The state after a failed fetch: only the in-flight guard is released.
pub open spec fn after_failure(st: StoreState) -> StoreState {
    StoreState { pending_backfill: false, ..st }
}

/// The state after a fetched page: the page is merged, the cursor moves on,
/// and a page shorter than `PAGE_SIZE` marks history as exhausted (as does a
/// cursor that cannot move further).
pub open spec fn after_success(st: StoreState, page: Seq<Option<ChatMessage>>) -> StoreState {
    StoreState {
        messages: insert_page(st.messages, page, st.current_user),
        has_more_older: page.len() == PAGE_SIZE && st.next_page < u32::MAX,
        next_page: if st.next_page < u32::MAX {
            (st.next_page + 1) as u32
        } else {
            st.next_page
        },
        pending_backfill: false,
        ..st
    }
}

/// Whether `a` comes before `b` in the canonical order.
pub fn precedes(a: &ChatMessage, b: &ChatMessage) -> (r: bool)
    ensures
        r == key_lt(*a, *b),
{
    a.created_at < b.created_at || (a.created_at == b.created_at && a.id < b.id)
}

/// `m` with `is_my_message` computed for `user`.
pub fn stamp(m: ChatMessage, user: Option<u128>) -> (r: ChatMessage)
    ensures
        r == stamped(m, user),
{
    let mut m = m;
    m.is_my_message = match (m.sender_id, user) {
        (Some(s), Some(u)) => s == u,
        _ => false,
    };
    m
}

/// The position of the entry with identifier `id`, if any.
pub fn find_index(v: &Vec<ChatMessage>, id: u128) -> (r: Option<usize>)
    ensures
        match r {
            Some(i) => i < v.len() && v@[i as int].id == id,
            None => !has_id(v@, id),
        },
{
    let mut i: usize = 0;
    while i < v.len()
        invariant
            i <= v.len(),
            forall|k: int| 0 <= k < i ==> v@[k].id != id,
        decreases v.len() - i,
    {
        if v[i].id == id {
            return Some(i);
        }
        i = i + 1;
    }
    None
}

/// Where `m` belongs in an ordered sequence, found by binary search.
pub fn insertion_point(v: &Vec<ChatMessage>, m: &ChatMessage) -> (r: usize)
    requires
        is_ordered(v@),
    ensures
        r == count_before(v@, *m),
{
    let mut lo: usize = 0;
    let mut hi: usize = v.len();
    while lo < hi
        invariant
            lo <= hi <= v.len(),
            is_ordered(v@),
            forall|i: int| 0 <= i < lo ==> key_lt(#[trigger] v@[i], *m),
            forall|i: int| hi <= i < v.len() ==> !key_lt(#[trigger] v@[i], *m),
        decreases hi - lo,
    {
        let mid = lo + (hi - lo) / 2;
        if precedes(&v[mid], m) {
            proof {
                assert forall|i: int| 0 <= i <= mid implies key_lt(#[trigger] v@[i], *m) by {
                    if i < mid {
                        assert(key_lt(v@[i], v@[mid as int]));
                    }
                }
            }
            lo = mid + 1;
        } else {
            proof {
                assert forall|i: int| mid <= i < v.len() implies !key_lt(#[trigger] v@[i], *m) by {
                    if i > mid {
                        assert(key_lt(v@[mid as int], v@[i]));
                    }
                }
            }
            hi = mid;
        }
    }
    proof {
        lemma_count_before(v@, *m);
        let c = count_before(v@, *m) as int;
        if c < lo {
            assert(key_lt(v@[c], *m));
        }
        if c > lo {
            assert(!key_lt(v@[lo as int], *m));
        }
    }
    lo
}

/// Inserts `m` at its place unless its identifier is already present.
pub fn insert_sorted(v: &mut Vec<ChatMessage>, m: ChatMessage)
    requires
        well_ordered(old(v)@),
    ensures
        final(v)@ == insert_message(old(v)@, m),
{
    match find_index(v, m.id) {
        Some(_) => {},
        None => {
            let p = insertion_point(v, &m);
            proof {
                lemma_count_before(v@, m);
            }
            v.insert(p, m);
        },
    }
}

/// Takes in each message of `page`, stamped for `user`, skipping records that
/// did not decode.
pub fn insert_all(v: &mut Vec<ChatMessage>, page: &Vec<Option<ChatMessage>>, user: Option<u128>)
    requires
        well_ordered(old(v)@),
    ensures
        final(v)@ == insert_page(old(v)@, page@, user),
        well_ordered(final(v)@),
{
    let ghost s0 = v@;
    let mut i: usize = 0;
    while i < page.len()
        invariant
            i <= page.len(),
            v@ == insert_page(s0, page@.take(i as int), user),
            well_ordered(s0),
            well_ordered(v@),
        decreases page.len() - i,
    {
        proof {
            assert(page@.take(i + 1).drop_last() =~= page@.take(i as int));
            assert(page@.take(i + 1).last() == page@[i as int]);
        }
        match &page[i] {
            Some(record) => {
                let m = stamp(record.duplicate(), user);
                proof {
                    lemma_insert_message(v@, m);
                }
                insert_sorted(v, m);
            },
            None => {},
        }
        i = i + 1;
    }
    proof {
        assert(page@.take(i as int) =~= page@);
    }
}

/// Drops every entry with identifier `id`.
pub fn remove_entries(v: &mut Vec<ChatMessage>, id: u128)
    ensures
        final(v)@ == remove_id(old(v)@, id),
{
    let mut out: Vec<ChatMessage> = Vec::new();
    let mut i: usize = 0;
    while i < v.len()
        invariant
            i <= v.len(),
            out@ == remove_id(v@.take(i as int), id),
        decreases v.len() - i,
    {
        proof {
            assert(v@.take(i + 1).drop_last() =~= v@.take(i as int));
        }
        if v[i].id != id {
            out.push(v[i].duplicate());
        }
        i = i + 1;
    }
    proof {
        assert(v@.take(i as int) =~= v@);
    }
    *v = out;
}

/// Applies a pin change to every entry with identifier `id`.
pub fn pin_entries(v: &mut Vec<ChatMessage>, id: u128, is_pinned: bool, at: Option<i64>)
    ensures
        final(v)@ == pin_messages(old(v)@, id, is_pinned, at),
{
    let ghost s0 = v@;
    let mut i: usize = 0;
    while i < v.len()
        invariant
            i <= v.len(),
            v.len() == s0.len(),
            forall|k: int| 0 <= k < i ==> #[trigger] v@[k] == pin_messages(s0, id, is_pinned, at)[k],
            forall|k: int| i <= k < s0.len() ==> #[trigger] v@[k] == s0[k],
        decreases s0.len() - i,
    {
        if v[i].id == id {
            let mut m = v[i].duplicate();
            m.is_pinned = is_pinned;
            m.updated_at = at;
            m.pinned_at = if is_pinned {
                at
            } else {
                None
            };
            v.set(i, m);
        }
        i = i + 1;
    }
    proof {
        assert(v@ =~= pin_messages(s0, id, is_pinned, at));
    }
}

/// The message store of one open chat.
pub struct MessageStore {
    messages: Vec<ChatMessage>,
    has_more_older: bool,
    next_page: u32,
    pending_backfill: bool,
    generation: u64,
    current_user: Option<u128>,
}

impl View for MessageStore {
    type V = StoreState;

    closed spec fn view(&self) -> StoreState {
        StoreState {
            messages: self.messages@,
            has_more_older: self.has_more_older,
            next_page: self.next_page,
            pending_backfill: self.pending_backfill,
            generation: self.generation,
            current_user: self.current_user,
        }
    }
}

impl MessageStore {
    /// The store's invariant: messages in canonical order, identifiers unique.
    pub open spec fn wf(&self) -> bool {
        well_ordered(self@.messages)
    }

    /// An empty store for a chat viewed by `current_user`.
    pub fn new(current_user: Option<u128>) -> (r: MessageStore)
        ensures
            r.wf(),
            r@ == (StoreState {
                messages: Seq::empty(),
                has_more_older: true,
                next_page: 1,
                pending_backfill: false,
                generation: 0,
                current_user,
            }),
    {
        MessageStore {
            messages: Vec::new(),
            has_more_older: true,
            next_page: 1,
            pending_backfill: false,
            generation: 0,
            current_user,
        }
    }

    /// Replaces the contents with the first history page (page 1), given newest
    /// first; starts a new session, so that results of earlier backfills are discarded.
    /// A record that did not decode (`None`) is skipped but counts toward the page's length.
    pub fn initialize(&mut self, page: Vec<Option<ChatMessage>>)
        ensures
            final(self).wf(),
            final(self)@ == (StoreState {
                messages: insert_page(Seq::empty(), page@, old(self)@.current_user),
                has_more_older: page@.len() == PAGE_SIZE,
                next_page: 2,
                pending_backfill: false,
                generation: next_generation(old(self)@.generation),
                current_user: old(self)@.current_user,
            }),
    {
        let mut v: Vec<ChatMessage> = Vec::new();
        insert_all(&mut v, &page, self.current_user);
        self.messages = v;
        self.has_more_older = page.len() == PAGE_SIZE;
        self.next_page = 2;
        self.pending_backfill = false;
        self.generation = if self.generation == u64::MAX {
            0
        } else {
            self.generation + 1
        };
    }

    /// Merges a page of older messages; entries already present are kept as they are.
    /// A record that did not decode (`None`) is skipped but counts toward the page's length.
    pub fn prepend_older(&mut self, page: Vec<Option<ChatMessage>>)
        requires
            old(self).wf(),
        ensures
            final(self).wf(),
            final(self)@ == (StoreState {
                messages: insert_page(old(self)@.messages, page@, old(self)@.current_user),
                has_more_older: page@.len() == PAGE_SIZE,
                ..old(self)@
            }),
    {
        insert_all(&mut self.messages, &page, self.current_user);
        self.has_more_older = page.len() == PAGE_SIZE;
    }

    /// Adds a live message at its place; a message whose identifier is present is ignored.
    pub fn apply_insert(&mut self, message: ChatMessage)
        requires
            old(self).wf(),
        ensures
            final(self).wf(),
            final(self)@ == (StoreState {
                messages: insert_message(
                    old(self)@.messages,
                    stamped(message, old(self)@.current_user),
                ),
                ..old(self)@
            }),
    {
        let m = stamp(message, self.current_user);
        proof {
            lemma_insert_message(self.messages@, m);
        }
        insert_sorted(&mut self.messages, m);
    }

    /// Replaces the entry with the message's identifier by the new snapshot;
    /// does nothing when no entry carries it.
    pub fn apply_update(&mut self, message: ChatMessage)
        requires
            old(self).wf(),
        ensures
            final(self).wf(),
            final(self)@ == (StoreState {
                messages: replace_message(
                    old(self)@.messages,
                    stamped(message, old(self)@.current_user),
                ),
                ..old(self)@
            }),
    {
        let m = stamp(message, self.current_user);
        match find_index(&self.messages, m.id) {
            None => {},
            Some(_) => {
                proof {
                    lemma_remove_id(self.messages@, m.id);
                    lemma_insert_message(remove_id(self.messages@, m.id), m);
                }
                remove_entries(&mut self.messages, m.id);
                insert_sorted(&mut self.messages, m);
            },
        }
    }

    /// Sets the pin state of the entry with identifier `id`: pinning records
    /// `at` as its pin time, unpinning clears the pin time, and `at` becomes its
    /// update time. Does nothing when no entry carries `id`.
    pub fn apply_pin_change(&mut self, id: u128, is_pinned: bool, at: Option<i64>)
        requires
            old(self).wf(),
        ensures
            final(self).wf(),
            final(self)@ == (StoreState {
                messages: pin_messages(old(self)@.messages, id, is_pinned, at),
                ..old(self)@
            }),
    {
        proof {
            lemma_pin_messages(self.messages@, id, is_pinned, at);
        }
        pin_entries(&mut self.messages, id, is_pinned, at);
    }

    /// Removes the entry with identifier `id`; does nothing when there is none.
    pub fn apply_delete(&mut self, id: u128)
        requires
            old(self).wf(),
        ensures
            final(self).wf(),
            final(self)@ == (StoreState { messages: remove_id(old(self)@.messages, id), ..old(self)@ }),
    {
        proof {
            lemma_remove_id(self.messages@, id);
        }
        remove_entries(&mut self.messages, id);
    }

    /// Starts a backfill when none is in flight and history is not exhausted:
    /// marks it in flight and returns what to fetch. Otherwise does nothing.
    pub fn begin_backfill(&mut self) -> (r: Option<BackfillTicket>)
        requires
            old(self).wf(),
        ensures
            final(self).wf(),
            final(self)@ == after_begin(old(self)@),
            r == if can_begin(old(self)@) {
                Some(ticket_for(old(self)@))
            } else {
                None::<BackfillTicket>
            },
    {
        if self.pending_backfill || !self.has_more_older {
            None
        } else {
            self.pending_backfill = true;
            Some(BackfillTicket { generation: self.generation, page: self.next_page, page_size: PAGE_SIZE })
        }
    }

    /// Hands back the result of a backfill fetch. A result that belongs to no
    /// fetch in flight of this session is discarded; a failure releases the
    /// in-flight guard only; a page is merged and moves the cursor on.
    pub fn complete_backfill(
        &mut self,
        ticket: BackfillTicket,
        result: Result<Vec<Option<ChatMessage>>, ApiError>,
    ) -> (r: BackfillOutcome)
        requires
            old(self).wf(),
        ensures
            final(self).wf(),
            !is_current(old(self)@, ticket) ==> r is Stale && final(self)@ == old(self)@,
            is_current(old(self)@, ticket) ==> match result {
                Ok(page) => r is Applied && final(self)@ == after_success(old(self)@, page@),
                Err(_) => r is Failed && final(self)@ == after_failure(old(self)@),
            },
    {
        if !self.pending_backfill || ticket.generation != self.generation || ticket.page
            != self.next_page {
            return BackfillOutcome::Stale;
        }
        match result {
            Ok(page) => {
                let full = page.len() == PAGE_SIZE;
                insert_all(&mut self.messages, &page, self.current_user);
                if self.next_page < u32::MAX {
                    self.next_page = self.next_page + 1;
                    self.has_more_older = full;
                } else {
                    self.has_more_older = false;
                }
                self.pending_backfill = false;
                BackfillOutcome::Applied
            },
            Err(_) => {
                self.pending_backfill = false;
                BackfillOutcome::Failed
            },
        }
    }

    /// The messages, in canonical order.
    pub fn messages(&self) -> (r: &Vec<ChatMessage>)
        ensures
            r@ == self@.messages,
    {
        &self.messages
    }

    /// Whether older history may still be fetched.
    pub fn has_more_older(&self) -> (r: bool)
        ensures
            r == self@.has_more_older,
    {
        self.has_more_older
    }

    /// Whether a backfill is in flight.
    pub fn is_backfill_pending(&self) -> (r: bool)
        ensures
            r == self@.pending_backfill,
    {
        self.pending_backfill
    }

    /// The history page that the next backfill asks for.
    pub fn next_page(&self) -> (r: u32)
        ensures
            r == self@.next_page,
    {
        self.next_page
    }

    /// The current session token.
    pub fn generation(&self) -> (r: u64)
        ensures
            r == self@.generation,
    {
        self.generation
    }

    /// The user against whom `is_my_message` is computed.
    pub fn current_user(&self) -> (r: Option<u128>)
        ensures
            r == self@.current_user,
    {
        self.current_user
    }
}

} // verus!
