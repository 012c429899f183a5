//! The requests that a backend has been sent and not yet answered, each
//! under the ID it was sent with, so that an answer read back reaches the
//! one that waits for it.
use std::collections::HashMap;
use vstd::prelude::*;

verus! {

broadcast use vstd::std_specs::hash::group_hash_axioms;

/// Waiters of type `T` under the request IDs they were issued with.
pub struct PendingTable<T> {
    next_id: u64,
    waiting: HashMap<u64, T>,
}

/// The mathematical view of a table: the next ID to give out and the
/// waiter under each ID that is still waiting.
pub struct PendingView<T> {
    pub next_id: u64,
    pub waiting: Map<u64, T>,
}

impl<T> View for PendingTable<T> {
    type V = PendingView<T>;

    closed spec fn view(&self) -> PendingView<T> {
        PendingView { next_id: self.next_id, waiting: self.waiting@ }
    }
}

/// IDs start at 1 and every waiting ID is below the next ID.
pub open spec fn pending_wf<T>(v: PendingView<T>) -> bool {
    &&& v.next_id >= 1
    &&& forall|id: u64| #[trigger] v.waiting.contains_key(id) ==> id < v.next_id
}

impl<T> PendingTable<T> {
    /// An empty table whose first ID is 1.
    pub fn new() -> (r: PendingTable<T>)
        ensures
            r@.next_id == 1,
            r@.waiting == Map::<u64, T>::empty(),
            pending_wf(r@),
    {
        PendingTable { next_id: 1, waiting: HashMap::new() }
    }

    /// Whether another ID can be given out.
    pub fn can_issue(&self) -> (r: bool)
        ensures
            r == (self@.next_id < u64::MAX),
    {
        self.next_id < u64::MAX
    }

    /// Registers a waiter under the next ID and returns that ID.
    pub fn issue(&mut self, waiter: T) -> (id: u64)
        requires
            pending_wf(old(self)@),
            old(self)@.next_id < u64::MAX,
        ensures
            id == old(self)@.next_id,
            !old(self)@.waiting.contains_key(id),
            final(self)@.next_id == old(self)@.next_id + 1,
            final(self)@.waiting == old(self)@.waiting.insert(id, waiter),
            pending_wf(final(self)@),
    {
        let id = self.next_id;
        self.next_id = self.next_id + 1;
        self.waiting.insert(id, waiter);
        id
    }

    /// Takes the waiter registered under `id` out of the table, if one is.
    pub fn take(&mut self, id: u64) -> (r: Option<T>)
        requires
            pending_wf(old(self)@),
        ensures
            pending_wf(final(self)@),
            final(self)@.next_id == old(self)@.next_id,
            final(self)@.waiting == old(self)@.waiting.remove(id),
            r == (if old(self)@.waiting.contains_key(id) {
                Some(old(self)@.waiting[id])
            } else {
                None
            }),
    {
        let r = self.waiting.remove(&id);
        proof {
            assert forall|k: u64| #[trigger] self@.waiting.contains_key(k) implies k < self@.next_id by {
                assert(old(self)@.waiting.contains_key(k));
            }
        }
        r
    }
}

/// What an answer reads back: the waiter registered under its ID when a
/// request was issued is the one that receives it, and only once: taking
/// it leaves the table as it was before the request.
pub proof fn law_issue_then_take<T>(v: PendingView<T>, w: T)
    requires
        pending_wf(v),
        v.next_id < u64::MAX,
    ensures
        ({
            let id = v.next_id;
            let v1 = PendingView { next_id: (v.next_id + 1) as u64, waiting: v.waiting.insert(id, w) };
            &&& pending_wf(v1)
            &&& !v.waiting.contains_key(id)
            &&& v1.waiting.contains_key(id)
            &&& v1.waiting[id] == w
            &&& v1.waiting.remove(id) == v.waiting
        }),
{
    let id = v.next_id;
    let v1 = PendingView { next_id: (v.next_id + 1) as u64, waiting: v.waiting.insert(id, w) };
    assert(v1.waiting.remove(id) =~= v.waiting);
}

} // verus!
