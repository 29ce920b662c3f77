use vstd::prelude::*;
use std::collections::HashMap;
use crate::types::{equivalent, views, BidTrace, BidTraceView};

verus! {

broadcast use vstd::std_specs::hash::group_hash_axioms;

/// Whether announcing `c` for `block` reaches subscribers, given the last
/// announcements `m`: it does unless the last one for that block is equivalent.
pub open spec fn should_announce(m: Map<u64, BidTraceView>, block: u64, c: BidTraceView) -> bool {
    !(m.contains_key(block) && equivalent(m[block], c))
}

/// The last announcements after announcing `c` for `block`.
pub open spec fn announce_state(m: Map<u64, BidTraceView>, block: u64, c: BidTraceView) -> Map<
    u64,
    BidTraceView,
> {
    if should_announce(m, block, c) {
        m.insert(block, c)
    } else {
        m
    }
}

/// A subscriber's queue after one more announcement: at capacity the oldest entry goes.
pub open spec fn bounded_push(q: Seq<BidTraceView>, b: BidTraceView, cap: nat) -> Seq<
    BidTraceView,
> {
    if q.len() >= cap {
        q.drop_first().push(b)
    } else {
        q.push(b)
    }
}

/// Every queue after one more announcement.
pub open spec fn broadcast_all(qs: Seq<Seq<BidTraceView>>, b: BidTraceView, cap: nat) -> Seq<
    Seq<BidTraceView>,
> {
    Seq::new(qs.len(), |i: int| bounded_push(qs[i], b, cap))
}

/// Announcing an equivalent candidate right after another is suppressed, while
/// a candidate of higher value that follows is announced.
pub proof fn lemma_announce_dedup(
    m: Map<u64, BidTraceView>,
    block: u64,
    first: BidTraceView,
    again: BidTraceView,
    higher: BidTraceView,
)
    requires
        equivalent(first, again),
        higher.value > first.value,
    ensures
        !m.contains_key(block) ==> should_announce(m, block, first),
        !should_announce(announce_state(m, block, first), block, again),
        should_announce(announce_state(m, block, first), block, higher),
{
}

/// An announcement for one block leaves the last announcement of every other
/// block as it was.
pub proof fn lemma_announce_other_blocks(
    m: Map<u64, BidTraceView>,
    block: u64,
    c: BidTraceView,
    other: u64,
)
    requires
        other != block,
    ensures
        announce_state(m, block, c).contains_key(other) == m.contains_key(other),
        m.contains_key(other) ==> announce_state(m, block, c)[other] == m[other],
        announce_state(m, block, c).contains_key(block),
{
}

/// Holds, for each block, the last bid announced, and a bounded queue of
/// announcements for each subscriber.
pub struct BidManager {
    last: HashMap<u64, BidTrace>,
    queues: Vec<Vec<BidTrace>>,
    capacity: usize,
}

impl BidManager {
    /// The last bid announced for each block.
    pub closed spec fn announced(&self) -> Map<u64, BidTraceView> {
        self.last@.map_values(|b: BidTrace| b@)
    }

    /// What each subscriber has yet to receive, oldest first.
    pub closed spec fn pending(&self) -> Seq<Seq<BidTraceView>> {
        self.queues@.map_values(|q: Vec<BidTrace>| views(q@))
    }

    /// How many announcements a subscriber's queue holds at most.
    pub closed spec fn capacity(&self) -> nat {
        self.capacity as nat
    }

    pub closed spec fn wf(&self) -> bool {
        &&& self.capacity > 0
        &&& forall|i: int| 0 <= i < self.queues@.len() ==> #[trigger] self.queues@[i]@.len()
            <= self.capacity
    }

    /// A manager with no announcements and no subscribers.
    pub fn new(capacity: usize) -> (r: BidManager)
        requires
            capacity > 0,
        ensures
            r.wf(),
            r.announced() == Map::<u64, BidTraceView>::empty(),
            r.pending() == Seq::<Seq<BidTraceView>>::empty(),
            r.capacity() == capacity,
    {
        let r = BidManager { last: HashMap::new(), queues: Vec::new(), capacity };
        assert(r.announced() =~= Map::<u64, BidTraceView>::empty());
        assert(r.pending() =~= Seq::<Seq<BidTraceView>>::empty());
        r
    }

    /// Registers a subscriber, who receives every announcement from now on.
    pub fn subscribe(&mut self) -> (id: usize)
        requires
            old(self).wf(),
        ensures
            final(self).wf(),
            id == old(self).pending().len(),
            final(self).pending() == old(self).pending().push(Seq::empty()),
            final(self).announced() == old(self).announced(),
            final(self).capacity() == old(self).capacity(),
    {
        let id = self.queues.len();
        self.queues.push(Vec::new());
        assert(views(self.queues@[id as int]@) =~= Seq::<BidTraceView>::empty());
        assert(self.pending() =~= old(self).pending().push(Seq::empty()));
        id
    }

    pub fn subscriber_count(&self) -> (r: usize)
        ensures
            r == self.pending().len(),
    {
        self.queues.len()
    }

    /// The last bid announced for `block`.
    pub fn last_announced(&self, block: u64) -> (r: Option<&BidTrace>)
        ensures
            r is Some <==> self.announced().contains_key(block),
            r matches Some(b) ==> b@ == self.announced()[block],
    {
        self.last.get(&block)
    }

    /// Takes the oldest pending announcement of subscriber `id`.
    pub fn next(&mut self, id: usize) -> (r: Option<BidTrace>)
        requires
            old(self).wf(),
            id < old(self).pending().len(),
        ensures
            final(self).wf(),
            final(self).announced() == old(self).announced(),
            final(self).capacity() == old(self).capacity(),
            old(self).pending()[id as int].len() == 0 ==> r is None && final(self).pending()
                == old(self).pending(),
            old(self).pending()[id as int].len() > 0 ==> (r matches Some(b) && b@ == old(
                self,
            ).pending()[id as int][0]) && final(self).pending() == old(self).pending().update(
                id as int,
                old(self).pending()[id as int].drop_first(),
            ),
    {
        let ghost q0 = self.queues@[id as int]@;
        if self.queues[id].len() == 0 {
            return None;
        }
        let b = self.queues[id].remove(0);
        proof {
            assert(views(self.queues@[id as int]@) =~= views(q0).drop_first());
            assert(self.pending() =~= old(self).pending().update(
                id as int,
                old(self).pending()[id as int].drop_first(),
            ));
        }
        Some(b)
    }

    /// Announces `candidate` as the leading bid for `block`, unless the last
    /// announcement for that block is equivalent to it. Returns whether it was announced.
    pub fn announce(&mut self, block: u64, candidate: BidTrace) -> (r: bool)
        requires
            old(self).wf(),
        ensures
            final(self).wf(),
            r == should_announce(old(self).announced(), block, candidate@),
            final(self).announced() == announce_state(old(self).announced(), block, candidate@),
            final(self).capacity() == old(self).capacity(),
            r ==> final(self).pending() == broadcast_all(
                old(self).pending(),
                candidate@,
                old(self).capacity(),
            ),
            !r ==> final(self).pending() == old(self).pending(),
    {
        let duplicate = match self.last.get(&block) {
            Some(prev) => prev.is_equivalent(&candidate),
            None => false,
        };
        if duplicate {
            return false;
        }
        let n = self.queues.len();
        let ghost cap = self.capacity as nat;
        let mut i: usize = 0;
        while i < n
            invariant
                n == self.queues@.len(),
                i <= n,
                self.capacity == old(self).capacity,
                cap == self.capacity as nat,
                self.last == old(self).last,
                self.wf(),
                self.queues@.len() == old(self).queues@.len(),
                forall|k: int|
                    0 <= k < i ==> #[trigger] self.pending()[k] == bounded_push(
                        old(self).pending()[k],
                        candidate@,
                        cap,
                    ),
                forall|k: int| i <= k < n ==> #[trigger] self.queues@[k] == old(self).queues@[k],
            decreases n - i,
        {
            let copy = candidate.duplicate();
            let cap_now = self.capacity;
            let ghost before = self.queues@;
            let ghost pend_before = self.pending();
            push_bounded(&mut self.queues[i], copy, cap_now);
            proof {
                assert forall|k: int| 0 <= k < i + 1 implies #[trigger] self.pending()[k]
                    == bounded_push(old(self).pending()[k], candidate@, cap) by {
                    assert(self.pending()[k] == views(self.queues@[k]@));
                    assert(old(self).pending()[k] == views(old(self).queues@[k]@));
                    if k == i {
                        assert(before[k] == old(self).queues@[k]);
                    }
                    if k < i {
                        assert(pend_before[k] == bounded_push(old(self).pending()[k], candidate@, cap));
                        assert(pend_before[k] == views(before[k]@));
                        assert(self.queues@[k] == before[k]);
                    }
                }
                assert forall|k: int| 0 <= k < self.queues@.len() implies #[trigger] self.queues@[k]@.len()
                    <= self.capacity by {
                    if k != i {
                        assert(self.queues@[k] == before[k]);
                    }
                }
            }
            i = i + 1;
        }
        assert(self.pending() =~= broadcast_all(old(self).pending(), candidate@, cap));
        self.last.insert(block, candidate);
        assert(self.announced() =~= old(self).announced().insert(block, candidate@));
        true
    }
}

fn push_bounded(q: &mut Vec<BidTrace>, b: BidTrace, cap: usize)
    requires
        cap > 0,
        old(q)@.len() <= cap,
    ensures
        final(q)@.len() <= cap,
        views(final(q)@) == bounded_push(views(old(q)@), b@, cap as nat),
{
    if q.len() >= cap {
        q.remove(0);
    }
    q.push(b);
    assert(views(q@) =~= bounded_push(views(old(q)@), b@, cap as nat));
}

} // verus!
