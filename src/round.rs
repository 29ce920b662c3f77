use vstd::prelude::*;
use crate::manager::{announce_state, broadcast_all, should_announce, BidManager};
use crate::types::{best_index, is_first_max, views, BidTrace, BidTraceView};

verus! {

/// Why one attempt to fetch a relay's bids failed.
#[derive(Clone, Copy, Debug, PartialEq, Eq, Structural)]
pub enum PollError {
    /// The relay could not be reached, or did not answer in time.
    Connection,
    /// The relay answered with a status other than success.
    HttpStatus { code: u16 },
    /// The body could not be read as bids.
    Malformed,
    /// The body held no valid bid.
    NoBids,
}

/// What the caller does next for a relay after one attempt.
#[derive(Clone, Copy, Debug, PartialEq, Eq, Structural)]
pub enum RelayAction {
    /// Wait the inter-attempt interval, then attempt again.
    Retry,
    /// The relay is done for this round.
    Settled,
}

/// Where one relay stands within a round.
#[derive(Debug)]
pub enum RelayStatus {
    Pending { attempts: usize },
    Succeeded { best: BidTrace },
    Exhausted,
}

pub enum RelayStatusView {
    Pending(nat),
    Succeeded(BidTraceView),
    Exhausted,
}

impl View for RelayStatus {
    type V = RelayStatusView;

    open spec fn view(&self) -> RelayStatusView {
        match self {
            RelayStatus::Pending { attempts } => RelayStatusView::Pending(*attempts as nat),
            RelayStatus::Succeeded { best } => RelayStatusView::Succeeded(best@),
            RelayStatus::Exhausted => RelayStatusView::Exhausted,
        }
    }
}

/// The status that a relay starts a round in.
pub open spec fn initial_status(max_attempts: nat) -> RelayStatusView {
    if max_attempts == 0 {
        RelayStatusView::Exhausted
    } else {
        RelayStatusView::Pending(0)
    }
}

/// A relay's status after a failed attempt, when `attempts` had been made before it.
pub open spec fn after_failure(attempts: nat, max_attempts: nat) -> RelayStatusView {
    if attempts + 1 >= max_attempts {
        RelayStatusView::Exhausted
    } else {
        RelayStatusView::Pending(attempts + 1)
    }
}

/// `best` is the first bid of the greatest value in `bids`.
pub open spec fn is_best_of(bids: Seq<BidTraceView>, best: BidTraceView) -> bool {
    exists|i: int| is_first_max(bids, i) && bids[i] == best
}

pub open spec fn is_settled(s: Seq<RelayStatusView>) -> bool {
    forall|i: int| 0 <= i < s.len() ==> !(#[trigger] s[i] is Pending)
}

/// How many relays have a result.
pub open spec fn count_succeeded(s: Seq<RelayStatusView>) -> nat
    decreases s.len(),
{
    if s.len() == 0 {
        0
    } else {
        count_succeeded(s.drop_last()) + if s.last() is Succeeded {
            1nat
        } else {
            0nat
        }
    }
}

pub open spec fn value_of(st: RelayStatusView) -> nat {
    match st {
        RelayStatusView::Succeeded(b) => b.value,
        _ => 0,
    }
}

/// Relay `i` holds the winning bid: the greatest value among the relays with a
/// result, and no earlier relay in configuration order has that value.
pub open spec fn is_round_winner(s: Seq<RelayStatusView>, i: int) -> bool {
    &&& 0 <= i < s.len()
    &&& s[i] is Succeeded
    &&& forall|j: int|
        0 <= j < s.len() && (#[trigger] s[j]) is Succeeded ==> value_of(s[j]) <= value_of(s[i])
    &&& forall|j: int| 0 <= j < i && (#[trigger] s[j]) is Succeeded ==> value_of(s[j]) < value_of(
        s[i],
    )
}

/// The bid that a round hands on, if any: none where fewer relays than
/// `min_successful` (or none at all) have a result.
pub open spec fn round_winner(s: Seq<RelayStatusView>, min_successful: nat) -> Option<BidTraceView> {
    if count_succeeded(s) < min_successful || count_succeeded(s) == 0 {
        None
    } else {
        Some(value_best(s[choose|i: int| is_round_winner(s, i)]))
    }
}

/// A round has at most one winning relay.
pub proof fn lemma_winner_unique(s: Seq<RelayStatusView>, i: int, j: int)
    requires
        is_round_winner(s, i),
        is_round_winner(s, j),
    ensures
        i == j,
{
    if i < j {
        assert(value_of(s[i]) < value_of(s[j]));
        assert(value_of(s[j]) <= value_of(s[i]));
    } else if j < i {
        assert(value_of(s[j]) < value_of(s[i]));
        assert(value_of(s[i]) <= value_of(s[j]));
    }
}

pub open spec fn value_best(st: RelayStatusView) -> BidTraceView
    recommends
        st is Succeeded,
{
    match st {
        RelayStatusView::Succeeded(b) => b,
        _ => arbitrary(),
    }
}

proof fn lemma_count_zero(s: Seq<RelayStatusView>, i: int)
    requires
        count_succeeded(s) == 0,
        0 <= i < s.len(),
    ensures
        !(s[i] is Succeeded),
    decreases s.len(),
{
    if i < s.len() - 1 {
        assert(s.drop_last()[i] == s[i]);
        lemma_count_zero(s.drop_last(), i);
    }
}

proof fn lemma_winner_exists(s: Seq<RelayStatusView>)
    requires
        count_succeeded(s) > 0,
    ensures
        exists|i: int| is_round_winner(s, i),
    decreases s.len(),
{
    let t = s.drop_last();
    let last = s.len() - 1;
    assert forall|j: int| 0 <= j < t.len() implies #[trigger] t[j] == s[j] by {}
    if count_succeeded(t) == 0 {
        assert(s[last] is Succeeded);
        assert forall|j: int| 0 <= j < last implies !(#[trigger] s[j] is Succeeded) by {
            lemma_count_zero(t, j);
        }
        assert(is_round_winner(s, last));
    } else {
        lemma_winner_exists(t);
        let k = choose|k: int| is_round_winner(t, k);
        assert(s[k] == t[k]);
        if s[last] is Succeeded && value_of(s[k]) < value_of(s[last]) {
            assert forall|j: int| 0 <= j < s.len() && (#[trigger] s[j]) is Succeeded implies value_of(s[j]) <= value_of(s[last]) by {
                if j < last {
                    assert(t[j] == s[j]);
                }
            }
            assert forall|j: int| 0 <= j < last && (#[trigger] s[j]) is Succeeded implies value_of(s[j]) < value_of(s[last]) by {
                assert(t[j] == s[j]);
            }
            assert(is_round_winner(s, last));
        } else {
            assert forall|j: int| 0 <= j < s.len() && (#[trigger] s[j]) is Succeeded implies value_of(s[j]) <= value_of(s[k]) by {
                if j < last {
                    assert(t[j] == s[j]);
                }
            }
            assert forall|j: int| 0 <= j < k && (#[trigger] s[j]) is Succeeded implies value_of(s[j]) < value_of(s[k]) by {
                assert(t[j] == s[j]);
            }
            assert(is_round_winner(s, k));
        }
    }
}

/// A round announces exactly when at least `min_successful` relays, and at
/// least one, have a result; what it announces is the result of one of those
/// relays, of a value no other result exceeds. Relays without a result take no
/// part.
pub proof fn lemma_round_outcome(s: Seq<RelayStatusView>, min_successful: nat)
    ensures
        round_winner(s, min_successful) is None <==> (count_succeeded(s) < min_successful
            || count_succeeded(s) == 0),
        round_winner(s, min_successful) matches Some(b) ==> exists|i: int|
            0 <= i < s.len() && s[i] == RelayStatusView::Succeeded(b) && forall|j: int|
                0 <= j < s.len() && (#[trigger] s[j]) is Succeeded ==> value_of(s[j]) <= b.value,
{
    if !(count_succeeded(s) < min_successful || count_succeeded(s) == 0) {
        lemma_winner_exists(s);
        let i = choose|i: int| is_round_winner(s, i);
        assert(s[i] == RelayStatusView::Succeeded(value_best(s[i])));
    }
}

proof fn lemma_count_take(s: Seq<RelayStatusView>, i: int)
    requires
        0 <= i < s.len(),
    ensures
        count_succeeded(s.take(i + 1)) == count_succeeded(s.take(i)) + if s[i] is Succeeded {
            1nat
        } else {
            0nat
        },
{
    assert(s.take(i + 1).drop_last() =~= s.take(i));
}

/// One polling round: for a block, the standing of every configured relay.
pub struct Round {
    block_number: u64,
    min_successful_relays: usize,
    max_attempts: usize,
    relays: Vec<RelayStatus>,
}

impl Round {
    pub closed spec fn statuses(&self) -> Seq<RelayStatusView> {
        self.relays@.map_values(|r: RelayStatus| r@)
    }

    /// A relay that awaits an attempt has attempts left.
    pub closed spec fn wf(&self) -> bool {
        forall|i: int|
            0 <= i < self.relays@.len() ==> (#[trigger] self.relays@[i] matches RelayStatus::Pending {
                attempts,
            } ==> attempts < self.max_attempts)
    }

    pub closed spec fn spec_block_number(&self) -> u64 {
        self.block_number
    }

    pub closed spec fn spec_min_successful(&self) -> nat {
        self.min_successful_relays as nat
    }

    pub closed spec fn spec_max_attempts(&self) -> nat {
        self.max_attempts as nat
    }

    /// Starts a round for `block_number` over `relay_count` relays, each allowed
    /// `max_attempts` attempts, of which `min_successful_relays` must succeed.
    pub fn new(
        block_number: u64,
        relay_count: usize,
        min_successful_relays: usize,
        max_attempts: usize,
    ) -> (r: Round)
        ensures
            r.wf(),
            r.statuses() == Seq::new(relay_count as nat, |i: int| initial_status(max_attempts as nat)),
            r.spec_block_number() == block_number,
            r.spec_min_successful() == min_successful_relays,
            r.spec_max_attempts() == max_attempts,
    {
        let mut relays: Vec<RelayStatus> = Vec::new();
        let mut i: usize = 0;
        while i < relay_count
            invariant
                i <= relay_count,
                relays@.len() == i,
                forall|k: int| 0 <= k < i ==> #[trigger] relays@[k]@ == initial_status(max_attempts as nat),
            decreases relay_count - i,
        {
            let st = if max_attempts == 0 {
                RelayStatus::Exhausted
            } else {
                RelayStatus::Pending { attempts: 0 }
            };
            relays.push(st);
            i = i + 1;
        }
        assert(relays@.map_values(|r: RelayStatus| r@) =~= Seq::new(
            relay_count as nat,
            |k: int| initial_status(max_attempts as nat),
        ));
        let r = Round { block_number, min_successful_relays, max_attempts, relays };
        assert forall|k: int| 0 <= k < r.relays@.len() implies (#[trigger] r.relays@[k] matches RelayStatus::Pending {
                attempts,
            } ==> attempts < r.max_attempts) by {
            assert(r.relays@.map_values(|r: RelayStatus| r@)[k] == r.relays@[k]@);
        }
        r
    }

    pub fn block_number(&self) -> (r: u64)
        ensures
            r == self.spec_block_number(),
    {
        self.block_number
    }

    pub fn relay_count(&self) -> (r: usize)
        ensures
            r == self.statuses().len(),
    {
        self.relays.len()
    }

    /// Whether relay `relay` still awaits an attempt.
    pub fn is_pending(&self, relay: usize) -> (r: bool)
        requires
            relay < self.statuses().len(),
        ensures
            r <==> self.statuses()[relay as int] is Pending,
    {
        match &self.relays[relay] {
            RelayStatus::Pending { .. } => true,
            _ => false,
        }
    }

    /// Records the outcome of one attempt at relay `relay`, and says whether to retry.
    /// A non-empty answer settles the relay with its best bid; a failure or an
    /// empty answer uses up one attempt.
    pub fn record(&mut self, relay: usize, outcome: Result<Vec<BidTrace>, PollError>) -> (r:
        RelayAction)
        requires
            old(self).wf(),
            relay < old(self).statuses().len(),
            old(self).statuses()[relay as int] is Pending,
        ensures
            final(self).wf(),
            final(self).spec_block_number() == old(self).spec_block_number(),
            final(self).spec_min_successful() == old(self).spec_min_successful(),
            final(self).spec_max_attempts() == old(self).spec_max_attempts(),
            final(self).statuses().len() == old(self).statuses().len(),
            forall|j: int|
                0 <= j < old(self).statuses().len() && j != relay
                    ==> #[trigger] final(self).statuses()[j] == old(self).statuses()[j],
            (r == RelayAction::Settled) <==> !(final(self).statuses()[relay as int] is Pending),
            outcome is Ok && outcome->Ok_0@.len() > 0 ==> (final(self).statuses()[relay as int] matches RelayStatusView::Succeeded(b)
                && is_best_of(views(outcome->Ok_0@), b)),
            !(outcome is Ok && outcome->Ok_0@.len() > 0) ==> final(self).statuses()[relay as int] == after_failure(
                old(self).statuses()[relay as int]->Pending_0,
                old(self).spec_max_attempts(),
            ),
    {
        proof {
            assert(self.statuses()[relay as int] == self.relays@[relay as int]@);
        }
        let attempts = match &self.relays[relay] {
            RelayStatus::Pending { attempts } => *attempts,
            _ => 0,
        };
        let ghost before = self.relays@;
        let new_status = match outcome {
            Ok(v) => {
                match best_index(&v) {
                    Some(i) => {
                        let mut v = v;
                        let best = v.swap_remove(i);
                        RelayStatus::Succeeded { best }
                    },
                    None => {
                        if attempts + 1 >= self.max_attempts {
                            RelayStatus::Exhausted
                        } else {
                            RelayStatus::Pending { attempts: attempts + 1 }
                        }
                    },
                }
            },
            Err(_) => {
                if attempts + 1 >= self.max_attempts {
                    RelayStatus::Exhausted
                } else {
                    RelayStatus::Pending { attempts: attempts + 1 }
                }
            },
        };
        let settled = match &new_status {
            RelayStatus::Pending { .. } => false,
            _ => true,
        };
        self.relays.set(relay, new_status);
        assert(self.statuses() =~= before.map_values(|r: RelayStatus| r@).update(
            relay as int,
            self.relays@[relay as int]@,
        ));
        proof {
            assert forall|k: int| 0 <= k < self.relays@.len() implies (#[trigger] self.relays@[k] matches RelayStatus::Pending {
                    attempts,
                } ==> attempts < self.max_attempts) by {
                if k != relay {
                    assert(self.relays@[k] == before[k]);
                }
            }
        }
        if settled {
            RelayAction::Settled
        } else {
            RelayAction::Retry
        }
    }

    /// Whether no relay awaits an attempt.
    pub fn settled(&self) -> (r: bool)
        ensures
            r <==> is_settled(self.statuses()),
    {
        let mut i: usize = 0;
        while i < self.relays.len()
            invariant
                i <= self.statuses().len(),
                forall|k: int| 0 <= k < i ==> !(#[trigger] self.statuses()[k] is Pending),
            decreases self.statuses().len() - i,
        {
            if self.is_pending(i) {
                return false;
            }
            i = i + 1;
        }
        true
    }

    /// The bid to announce for this round, if enough relays have a result:
    /// the greatest value, ties going to the relay first in configuration order.
    pub fn winner(&self) -> (r: Option<&BidTrace>)
        ensures
            round_winner(self.statuses(), self.spec_min_successful()) == match r {
                Some(b) => Some(b@),
                None => None::<BidTraceView>,
            },
    {
        let ghost s = self.statuses();
        let n = self.relays.len();
        let mut count: usize = 0;
        let mut best: Option<usize> = None;
        let mut i: usize = 0;
        while i < n
            invariant
                n == s.len(),
                s == self.statuses(),
                i <= n,
                count == count_succeeded(s.take(i as int)),
                count <= i,
                best is None <==> count == 0,
                best is None ==> forall|j: int| 0 <= j < i ==> !(#[trigger] s[j] is Succeeded),
                best matches Some(k) ==> k < i && is_round_winner(s.take(i as int), k as int),
            decreases n - i,
        {
            proof {
                lemma_count_take(s, i as int);
                assert(s.take(i as int + 1)[i as int] == s[i as int]);
            }
            let ghost t = s.take(i as int + 1);
            let ghost ti = s.take(i as int);
            let ghost old_best = best;
            proof {
                assert(s[i as int] == self.relays@[i as int]@);
                if let Some(k0) = old_best {
                    assert(s[k0 as int] == self.relays@[k0 as int]@);
                    assert(ti[k0 as int] == s[k0 as int]);
                }
                assert forall|j: int| 0 <= j < i implies #[trigger] t[j] == ti[j] by {}
            }
            match &self.relays[i] {
                RelayStatus::Succeeded { best: b } => {
                    let take = match best {
                        Some(k) => match &self.relays[k] {
                            RelayStatus::Succeeded { best: cur } => cur.value.lt(&b.value),
                            _ => true,
                        },
                        None => true,
                    };
                    if take {
                        best = Some(i);
                    }
                    count = count + 1;
                    proof {
                        let k = best->Some_0;
                        assert forall|j: int| 0 <= j < t.len() && (#[trigger] t[j]) is Succeeded implies value_of(t[j]) <= value_of(t[k as int]) by {
                            if j < i {
                                assert(t[j] == ti[j]);
                            }
                        }
                        assert forall|j: int| 0 <= j < k && (#[trigger] t[j]) is Succeeded implies value_of(t[j]) < value_of(t[k as int]) by {
                            assert(t[j] == ti[j]);
                        }
                    }
                },
                _ => {
                    proof {
                        if let Some(k) = best {
                            assert forall|j: int| 0 <= j < t.len() && (#[trigger] t[j]) is Succeeded implies value_of(t[j]) <= value_of(t[k as int]) by {
                                if j < i {
                                    assert(t[j] == ti[j]);
                                }
                            }
                            assert forall|j: int| 0 <= j < k && (#[trigger] t[j]) is Succeeded implies value_of(t[j]) < value_of(t[k as int]) by {
                                assert(t[j] == ti[j]);
                            }
                        }
                        assert forall|j: int| 0 <= j < i + 1 && best is None implies !(#[trigger] s[j] is Succeeded) by {
                            if j < i {
                                assert(s[j] == ti[j]);
                            }
                        }
                    }
                },
            }
            i = i + 1;
        }
        proof {
            assert(s.take(n as int) =~= s);
        }
        if count == 0 || count < self.min_successful_relays {
            return None;
        }
        proof {
            let k = best->Some_0;
            assert(is_round_winner(s, k as int));
            lemma_winner_unique(s, k as int, choose|i: int| is_round_winner(s, i));
            assert(s[k as int] == self.relays@[k as int]@);
        }
        match best {
            Some(k) => match &self.relays[k] {
                RelayStatus::Succeeded { best: b } => Some(b),
                _ => None,
            },
            None => None,
        }
    }
}

impl Round {
    /// Hands the round's winner, if any, to `manager` as the leading bid for the
    /// round's block. Returns whether it was announced.
    pub fn conclude(&self, manager: &mut BidManager) -> (r: bool)
        requires
            old(manager).wf(),
        ensures
            final(manager).wf(),
            final(manager).capacity() == old(manager).capacity(),
            round_winner(self.statuses(), self.spec_min_successful()) is None ==> {
                &&& !r
                &&& final(manager).announced() == old(manager).announced()
                &&& final(manager).pending() == old(manager).pending()
            },
            round_winner(self.statuses(), self.spec_min_successful()) matches Some(b) ==> {
                &&& r == should_announce(old(manager).announced(), self.spec_block_number(), b)
                &&& final(manager).announced() == announce_state(
                    old(manager).announced(),
                    self.spec_block_number(),
                    b,
                )
                &&& r ==> final(manager).pending() == broadcast_all(
                    old(manager).pending(),
                    b,
                    old(manager).capacity(),
                )
                &&& !r ==> final(manager).pending() == old(manager).pending()
            },
    {
        match self.winner() {
            Some(b) => manager.announce(self.block_number, b.duplicate()),
            None => false,
        }
    }
}

} // verus!
