use vstd::prelude::*;
use std::cmp::Ordering;
use crate::address::Address;
use crate::address::hex_digits;
use crate::text::push_str;
use crate::uint::{dec_string, U256};

verus! {

/// Why a bid record was refused at construction.
#[derive(Clone, Copy, Debug, PartialEq, Eq, Structural)]
pub enum ValidationError {
    SlotZero,
    GasLimitZero,
    GasUsedExceedsLimit,
}

/// The mathematical content of a `BidTrace`.
pub struct BidTraceView {
    pub slot: nat,
    pub parent_hash: Seq<char>,
    pub block_hash: Seq<char>,
    pub builder_pubkey: Seq<char>,
    pub proposer_pubkey: Seq<char>,
    pub proposer_fee_recipient: Seq<u8>,
    pub gas_limit: nat,
    pub gas_used: nat,
    pub value: nat,
    pub block_number: nat,
    pub num_tx: nat,
    pub timestamp: nat,
    pub timestamp_ms: nat,
    pub additional_info: Option<Seq<char>>,
}

pub open spec fn opt_string_view(o: Option<String>) -> Option<Seq<char>> {
    match o {
        Some(s) => Some(s@),
        None => None,
    }
}

/// One relay's report of a bid for a slot.
#[derive(Debug)]
pub struct BidTrace {
    pub slot: U256,
    pub parent_hash: String,
    pub block_hash: String,
    pub builder_pubkey: String,
    pub proposer_pubkey: String,
    pub proposer_fee_recipient: Address,
    pub gas_limit: U256,
    pub gas_used: U256,
    pub value: U256,
    pub block_number: U256,
    pub num_tx: U256,
    pub timestamp: U256,
    pub timestamp_ms: U256,
    pub additional_info: Option<String>,
}

impl View for BidTrace {
    type V = BidTraceView;

    open spec fn view(&self) -> BidTraceView {
        BidTraceView {
            slot: self.slot@,
            parent_hash: self.parent_hash@,
            block_hash: self.block_hash@,
            builder_pubkey: self.builder_pubkey@,
            proposer_pubkey: self.proposer_pubkey@,
            proposer_fee_recipient: self.proposer_fee_recipient@,
            gas_limit: self.gas_limit@,
            gas_used: self.gas_used@,
            value: self.value@,
            block_number: self.block_number@,
            num_tx: self.num_tx@,
            timestamp: self.timestamp@,
            timestamp_ms: self.timestamp_ms@,
            additional_info: opt_string_view(self.additional_info),
        }
    }
}

/// The three invariants that construction enforces.
pub open spec fn valid_fields(slot: nat, gas_limit: nat, gas_used: nat) -> bool {
    slot > 0 && gas_limit > 0 && gas_used <= gas_limit
}

/// The error that construction reports for the given fields, if any.
pub open spec fn validation_error(slot: nat, gas_limit: nat, gas_used: nat) -> Option<
    ValidationError,
> {
    if slot == 0 {
        Some(ValidationError::SlotZero)
    } else if gas_limit == 0 {
        Some(ValidationError::GasLimitZero)
    } else if gas_used > gas_limit {
        Some(ValidationError::GasUsedExceedsLimit)
    } else {
        None
    }
}

/// Two bids are the same leading bid when their value and builder agree.
pub open spec fn equivalent(a: BidTraceView, b: BidTraceView) -> bool {
    a.value == b.value && a.builder_pubkey == b.builder_pubkey
}

/// The order of bids: by value alone.
pub open spec fn bid_le(a: BidTraceView, b: BidTraceView) -> bool {
    a.value <= b.value
}

/// `i` holds a bid of the greatest value in `s`, and no earlier entry has that value.
pub open spec fn is_first_max(s: Seq<BidTraceView>, i: int) -> bool {
    &&& 0 <= i < s.len()
    &&& forall|j: int| 0 <= j < s.len() ==> #[trigger] s[j].value <= s[i].value
    &&& forall|j: int| 0 <= j < i ==> #[trigger] s[j].value < s[i].value
}

pub open spec fn views(s: Seq<BidTrace>) -> Seq<BidTraceView> {
    s.map_values(|b: BidTrace| b@)
}

/// Construction succeeds exactly on the fields that meet the three invariants,
/// and fails with an error on every other.
pub proof fn lemma_validation_exact(slot: nat, gas_limit: nat, gas_used: nat)
    ensures
        validation_error(slot, gas_limit, gas_used) is None <==> valid_fields(
            slot,
            gas_limit,
            gas_used,
        ),
{
}

/// Bids are totally ordered by value: any two compare, the order is transitive,
/// two bids that each precede the other have equal value, and the order of two
/// bids depends on their values alone.
pub proof fn lemma_bid_order_total(a: BidTraceView, b: BidTraceView, c: BidTraceView, d: BidTraceView)
    ensures
        bid_le(a, b) || bid_le(b, a),
        bid_le(a, b) && bid_le(b, c) ==> bid_le(a, c),
        bid_le(a, b) && bid_le(b, a) ==> a.value == b.value,
        bid_le(a, b) <==> a.value <= b.value,
        c.value == a.value && d.value == b.value ==> (bid_le(c, d) <==> bid_le(a, b)),
{
}

/// Bids with equal value and equal builder are equivalent whatever their other
/// fields hold; equivalence is an equivalence relation, and two bids are
/// equivalent exactly when their deduplication keys agree.
pub proof fn lemma_equivalence_by_key(a: BidTraceView, b: BidTraceView, c: BidTraceView)
    ensures
        a.value == b.value && a.builder_pubkey == b.builder_pubkey ==> equivalent(a, b),
        equivalent(a, b) <==> (a.value, a.builder_pubkey) == (b.value, b.builder_pubkey),
        equivalent(a, a),
        equivalent(a, b) ==> equivalent(b, a),
        equivalent(a, b) && equivalent(b, c) ==> equivalent(a, c),
{
}

/// The rendering of a record for logs.
pub open spec fn render(v: BidTraceView) -> Seq<char> {
    "BidTrace { slot: "@ + dec_string(v.slot) + ", parent_hash: "@ + v.parent_hash
        + ", block_hash: "@ + v.block_hash + ", builder_pubkey: "@ + v.builder_pubkey
        + ", proposer_pubkey: "@ + v.proposer_pubkey + ", proposer_fee_recipient: 0x"@
        + hex_digits(v.proposer_fee_recipient) + ", gas_limit: "@ + dec_string(v.gas_limit)
        + ", gas_used: "@ + dec_string(v.gas_used) + ", value: "@ + dec_string(v.value)
        + ", block_number: "@ + dec_string(v.block_number) + ", num_tx: "@ + dec_string(v.num_tx)
        + ", timestamp: "@ + dec_string(v.timestamp) + " }"@
}

/// The rendering of one bid of a relay's answer for logs, one line.
pub open spec fn render_line(relay_url: Seq<char>, v: BidTraceView) -> Seq<char> {
    "BidTrace { relay_url: "@ + relay_url + ", block_number: "@ + dec_string(v.block_number)
        + ", builder_pubkey: "@ + v.builder_pubkey + ", value: "@ + dec_string(v.value)
        + ", num_tx: "@ + dec_string(v.num_tx) + ", timestamp_ms: "@ + dec_string(v.timestamp_ms)
        + " }\n"@
}

/// The lines of all bids of a relay's answer.
pub open spec fn render_lines(relay_url: Seq<char>, s: Seq<BidTraceView>) -> Seq<char>
    decreases s.len(),
{
    if s.len() == 0 {
        Seq::empty()
    } else {
        render_lines(relay_url, s.drop_last()) + render_line(relay_url, s.last())
    }
}

fn copy_string(s: &String) -> (r: String)
    ensures
        r@ == s@,
{
    s.clone()
}

impl BidTrace {
    /// A record with every invariant of construction met.
    pub open spec fn wf(&self) -> bool {
        valid_fields(self.slot@, self.gas_limit@, self.gas_used@)
    }

    /// Builds a record, refusing a zero slot, a zero gas limit, or more gas used than the limit.
    pub fn new(
        slot: U256,
        parent_hash: String,
        block_hash: String,
        builder_pubkey: String,
        proposer_pubkey: String,
        proposer_fee_recipient: Address,
        gas_limit: U256,
        gas_used: U256,
        value: U256,
        block_number: U256,
        num_tx: U256,
        timestamp: U256,
        timestamp_ms: U256,
        additional_info: Option<String>,
    ) -> (r: Result<BidTrace, ValidationError>)
        ensures
            r is Ok <==> valid_fields(slot@, gas_limit@, gas_used@),
            r matches Err(e) ==> validation_error(slot@, gas_limit@, gas_used@) == Some(e),
            r matches Ok(b) ==> b.wf() && b == (BidTrace {
                slot,
                parent_hash,
                block_hash,
                builder_pubkey,
                proposer_pubkey,
                proposer_fee_recipient,
                gas_limit,
                gas_used,
                value,
                block_number,
                num_tx,
                timestamp,
                timestamp_ms,
                additional_info,
            }),
    {
        if slot.is_zero() {
            return Err(ValidationError::SlotZero);
        }
        if gas_limit.is_zero() {
            return Err(ValidationError::GasLimitZero);
        }
        if !gas_used.le(&gas_limit) {
            return Err(ValidationError::GasUsedExceedsLimit);
        }
        Ok(
            BidTrace {
                slot,
                parent_hash,
                block_hash,
                builder_pubkey,
                proposer_pubkey,
                proposer_fee_recipient,
                gas_limit,
                gas_used,
                value,
                block_number,
                num_tx,
                timestamp,
                timestamp_ms,
                additional_info,
            },
        )
    }

    /// A copy with the same content.
    pub fn duplicate(&self) -> (r: BidTrace)
        ensures
            r@ == self@,
    {
        let additional_info = match &self.additional_info {
            Some(s) => Some(copy_string(s)),
            None => None,
        };
        BidTrace {
            slot: self.slot,
            parent_hash: copy_string(&self.parent_hash),
            block_hash: copy_string(&self.block_hash),
            builder_pubkey: copy_string(&self.builder_pubkey),
            proposer_pubkey: copy_string(&self.proposer_pubkey),
            proposer_fee_recipient: self.proposer_fee_recipient.duplicate(),
            gas_limit: self.gas_limit,
            gas_used: self.gas_used,
            value: self.value,
            block_number: self.block_number,
            num_tx: self.num_tx,
            timestamp: self.timestamp,
            timestamp_ms: self.timestamp_ms,
            additional_info,
        }
    }

    /// A one-line rendering for logs.
    pub fn to_string(&self) -> (r: String)
        ensures
            r@ == render(self@),
    {
        let mut out = String::new();
        push_str(&mut out, "BidTrace { slot: ");
        push_str(&mut out, self.slot.to_dec_string().as_str());
        push_str(&mut out, ", parent_hash: ");
        push_str(&mut out, self.parent_hash.as_str());
        push_str(&mut out, ", block_hash: ");
        push_str(&mut out, self.block_hash.as_str());
        push_str(&mut out, ", builder_pubkey: ");
        push_str(&mut out, self.builder_pubkey.as_str());
        push_str(&mut out, ", proposer_pubkey: ");
        push_str(&mut out, self.proposer_pubkey.as_str());
        push_str(&mut out, ", proposer_fee_recipient: ");
        push_str(&mut out, self.proposer_fee_recipient.to_hex_string().as_str());
        push_str(&mut out, ", gas_limit: ");
        push_str(&mut out, self.gas_limit.to_dec_string().as_str());
        push_str(&mut out, ", gas_used: ");
        push_str(&mut out, self.gas_used.to_dec_string().as_str());
        push_str(&mut out, ", value: ");
        push_str(&mut out, self.value.to_dec_string().as_str());
        push_str(&mut out, ", block_number: ");
        push_str(&mut out, self.block_number.to_dec_string().as_str());
        push_str(&mut out, ", num_tx: ");
        push_str(&mut out, self.num_tx.to_dec_string().as_str());
        push_str(&mut out, ", timestamp: ");
        push_str(&mut out, self.timestamp.to_dec_string().as_str());
        push_str(&mut out, " }");
        proof {
            reveal_strlit(", proposer_fee_recipient: ");
            reveal_strlit(", proposer_fee_recipient: 0x");
            assert(", proposer_fee_recipient: "@ + seq!['0', 'x'] =~= ", proposer_fee_recipient: 0x"@);
        }
        assert(out@ =~= render(self@));
        out
    }

    /// Whether two records are the same leading bid: equal value and equal builder.
    pub fn is_equivalent(&self, other: &BidTrace) -> (r: bool)
        ensures
            r <==> equivalent(self@, other@),
    {
        self.value.eq(&other.value) && self.builder_pubkey == other.builder_pubkey
    }

    /// The key that deduplication hashes: the value and the builder's public key.
    pub fn dedup_key(&self) -> (r: (U256, String))
        ensures
            r.0@ == self@.value,
            r.1@ == self@.builder_pubkey,
    {
        (self.value, copy_string(&self.builder_pubkey))
    }

    /// Compares two records by value alone.
    pub fn cmp(&self, other: &BidTrace) -> (r: Ordering)
        ensures
            (r == Ordering::Less) <==> self@.value < other@.value,
            (r == Ordering::Equal) <==> self@.value == other@.value,
            (r == Ordering::Greater) <==> self@.value > other@.value,
    {
        self.value.cmp(&other.value)
    }
}

/// The index of the first bid of the greatest value, or `None` for no bids.
pub fn best_index(traces: &Vec<BidTrace>) -> (r: Option<usize>)
    ensures
        r is None <==> traces@.len() == 0,
        r matches Some(i) ==> is_first_max(views(traces@), i as int),
{
    if traces.len() == 0 {
        return None;
    }
    let ghost s = views(traces@);
    let mut best: usize = 0;
    let mut i: usize = 1;
    while i < traces.len()
        invariant
            s == views(traces@),
            1 <= i <= traces@.len(),
            best < i,
            forall|j: int| 0 <= j < i ==> #[trigger] s[j].value <= s[best as int].value,
            forall|j: int| 0 <= j < best ==> #[trigger] s[j].value < s[best as int].value,
        decreases traces@.len() - i,
    {
        if traces[best].value.lt(&traces[i].value) {
            best = i;
        }
        i = i + 1;
    }
    Some(best)
}

/// A relay's answer: its URL and the bids it returned, in its order.
#[derive(Debug)]
pub struct BidResponse {
    pub relay_url: String,
    pub bid_traces: Vec<BidTrace>,
}

impl BidResponse {
    /// The first of the bids of the greatest value.
    pub fn best(&self) -> (r: Option<&BidTrace>)
        ensures
            r is None <==> self.bid_traces@.len() == 0,
            r matches Some(b) ==> exists|i: int|
                is_first_max(views(self.bid_traces@), i) && self.bid_traces@[i] == *b,
    {
        match best_index(&self.bid_traces) {
            Some(i) => Some(&self.bid_traces[i]),
            None => None,
        }
    }

    /// One line for each bid, for logs.
    pub fn to_string(&self) -> (r: String)
        ensures
            r@ == render_lines(self.relay_url@, views(self.bid_traces@)),
    {
        let mut out = String::new();
        let n = self.bid_traces.len();
        let mut i: usize = 0;
        while i < n
            invariant
                n == self.bid_traces@.len(),
                i <= n,
                out@ == render_lines(self.relay_url@, views(self.bid_traces@).take(i as int)),
            decreases n - i,
        {
            let b = &self.bid_traces[i];
            let ghost prior = out@;
            push_str(&mut out, "BidTrace { relay_url: ");
            push_str(&mut out, self.relay_url.as_str());
            push_str(&mut out, ", block_number: ");
            push_str(&mut out, b.block_number.to_dec_string().as_str());
            push_str(&mut out, ", builder_pubkey: ");
            push_str(&mut out, b.builder_pubkey.as_str());
            push_str(&mut out, ", value: ");
            push_str(&mut out, b.value.to_dec_string().as_str());
            push_str(&mut out, ", num_tx: ");
            push_str(&mut out, b.num_tx.to_dec_string().as_str());
            push_str(&mut out, ", timestamp_ms: ");
            push_str(&mut out, b.timestamp_ms.to_dec_string().as_str());
            push_str(&mut out, " }\n");
            proof {
                let t = views(self.bid_traces@).take(i as int + 1);
                assert(t.drop_last() =~= views(self.bid_traces@).take(i as int));
                assert(t.last() == b@);
                assert(out@ =~= prior + render_line(self.relay_url@, b@));
            }
            i = i + 1;
        }
        assert(views(self.bid_traces@).take(n as int) =~= views(self.bid_traces@));
        out
    }
}

} // verus!
