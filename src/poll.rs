use vstd::prelude::*;
use crate::address::{address_byte, address_digits, is_address_text, Address};
use crate::round::PollError;
use crate::types::{opt_string_view, validation_error, views, BidTrace, BidTraceView, ValidationError};
use crate::uint::{dec_value, is_dec_u256, U256};

verus! {

/// A bid as a relay sends it: numbers as decimal strings, the address as hex.
#[derive(Clone, Debug)]
pub struct RawBidTrace {
    pub slot: String,
    pub parent_hash: String,
    pub block_hash: String,
    pub builder_pubkey: String,
    pub proposer_pubkey: String,
    pub proposer_fee_recipient: String,
    pub gas_limit: String,
    pub gas_used: String,
    pub value: String,
    pub block_number: String,
    pub num_tx: String,
    pub timestamp: String,
    pub timestamp_ms: String,
    pub additional_info: Option<String>,
}

/// Why one raw bid could not become a record.
#[derive(Clone, Copy, Debug, PartialEq, Eq, Structural)]
pub enum RecordError {
    /// A number or the address does not parse.
    Malformed,
    /// The fields parse but break an invariant.
    Invalid(ValidationError),
}

/// Every number and the address of a raw bid parse.
pub open spec fn raw_parses(r: RawBidTrace) -> bool {
    &&& is_dec_u256(r.slot@)
    &&& is_dec_u256(r.gas_limit@)
    &&& is_dec_u256(r.gas_used@)
    &&& is_dec_u256(r.value@)
    &&& is_dec_u256(r.block_number@)
    &&& is_dec_u256(r.num_tx@)
    &&& is_dec_u256(r.timestamp@)
    &&& is_dec_u256(r.timestamp_ms@)
    &&& is_address_text(r.proposer_fee_recipient@)
}

/// A raw bid that parses and meets the invariants of construction.
pub open spec fn raw_valid(r: RawBidTrace) -> bool {
    raw_parses(r) && validation_error(dec_value(r.slot@), dec_value(r.gas_limit@), dec_value(r.gas_used@))
        is None
}

/// The record that a raw bid denotes.
pub open spec fn raw_view(r: RawBidTrace) -> BidTraceView {
    BidTraceView {
        slot: dec_value(r.slot@),
        parent_hash: r.parent_hash@,
        block_hash: r.block_hash@,
        builder_pubkey: r.builder_pubkey@,
        proposer_pubkey: r.proposer_pubkey@,
        proposer_fee_recipient: Seq::new(
            20,
            |i: int| address_byte(address_digits(r.proposer_fee_recipient@), i),
        ),
        gas_limit: dec_value(r.gas_limit@),
        gas_used: dec_value(r.gas_used@),
        value: dec_value(r.value@),
        block_number: dec_value(r.block_number@),
        num_tx: dec_value(r.num_tx@),
        timestamp: dec_value(r.timestamp@),
        timestamp_ms: dec_value(r.timestamp_ms@),
        additional_info: opt_string_view(r.additional_info),
    }
}

/// The records of the valid raw bids, in their order.
pub open spec fn kept(s: Seq<RawBidTrace>) -> Seq<BidTraceView>
    decreases s.len(),
{
    if s.len() == 0 {
        Seq::empty()
    } else if raw_valid(s.last()) {
        kept(s.drop_last()).push(raw_view(s.last()))
    } else {
        kept(s.drop_last())
    }
}

fn copy_string(s: &String) -> (r: String)
    ensures
        r@ == s@,
{
    s.clone()
}

fn parse_number(s: &String) -> (r: Result<U256, RecordError>)
    ensures
        r is Ok <==> is_dec_u256(s@),
        r matches Ok(v) ==> v@ == dec_value(s@),
        r matches Err(e) ==> e == RecordError::Malformed,
{
    match U256::from_dec_str(s.as_str()) {
        Some(v) => Ok(v),
        None => Err(RecordError::Malformed),
    }
}

impl RawBidTrace {
    /// Parses the numbers and the address, then builds the record.
    pub fn to_bid_trace(&self) -> (r: Result<BidTrace, RecordError>)
        ensures
            !raw_parses(*self) <==> r == Err::<BidTrace, RecordError>(RecordError::Malformed),
            raw_parses(*self) ==> match validation_error(
                dec_value(self.slot@),
                dec_value(self.gas_limit@),
                dec_value(self.gas_used@),
            ) {
                Some(e) => r == Err::<BidTrace, RecordError>(RecordError::Invalid(e)),
                None => r matches Ok(b) && b.wf() && b@ == raw_view(*self),
            },
    {
        let slot = parse_number(&self.slot)?;
        let gas_limit = parse_number(&self.gas_limit)?;
        let gas_used = parse_number(&self.gas_used)?;
        let value = parse_number(&self.value)?;
        let block_number = parse_number(&self.block_number)?;
        let num_tx = parse_number(&self.num_tx)?;
        let timestamp = parse_number(&self.timestamp)?;
        let timestamp_ms = parse_number(&self.timestamp_ms)?;
        let recipient = match Address::parse(self.proposer_fee_recipient.as_str()) {
            Some(a) => a,
            None => {
                return Err(RecordError::Malformed);
            },
        };
        let additional_info = match &self.additional_info {
            Some(s) => Some(copy_string(s)),
            None => None,
        };
        match BidTrace::new(
            slot,
            copy_string(&self.parent_hash),
            copy_string(&self.block_hash),
            copy_string(&self.builder_pubkey),
            copy_string(&self.proposer_pubkey),
            recipient,
            gas_limit,
            gas_used,
            value,
            block_number,
            num_tx,
            timestamp,
            timestamp_ms,
            additional_info,
        ) {
            Ok(b) => Ok(b),
            Err(e) => Err(RecordError::Invalid(e)),
        }
    }
}

/// Turns a relay's answer into records. A number or an address that does not
/// parse makes the whole answer malformed; a bid that breaks an invariant is
/// dropped; an answer with no valid bid left is `NoBids`.
pub fn parse_bids(raws: &Vec<RawBidTrace>) -> (r: Result<Vec<BidTrace>, PollError>)
    ensures
        (exists|i: int| 0 <= i < raws@.len() && !raw_parses(#[trigger] raws@[i])) <==> r == Err::<
            Vec<BidTrace>,
            PollError,
        >(PollError::Malformed),
        (forall|i: int| 0 <= i < raws@.len() ==> raw_parses(#[trigger] raws@[i])) ==> {
            if kept(raws@).len() == 0 {
                r == Err::<Vec<BidTrace>, PollError>(PollError::NoBids)
            } else {
                r matches Ok(v) && views(v@) == kept(raws@) && forall|i: int|
                    0 <= i < v@.len() ==> (#[trigger] v@[i]).wf()
            }
        },
{
    let mut out: Vec<BidTrace> = Vec::new();
    let mut i: usize = 0;
    while i < raws.len()
        invariant
            i <= raws@.len(),
            forall|k: int| 0 <= k < i ==> raw_parses(#[trigger] raws@[k]),
            views(out@) == kept(raws@.take(i as int)),
            forall|k: int| 0 <= k < out@.len() ==> (#[trigger] out@[k]).wf(),
        decreases raws@.len() - i,
    {
        proof {
            assert(raws@.take(i as int + 1).drop_last() =~= raws@.take(i as int));
            assert(raws@.take(i as int + 1).last() == raws@[i as int]);
        }
        match raws[i].to_bid_trace() {
            Ok(b) => {
                let ghost prior = out@;
                out.push(b);
                assert(views(out@) =~= views(prior).push(b@));
            },
            Err(RecordError::Malformed) => {
                return Err(PollError::Malformed);
            },
            Err(RecordError::Invalid(_)) => {},
        }
        i = i + 1;
    }
    proof {
        assert(raws@.take(raws@.len() as int) =~= raws@);
    }
    if out.len() == 0 {
        Err(PollError::NoBids)
    } else {
        Ok(out)
    }
}

} // verus!
