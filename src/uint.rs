use vstd::prelude::*;
use vstd::string::StrSliceExecFns;
use std::cmp::Ordering;
use crate::text::push_char;

verus! {

/// 2^64, the radix of one limb.
pub open spec fn limb_base() -> nat {
    0x1_0000_0000_0000_0000
}

/// 2^256: every `U256` is below it.
pub open spec fn u256_bound() -> nat {
    0x1_0000_0000_0000_0000 * (0x1_0000_0000_0000_0000 * (0x1_0000_0000_0000_0000 * 0x1_0000_0000_0000_0000))
}

pub open spec fn is_digit(c: char) -> bool {
    '0' <= c && c <= '9'
}

pub open spec fn digit_val(c: char) -> nat {
    (c as nat - '0' as nat) as nat
}

pub open spec fn all_digits(s: Seq<char>) -> bool {
    forall|i: int| 0 <= i < s.len() ==> is_digit(#[trigger] s[i])
}

/// The number that a string of decimal digits denotes, most significant digit first.
pub open spec fn dec_value(s: Seq<char>) -> nat
    decreases s.len(),
{
    if s.len() == 0 {
        0
    } else {
        10 * dec_value(s.drop_last()) + digit_val(s.last())
    }
}

/// A decimal numeral that fits in 256 bits: at least one digit, digits only.
pub open spec fn is_dec_u256(s: Seq<char>) -> bool {
    s.len() > 0 && all_digits(s) && dec_value(s) < u256_bound()
}

/// The decimal digit character for `d < 10`.
pub open spec fn digit_char(d: nat) -> char {
    if d == 0 {
        '0'
    } else if d == 1 {
        '1'
    } else if d == 2 {
        '2'
    } else if d == 3 {
        '3'
    } else if d == 4 {
        '4'
    } else if d == 5 {
        '5'
    } else if d == 6 {
        '6'
    } else if d == 7 {
        '7'
    } else if d == 8 {
        '8'
    } else {
        '9'
    }
}

/// The shortest decimal numeral of `v`.
pub open spec fn dec_string(v: nat) -> Seq<char>
    decreases v,
{
    if v < 10 {
        seq![digit_char(v)]
    } else {
        dec_string(v / 10).push(digit_char(v % 10))
    }
}

pub fn digit_to_char(d: u64) -> (c: char)
    requires
        d < 10,
    ensures
        c == digit_char(d as nat),
{
    if d == 0 {
        '0'
    } else if d == 1 {
        '1'
    } else if d == 2 {
        '2'
    } else if d == 3 {
        '3'
    } else if d == 4 {
        '4'
    } else if d == 5 {
        '5'
    } else if d == 6 {
        '6'
    } else if d == 7 {
        '7'
    } else if d == 8 {
        '8'
    } else {
        '9'
    }
}

/// An unsigned 256-bit integer held as four 64-bit limbs, least significant first.
#[derive(Clone, Copy, Debug, PartialEq, Eq, Structural)]
pub struct U256 {
    pub l0: u64,
    pub l1: u64,
    pub l2: u64,
    pub l3: u64,
}

impl View for U256 {
    type V = nat;

    open spec fn view(&self) -> nat {
        self.l0 as nat + 0x1_0000_0000_0000_0000 * (self.l1 as nat + 0x1_0000_0000_0000_0000 * (self.l2 as nat + 0x1_0000_0000_0000_0000
            * self.l3 as nat))
    }
}

/// The numeric order of two values is the lexicographic order of their limbs,
/// most significant first.
pub proof fn lemma_view_order(a: U256, b: U256)
    ensures
        a@ < b@ <==> (a.l3 < b.l3 || (a.l3 == b.l3 && (a.l2 < b.l2 || (a.l2 == b.l2 && (a.l1
            < b.l1 || (a.l1 == b.l1 && a.l0 < b.l0)))))),
        a@ == b@ <==> a == b,
{
}

pub proof fn lemma_view_bound(a: U256)
    ensures
        a@ < u256_bound(),
{
}

proof fn lemma_digit_char(d: nat)
    requires
        d < 10,
    ensures
        is_digit(digit_char(d)),
        digit_val(digit_char(d)) == d,
{
}

/// Rendering a value in decimal and parsing the numeral gives the value back.
pub proof fn lemma_dec_round_trip(v: nat)
    ensures
        dec_value(dec_string(v)) == v,
        dec_string(v).len() > 0,
        all_digits(dec_string(v)),
    decreases v,
{
    lemma_digit_char(v % 10);
    if v >= 10 {
        lemma_dec_round_trip(v / 10);
        let s = dec_string(v / 10);
        let t = s.push(digit_char(v % 10));
        assert(t.drop_last() =~= s);
        assert(t.last() == digit_char(v % 10));
        assert(dec_value(t) == 10 * dec_value(s) + digit_val(digit_char(v % 10)));
        assert(all_digits(t)) by {
            assert forall|i: int| 0 <= i < t.len() implies is_digit(#[trigger] t[i]) by {
                if i < s.len() {
                    assert(t[i] == s[i]);
                }
            }
        }
    } else {
        let t = seq![digit_char(v)];
        assert(t.drop_last() =~= Seq::<char>::empty());
        assert(dec_value(t) == 10 * dec_value(t.drop_last()) + digit_val(t.last()));
    }
}

proof fn lemma_dec_value_monotone(s: Seq<char>, j: int)
    requires
        all_digits(s),
        0 <= j <= s.len(),
    ensures
        dec_value(s.take(j)) <= dec_value(s),
    decreases s.len(),
{
    if j < s.len() {
        let t = s.drop_last();
        assert(t.take(j) =~= s.take(j));
        assert(all_digits(t)) by {
            assert forall|i: int| 0 <= i < t.len() implies is_digit(#[trigger] t[i]) by {
                assert(t[i] == s[i]);
            }
        }
        lemma_dec_value_monotone(t, j);
    } else {
        assert(s.take(j) =~= s);
    }
}

impl U256 {
    pub fn zero() -> (r: U256)
        ensures
            r@ == 0,
    {
        U256 { l0: 0, l1: 0, l2: 0, l3: 0 }
    }

    pub fn from_u64(v: u64) -> (r: U256)
        ensures
            r@ == v as nat,
    {
        U256 { l0: v, l1: 0, l2: 0, l3: 0 }
    }

    pub fn from_u128(v: u128) -> (r: U256)
        ensures
            r@ == v as nat,
    {
        let lo = (v % 0x1_0000_0000_0000_0000) as u64;
        let hi = (v / 0x1_0000_0000_0000_0000) as u64;
        U256 { l0: lo, l1: hi, l2: 0, l3: 0 }
    }

    pub fn is_zero(&self) -> (r: bool)
        ensures
            r <==> self@ == 0,
    {
        self.l0 == 0 && self.l1 == 0 && self.l2 == 0 && self.l3 == 0
    }

    /// Numeric comparison.
    pub fn cmp(&self, other: &U256) -> (r: Ordering)
        ensures
            (r == Ordering::Less) <==> self@ < other@,
            (r == Ordering::Equal) <==> self@ == other@,
            (r == Ordering::Greater) <==> self@ > other@,
    {
        proof {
            lemma_view_order(*self, *other);
            lemma_view_order(*other, *self);
        }
        if self.l3 != other.l3 {
            if self.l3 < other.l3 { Ordering::Less } else { Ordering::Greater }
        } else if self.l2 != other.l2 {
            if self.l2 < other.l2 { Ordering::Less } else { Ordering::Greater }
        } else if self.l1 != other.l1 {
            if self.l1 < other.l1 { Ordering::Less } else { Ordering::Greater }
        } else if self.l0 != other.l0 {
            if self.l0 < other.l0 { Ordering::Less } else { Ordering::Greater }
        } else {
            Ordering::Equal
        }
    }

    pub fn lt(&self, other: &U256) -> (r: bool)
        ensures
            r <==> self@ < other@,
    {
        match self.cmp(other) {
            Ordering::Less => true,
            _ => false,
        }
    }

    pub fn le(&self, other: &U256) -> (r: bool)
        ensures
            r <==> self@ <= other@,
    {
        match self.cmp(other) {
            Ordering::Greater => false,
            _ => true,
        }
    }

    pub fn eq(&self, other: &U256) -> (r: bool)
        ensures
            r <==> self@ == other@,
    {
        match self.cmp(other) {
            Ordering::Equal => true,
            _ => false,
        }
    }

    /// `10 * self + d`, or `None` where that does not fit in 256 bits.
    pub fn mul10_add(&self, d: u64) -> (r: Option<U256>)
        requires
            d < 10,
        ensures
            r is Some <==> 10 * self@ + d < u256_bound(),
            r matches Some(v) ==> v@ == 10 * self@ + d,
    {
        let b: u128 = 0x1_0000_0000_0000_0000;
        let t0: u128 = self.l0 as u128 * 10 + d as u128;
        let n0 = (t0 % b) as u64;
        let c0: u128 = t0 / b;
        let t1: u128 = self.l1 as u128 * 10 + c0;
        let n1 = (t1 % b) as u64;
        let c1: u128 = t1 / b;
        let t2: u128 = self.l2 as u128 * 10 + c1;
        let n2 = (t2 % b) as u64;
        let c2: u128 = t2 / b;
        let t3: u128 = self.l3 as u128 * 10 + c2;
        let n3 = (t3 % b) as u64;
        let c3: u128 = t3 / b;
        assert(t0 == n0 + c0 * b);
        assert(t1 == n1 + c1 * b);
        assert(t2 == n2 + c2 * b);
        assert(t3 == n3 + c3 * b);
        let v = U256 { l0: n0, l1: n1, l2: n2, l3: n3 };
        let ghost bb: int = 0x1_0000_0000_0000_0000;
        assert(10 * self@ + d == n0 + bb * (n1 + bb * (n2 + bb * (n3 + bb * c3))));
        proof {
            lemma_view_bound(v);
            if c3 > 0 {
                assert(bb * (bb * (bb * (bb * c3))) >= bb * (bb * (bb * bb))) by (nonlinear_arith)
                    requires
                        c3 >= 1,
                        bb > 0,
                ;
            }
        }
        if c3 == 0 {
            Some(v)
        } else {
            None
        }
    }

    /// The quotient and remainder of division by ten.
    pub fn divmod10(&self) -> (r: (U256, u64))
        ensures
            r.1 < 10,
            self@ == 10 * r.0@ + r.1,
    {
        let b: u128 = 0x1_0000_0000_0000_0000;
        let q3 = self.l3 / 10;
        let r3 = self.l3 % 10;
        let t2: u128 = r3 as u128 * b + self.l2 as u128;
        let q2 = (t2 / 10) as u64;
        let r2 = (t2 % 10) as u64;
        let t1: u128 = r2 as u128 * b + self.l1 as u128;
        let q1 = (t1 / 10) as u64;
        let r1 = (t1 % 10) as u64;
        let t0: u128 = r1 as u128 * b + self.l0 as u128;
        let q0 = (t0 / 10) as u64;
        let r0 = (t0 % 10) as u64;
        let ghost bb: int = 0x1_0000_0000_0000_0000;
        assert(self.l3 == 10 * q3 + r3);
        assert(t2 == 10 * q2 + r2);
        assert(t1 == 10 * q1 + r1);
        assert(t0 == 10 * q0 + r0);
        let q = U256 { l0: q0, l1: q1, l2: q2, l3: q3 };
        assert(self@ == r0 + 10 * (q0 + bb * (q1 + bb * (q2 + bb * q3))));
        (q, r0)
    }

    /// The shortest decimal numeral of the value.
    pub fn to_dec_string(&self) -> (r: String)
        ensures
            r@ == dec_string(self@),
    {
        let mut cur = *self;
        let mut rev: Vec<char> = Vec::new();
        while !(cur.l1 == 0 && cur.l2 == 0 && cur.l3 == 0 && cur.l0 < 10)
            invariant
                dec_string(self@) == dec_string(cur@) + rev@.reverse(),
            decreases cur@,
        {
            let (q, d) = cur.divmod10();
            let ghost prior = rev@;
            rev.push(digit_to_char(d));
            proof {
                assert(cur@ >= 10);
                assert(q@ == cur@ / 10 && d == cur@ % 10);
                assert(rev@.reverse() =~= seq![digit_char(d as nat)] + prior.reverse());
                assert(dec_string(cur@) == dec_string(q@).push(digit_char(d as nat)));
                assert(dec_string(q@).push(digit_char(d as nat)) + prior.reverse() =~= dec_string(q@)
                    + rev@.reverse());
            }
            cur = q;
        }
        let ghost prior = rev@;
        rev.push(digit_to_char(cur.l0));
        assert(rev@.reverse() =~= seq![digit_char(cur@)] + prior.reverse());
        let mut out = String::new();
        let n = rev.len();
        let mut i: usize = 0;
        while i < n
            invariant
                n == rev@.len(),
                i <= n,
                out@ == rev@.reverse().take(i as int),
            decreases n - i,
        {
            push_char(&mut out, rev[n - 1 - i]);
            assert(out@ =~= rev@.reverse().take(i as int + 1));
            i = i + 1;
        }
        assert(out@ =~= rev@.reverse());
        out
    }

    /// Parses a decimal numeral of at least one digit and no other characters.
    pub fn from_dec_str(s: &str) -> (r: Option<U256>)
        ensures
            r is Some <==> is_dec_u256(s@),
            r matches Some(v) ==> v@ == dec_value(s@),
    {
        let n = s.unicode_len();
        if n == 0 {
            return None;
        }
        let mut acc = U256::zero();
        let mut i: usize = 0;
        while i < n
            invariant
                n == s@.len(),
                0 <= i <= n,
                all_digits(s@.take(i as int)),
                acc@ == dec_value(s@.take(i as int)),
            decreases n - i,
        {
            let c = s.get_char(i);
            if !('0' <= c && c <= '9') {
                return None;
            }
            let d = (c as u32 - '0' as u32) as u64;
            let ghost pre = s@.take(i as int);
            let ghost next = s@.take(i as int + 1);
            proof {
                assert(next.drop_last() =~= pre);
                assert(next.last() == c);
                assert(all_digits(next)) by {
                    assert forall|k: int| 0 <= k < next.len() implies is_digit(#[trigger] next[k]) by {
                        if k < i {
                            assert(next[k] == pre[k]);
                        }
                    }
                }
            }
            match acc.mul10_add(d) {
                Some(v) => {
                    acc = v;
                },
                None => {
                    proof {
                        if all_digits(s@) {
                            lemma_dec_value_monotone(s@, i as int + 1);
                        }
                    }
                    return None;
                },
            }
            i = i + 1;
        }
        proof {
            assert(s@.take(n as int) =~= s@);
            lemma_view_bound(acc);
        }
        Some(acc)
    }
}

} // verus!
