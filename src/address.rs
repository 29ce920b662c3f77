use vstd::prelude::*;
use vstd::string::StrSliceExecFns;
use crate::text::push_char;
use crate::uint::{digit_char, digit_to_char};

verus! {

/// The value of a hexadecimal digit of either case.
pub open spec fn hex_val(c: char) -> Option<nat> {
    if '0' <= c && c <= '9' {
        Some((c as nat - '0' as nat) as nat)
    } else if 'a' <= c && c <= 'f' {
        Some((c as nat - 'a' as nat + 10) as nat)
    } else if 'A' <= c && c <= 'F' {
        Some((c as nat - 'A' as nat + 10) as nat)
    } else {
        None
    }
}

/// The digits of an address text: what follows an optional `0x` prefix.
pub open spec fn address_digits(s: Seq<char>) -> Seq<char> {
    if s.len() >= 2 && s[0] == '0' && s[1] == 'x' {
        s.subrange(2, s.len() as int)
    } else {
        s
    }
}

/// An address text: forty hexadecimal digits, after an optional `0x`.
pub open spec fn is_address_text(s: Seq<char>) -> bool {
    let d = address_digits(s);
    d.len() == 40 && forall|i: int| 0 <= i < 40 ==> (#[trigger] hex_val(d[i])) is Some
}

/// The byte that the digits at `2 * i` and `2 * i + 1` denote.
pub open spec fn address_byte(d: Seq<char>, i: int) -> u8 {
    (16 * hex_val(d[2 * i]).unwrap() + hex_val(d[2 * i + 1]).unwrap()) as u8
}

/// The lower-case hexadecimal digit for `d < 16`.
pub open spec fn hex_char(d: nat) -> char {
    if d < 10 {
        digit_char(d)
    } else if d == 10 {
        'a'
    } else if d == 11 {
        'b'
    } else if d == 12 {
        'c'
    } else if d == 13 {
        'd'
    } else if d == 14 {
        'e'
    } else {
        'f'
    }
}

/// Two lower-case hexadecimal digits for each byte, high nibble first.
pub open spec fn hex_digits(b: Seq<u8>) -> Seq<char> {
    Seq::new(
        2 * b.len(),
        |i: int|
            if i % 2 == 0 {
                hex_char(b[i / 2] as nat / 16)
            } else {
                hex_char(b[i / 2] as nat % 16)
            },
    )
}

fn hex_to_char(d: u8) -> (c: char)
    requires
        d < 16,
    ensures
        c == hex_char(d as nat),
{
    if d < 10 {
        digit_to_char(d as u64)
    } else if d == 10 {
        'a'
    } else if d == 11 {
        'b'
    } else if d == 12 {
        'c'
    } else if d == 13 {
        'd'
    } else if d == 14 {
        'e'
    } else {
        'f'
    }
}

/// A 20-byte account address.
#[derive(Clone, Debug)]
pub struct Address {
    bytes: Vec<u8>,
}

impl View for Address {
    type V = Seq<u8>;

    closed spec fn view(&self) -> Seq<u8> {
        self.bytes@
    }
}

fn hex_digit(c: char) -> (r: Option<u8>)
    ensures
        r is Some <==> hex_val(c) is Some,
        r matches Some(v) ==> v as nat == hex_val(c).unwrap(),
{
    if '0' <= c && c <= '9' {
        Some((c as u32 - '0' as u32) as u8)
    } else if 'a' <= c && c <= 'f' {
        Some((c as u32 - 'a' as u32 + 10) as u8)
    } else if 'A' <= c && c <= 'F' {
        Some((c as u32 - 'A' as u32 + 10) as u8)
    } else {
        None
    }
}

impl Address {
    pub closed spec fn wf(&self) -> bool {
        self.bytes@.len() == 20
    }

    /// The zero address.
    pub fn zero() -> (r: Address)
        ensures
            r.wf(),
            r@ == Seq::new(20, |i: int| 0u8),
    {
        let mut bytes: Vec<u8> = Vec::new();
        let mut i: usize = 0;
        while i < 20
            invariant
                i <= 20,
                bytes@ == Seq::new(i as nat, |k: int| 0u8),
            decreases 20 - i,
        {
            bytes.push(0);
            i = i + 1;
        }
        Address { bytes }
    }

    /// Builds an address from its 20 bytes.
    pub fn from_bytes(bytes: Vec<u8>) -> (r: Option<Address>)
        ensures
            r is Some <==> bytes@.len() == 20,
            r matches Some(a) ==> a.wf() && a@ == bytes@,
    {
        if bytes.len() == 20 {
            Some(Address { bytes })
        } else {
            None
        }
    }

    pub fn as_bytes(&self) -> (r: &Vec<u8>)
        ensures
            r@ == self@,
    {
        &self.bytes
    }

    /// Parses forty hexadecimal digits of either case, after an optional `0x`.
    pub fn parse(s: &str) -> (r: Option<Address>)
        ensures
            r is Some <==> is_address_text(s@),
            r matches Some(a) ==> a.wf() && a@ == Seq::new(
                20,
                |i: int| address_byte(address_digits(s@), i),
            ),
    {
        let n = s.unicode_len();
        let start: usize = if n >= 2 && s.get_char(0) == '0' && s.get_char(1) == 'x' {
            2
        } else {
            0
        };
        let ghost d = address_digits(s@);
        assert(d =~= s@.subrange(start as int, n as int));
        if n - start != 40 {
            return None;
        }
        let mut bytes: Vec<u8> = Vec::new();
        let mut i: usize = 0;
        while i < 20
            invariant
                n == s@.len(),
                start <= 2,
                n == start + 40,
                d == s@.subrange(start as int, n as int),
                d.len() == 40,
                i <= 20,
                forall|k: int| 0 <= k < 2 * i ==> (#[trigger] hex_val(d[k])) is Some,
                bytes@ == Seq::new(i as nat, |k: int| address_byte(d, k)),
            decreases 20 - i,
        {
            let hi = hex_digit(s.get_char(start + 2 * i));
            let lo = hex_digit(s.get_char(start + 2 * i + 1));
            assert(s@[start + 2 * i] == d[2 * i as int]);
            assert(s@[start + 2 * i + 1] == d[2 * i + 1]);
            match (hi, lo) {
                (Some(h), Some(l)) => {
                    bytes.push(16 * h + l);
                    proof {
                        assert forall|k: int| 0 <= k < 2 * (i + 1) implies (#[trigger] hex_val(
                            d[k],
                        )) is Some by {
                            if k == 2 * i || k == 2 * i + 1 {
                            }
                        }
                    }
                },
                _ => {
                    assert(hex_val(d[2 * i as int]) is None || hex_val(d[2 * i + 1]) is None);
                    return None;
                },
            }
            assert(bytes@ =~= Seq::new((i + 1) as nat, |k: int| address_byte(d, k)));
            i = i + 1;
        }
        Some(Address { bytes })
    }

    /// `0x` followed by two lower-case hexadecimal digits for each byte.
    pub fn to_hex_string(&self) -> (r: String)
        ensures
            r@ == seq!['0', 'x'] + hex_digits(self@),
    {
        let mut out = String::new();
        push_char(&mut out, '0');
        push_char(&mut out, 'x');
        let n = self.bytes.len();
        let mut i: usize = 0;
        while i < n
            invariant
                n == self@.len(),
                i <= n,
                out@ == seq!['0', 'x'] + hex_digits(self@).take(2 * i),
            decreases n - i,
        {
            let b = self.bytes[i];
            push_char(&mut out, hex_to_char(b / 16));
            push_char(&mut out, hex_to_char(b % 16));
            assert(hex_digits(self@).take(2 * (i + 1)) =~= hex_digits(self@).take(2 * i).push(
                hex_char(b as nat / 16),
            ).push(hex_char(b as nat % 16)));
            i = i + 1;
        }
        assert(hex_digits(self@).take(2 * n) =~= hex_digits(self@));
        out
    }

    /// A copy with the same bytes.
    pub fn duplicate(&self) -> (r: Address)
        ensures
            r@ == self@,
            r.wf() == self.wf(),
    {
        Address { bytes: self.bytes.clone() }
    }

    pub fn eq(&self, other: &Address) -> (r: bool)
        ensures
            r <==> self@ == other@,
    {
        let n = self.bytes.len();
        if n != other.bytes.len() {
            return false;
        }
        let mut i: usize = 0;
        while i < n
            invariant
                n == self@.len(),
                n == other@.len(),
                i <= n,
                forall|k: int| 0 <= k < i ==> self@[k] == other@[k],
            decreases n - i,
        {
            if self.bytes[i] != other.bytes[i] {
                return false;
            }
            i = i + 1;
        }
        assert(self@ =~= other@);
        true
    }
}

} // verus!
