//! Parsing the difficulty mask from its hexadecimal string form.
//!
//! The accepted form is an optional leading `+` followed by at least one hex
//! digit (either case), whose value fits in 32 bits. Anything else is
//! rejected explicitly, never defaulted.

use vstd::prelude::*;

verus! {

/// ASCII hex digit: 0-9, a-f or A-F.
pub open spec fn is_hex_digit(b: u8) -> bool {
    (0x30 <= b <= 0x39) || (0x61 <= b <= 0x66) || (0x41 <= b <= 0x46)
}

/// The numeric value of one ASCII hex digit.
pub open spec fn hex_val(b: u8) -> nat
    recommends
        is_hex_digit(b),
{
    if 0x30 <= b <= 0x39 {
        (b - 0x30) as nat
    } else if 0x61 <= b <= 0x66 {
        (b - 0x57) as nat
    } else {
        (b - 0x37) as nat
    }
}

pub open spec fn all_hex(s: Seq<u8>) -> bool {
    forall|i: int| 0 <= i < s.len() ==> is_hex_digit(s[i])
}

/// The value of a big-endian hex digit string.
pub open spec fn hex_str_val(s: Seq<u8>) -> nat
    decreases s.len(),
{
    if s.len() == 0 {
        0
    } else {
        hex_str_val(s.drop_last()) * 16 + hex_val(s.last())
    }
}

/// The digit part of a mask string: everything after an optional leading `+`.
pub open spec fn mask_digits(s: Seq<u8>) -> Seq<u8> {
    if s.len() >= 1 && s[0] == 0x2b {
        s.subrange(1, s.len() as int)
    } else {
        s
    }
}

/// A well-formed mask string: at least one digit, all digits hex, and a value
/// that fits in 32 bits.
pub open spec fn valid_mask_str(s: Seq<u8>) -> bool {
    &&& mask_digits(s).len() >= 1
    &&& all_hex(mask_digits(s))
    &&& hex_str_val(mask_digits(s)) <= u32::MAX
}

/// A longer digit string is worth at least as much as any of its prefixes.
proof fn lemma_hex_prefix_le(s: Seq<u8>, i: int)
    requires
        0 <= i <= s.len(),
    ensures
        hex_str_val(s.subrange(0, i)) <= hex_str_val(s),
    decreases s.len() - i,
{
    if i < s.len() {
        lemma_hex_prefix_le(s, i + 1);
        let p = s.subrange(0, i + 1);
        assert(p.drop_last() =~= s.subrange(0, i));
        assert(hex_str_val(s.subrange(0, i + 1)) == hex_str_val(s.subrange(0, i)) * 16 + hex_val(
            s[i],
        ));
        assert(hex_str_val(s.subrange(0, i)) * 16 >= hex_str_val(s.subrange(0, i)))
            by (nonlinear_arith);
    } else {
        assert(s.subrange(0, i) =~= s);
    }
}

/// Parses a difficulty mask from its hexadecimal byte string. Returns the
/// mask exactly when the string is an optional `+` followed by one or more
/// hex digits whose value fits in 32 bits; returns `None` on every other
/// input.
pub fn parse_mask_hex(s: &[u8]) -> (mask: Option<u32>)
    ensures
        match mask {
            Some(v) => valid_mask_str(s@) && v == hex_str_val(mask_digits(s@)),
            None => !valid_mask_str(s@),
        },
{
    let ghost digits = mask_digits(s@);
    let start: usize = if s.len() >= 1 && s[0] == 0x2b {
        1
    } else {
        0
    };
    assert(digits =~= s@.subrange(start as int, s@.len() as int));
    if s.len() == start {
        assert(digits.len() == 0);
        return None;
    }
    let mut acc: u64 = 0;
    let mut i: usize = start;
    while i < s.len()
        invariant
            start <= i <= s@.len(),
            digits == mask_digits(s@),
            digits == s@.subrange(start as int, s@.len() as int),
            acc == hex_str_val(digits.subrange(0, i - start)),
            acc <= u32::MAX,
            all_hex(digits.subrange(0, i - start)),
        decreases s@.len() - i,
    {
        let b: u8 = s[i];
        let d: u64 = if 0x30 <= b && b <= 0x39 {
            (b - 0x30) as u64
        } else if 0x61 <= b && b <= 0x66 {
            (b - 0x57) as u64
        } else if 0x41 <= b && b <= 0x46 {
            (b - 0x37) as u64
        } else {
            assert(digits[i - start] == b);
            assert(!is_hex_digit(b));
            return None;
        };
        assert(d == hex_val(b));
        let next: u64 = acc * 16 + d;
        proof {
            let p = digits.subrange(0, i + 1 - start);
            assert(p.drop_last() =~= digits.subrange(0, i - start));
            assert(p.last() == digits[i - start]);
            assert(digits[i - start] == b);
        }
        assert(next == hex_str_val(digits.subrange(0, i + 1 - start)));
        if next > 0xffff_ffff {
            proof {
                lemma_hex_prefix_le(digits, i + 1 - start);
            }
            return None;
        }
        acc = next;
        i += 1;
    }
    assert(digits.subrange(0, i - start) =~= digits);
    Some(acc as u32)
}

} // verus!
