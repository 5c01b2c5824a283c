//! Decimal text for key codes: parsing unsigned integers from control lines
//! and rendering codes for report lines.

use vstd::prelude::*;

verus! {

/// Whether `b` is an ASCII decimal digit.
pub open spec fn is_digit(b: u8) -> bool {
    48 <= b && b <= 57
}

/// Whether every byte of `s` is an ASCII decimal digit.
pub open spec fn is_digit_seq(s: Seq<u8>) -> bool {
    forall|i: int| 0 <= i < s.len() ==> is_digit(#[trigger] s[i])
}

/// The numeric value of a sequence of ASCII decimal digits, most significant
/// first. Meaningful only when `is_digit_seq(s)` holds.
pub open spec fn digits_value(s: Seq<u8>) -> nat
    decreases s.len(),
{
    if s.len() == 0 {
        0
    } else {
        (digits_value(s.drop_last()) * 10 + (s.last() - 48)) as nat
    }
}

/// The digit part of a decimal literal: everything after an optional
/// leading `+` sign.
pub open spec fn literal_digits(s: Seq<u8>) -> Seq<u8> {
    if s.len() > 0 && s[0] == 43 {
        s.drop_first()
    } else {
        s
    }
}

/// Whether `s` is a decimal literal an unsigned 16-bit parse accepts: an
/// optional `+` sign, then one or more digits, with a value at most 65535.
pub open spec fn is_u16_literal(s: Seq<u8>) -> bool {
    &&& literal_digits(s).len() > 0
    &&& is_digit_seq(literal_digits(s))
    &&& digits_value(literal_digits(s)) <= 65535
}

/// The value of a decimal literal. Meaningful only when `is_u16_literal(s)`.
pub open spec fn u16_literal_value(s: Seq<u8>) -> nat {
    digits_value(literal_digits(s))
}

/// Extending a digit sequence never decreases its value.
proof fn lemma_digits_value_monotone(s: Seq<u8>, k: int)
    requires
        0 <= k <= s.len(),
        is_digit_seq(s),
    ensures
        digits_value(s.take(k)) <= digits_value(s),
    decreases s.len() - k,
{
    if k == s.len() {
        assert(s.take(k) =~= s);
    } else {
        assert(s.take(k + 1).drop_last() =~= s.take(k));
        assert(s.take(k + 1).last() == s[k]);
        assert(digits_value(s.take(k + 1))
            == digits_value(s.take(k)) * 10 + (s[k] - 48));
        lemma_digits_value_monotone(s, k + 1);
    }
}

/// Parse `s` as an unsigned 16-bit decimal integer: an optional leading `+`
/// sign, then one or more digits. Fails on an empty digit part, a non-digit
/// byte, or a value above 65535.
pub fn parse_u16(s: &[u8]) -> (r: Option<u16>)
    ensures
        r is Some <==> is_u16_literal(s@),
        r matches Some(v) ==> v == u16_literal_value(s@),
{
    let start: usize = if s.len() > 0 && s[0] == 43 {
        1
    } else {
        0
    };
    let ghost digits = literal_digits(s@);
    proof {
        assert(digits =~= s@.subrange(start as int, s@.len() as int));
    }
    if s.len() == start {
        return None;
    }
    let mut acc: u32 = 0;
    let mut i: usize = start;
    while i < s.len()
        invariant
            start <= i <= s@.len(),
            digits == s@.subrange(start as int, s@.len() as int),
            digits == literal_digits(s@),
            digits.len() == s@.len() - start,
            forall|j: int| 0 <= j < i - start ==> is_digit(#[trigger] digits[j]),
            acc == digits_value(digits.take(i - start)),
            acc <= 65535,
        decreases s@.len() - i,
    {
        let b = s[i];
        assert(b == digits[i - start]);
        if b < 48 || b > 57 {
            assert(!is_digit(digits[i - start]));
            return None;
        }
        proof {
            assert(digits.take(i - start + 1).drop_last() =~= digits.take(i - start));
            assert(digits.take(i - start + 1).last() == digits[i - start]);
        }
        acc = acc * 10 + (b - 48) as u32;
        if acc > 65535 {
            proof {
                if is_digit_seq(digits) {
                    lemma_digits_value_monotone(digits, i - start + 1);
                }
            }
            return None;
        }
        i = i + 1;
    }
    proof {
        assert(digits.take(i - start) =~= digits);
    }
    Some(acc as u16)
}

/// The decimal representation of `n`, most significant digit first, with no
/// sign and no leading zeros (`0` itself is the single digit `0`).
pub open spec fn dec_repr(n: nat) -> Seq<u8>
    decreases n,
{
    if n < 10 {
        seq![(48 + n) as u8]
    } else {
        dec_repr(n / 10).push((48 + n % 10) as u8)
    }
}

/// The decimal representation of `n` is nonempty, consists of digits only,
/// and parses back to `n`.
pub proof fn lemma_dec_repr_value(n: nat)
    ensures
        dec_repr(n).len() > 0,
        is_digit_seq(dec_repr(n)),
        digits_value(dec_repr(n)) == n,
        is_digit(dec_repr(n)[0]),
    decreases n,
{
    if n < 10 {
        let s = dec_repr(n);
        assert(s == seq![(48 + n) as u8]);
        assert(s.drop_last() =~= Seq::<u8>::empty());
        assert(digits_value(Seq::<u8>::empty()) == 0);
        assert(digits_value(s) == n);
    } else {
        lemma_dec_repr_value(n / 10);
        let s = dec_repr(n / 10);
        let d = (48 + n % 10) as u8;
        assert(dec_repr(n) == s.push(d));
        assert(s.push(d).drop_last() =~= s);
        assert(s.push(d).last() == d);
        assert(digits_value(s.push(d)) == digits_value(s) * 10 + (n % 10));
        assert((n / 10) * 10 + n % 10 == n) by (nonlinear_arith);
        assert forall|i: int| 0 <= i < s.push(d).len() implies is_digit(
            #[trigger] s.push(d)[i],
        ) by {
            if i < s.len() {
                assert(s.push(d)[i] == s[i]);
            } else {
                assert(s.push(d)[i] == d);
            }
        }
        assert(dec_repr(n)[0] == s[0]);
    }
}

/// Render `n` in decimal.
pub fn render_u16(n: u16) -> (v: Vec<u8>)
    ensures
        v@ == dec_repr(n as nat),
    decreases n,
{
    if n < 10 {
        let mut v: Vec<u8> = Vec::new();
        v.push(48 + n as u8);
        proof {
            assert(v@ =~= dec_repr(n as nat));
        }
        v
    } else {
        let mut v = render_u16(n / 10);
        v.push(48 + (n % 10) as u8);
        v
    }
}

} // verus!
