//! Verified parsing of the little textual shapes the server reads:
//! decimal ids, hexadecimal colours, and the character tests they need.

use vstd::prelude::*;

verus! {

/// A decimal digit.
pub open spec fn is_dec_digit(c: char) -> bool {
    '0' <= c && c <= '9'
}

/// A hexadecimal digit, either case.
pub open spec fn is_hex_digit(c: char) -> bool {
    is_dec_digit(c) || ('a' <= c && c <= 'f') || ('A' <= c && c <= 'F')
}

/// The value of one hexadecimal digit.
pub open spec fn hex_digit_val(c: char) -> int {
    if is_dec_digit(c) {
        c as int - '0' as int
    } else if 'a' <= c && c <= 'f' {
        c as int - 'a' as int + 10
    } else {
        c as int - 'A' as int + 10
    }
}

/// The number a digit string denotes in the given base.
pub open spec fn radix_value(s: Seq<char>, base: int) -> int
    decreases s.len(),
{
    if s.len() == 0 {
        0
    } else {
        radix_value(s.drop_last(), base) * base + hex_digit_val(s.last())
    }
}

/// The digits of a number literal: everything after one optional
/// leading plus sign.
pub open spec fn stripped_digits(s: Seq<char>) -> Seq<char> {
    if s.len() > 0 && s[0] == '+' {
        s.drop_first()
    } else {
        s
    }
}

/// Every character satisfies the digit test for the base.
pub open spec fn all_digits(s: Seq<char>, base: int) -> bool {
    forall|i: int| 0 <= i < s.len() ==> is_base_digit(#[trigger] s[i], base)
}

/// The digit test of a base: decimal digits, or any hexadecimal digit.
pub open spec fn is_base_digit(c: char, base: int) -> bool {
    if base == 10 {
        is_dec_digit(c)
    } else {
        is_hex_digit(c)
    }
}

/// A number literal is valid for the base and the bound when, after the
/// optional sign, at least one digit follows, all characters are digits,
/// and the denoted value fits.
pub open spec fn valid_number(s: Seq<char>, base: int, bound: int) -> bool {
    &&& stripped_digits(s).len() > 0
    &&& all_digits(stripped_digits(s), base)
    &&& radix_value(stripped_digits(s), base) <= bound
}

/// The denoted value never shrinks as digits are appended.
proof fn lemma_radix_value_grows(s: Seq<char>, n: int, base: int)
    requires
        0 <= n <= s.len(),
        base >= 2,
        all_digits(s, base),
        forall|i: int| 0 <= i < s.len() ==> hex_digit_val(#[trigger] s[i]) >= 0,
    ensures
        radix_value(s.subrange(0, n), base) <= radix_value(s, base),
        radix_value(s, base) >= 0,
    decreases s.len() - n,
{
    lemma_radix_value_nonneg(s, base);
    if n == s.len() {
        assert(s.subrange(0, n) =~= s);
    } else {
        let t = s.subrange(0, n + 1);
        lemma_radix_value_nonneg(t, base);
        assert(t.drop_last() =~= s.subrange(0, n));
        assert(radix_value(s.subrange(0, n), base) * base + hex_digit_val(s[n])
            >= radix_value(s.subrange(0, n), base)) by {
            lemma_radix_value_nonneg(s.subrange(0, n), base);
            assert(radix_value(s.subrange(0, n), base) * base
                >= radix_value(s.subrange(0, n), base) * 1) by (nonlinear_arith)
                requires
                    base >= 1,
                    radix_value(s.subrange(0, n), base) >= 0,
            ;
        }
        lemma_radix_value_grows(s, n + 1, base);
    }
}

/// A digit string denotes a number, never something negative.
proof fn lemma_radix_value_nonneg(s: Seq<char>, base: int)
    requires
        base >= 2,
        forall|i: int| 0 <= i < s.len() ==> hex_digit_val(#[trigger] s[i]) >= 0,
    ensures
        radix_value(s, base) >= 0,
    decreases s.len(),
{
    if s.len() > 0 {
        lemma_radix_value_nonneg(s.drop_last(), base);
        assert(radix_value(s.drop_last(), base) * base >= 0) by (nonlinear_arith)
            requires
                base >= 2,
                radix_value(s.drop_last(), base) >= 0,
        ;
    }
}

/// The numeric value of a character known to be a digit of the base.
fn digit_value(c: char, base: u64) -> (v: u64)
    requires
        base == 10 || base == 16,
        is_base_digit(c, base as int),
    ensures
        v == hex_digit_val(c),
        v < base,
{
    if '0' <= c && c <= '9' {
        (c as u32 - '0' as u32) as u64
    } else if 'a' <= c && c <= 'f' {
        (c as u32 - 'a' as u32) as u64 + 10
    } else {
        (c as u32 - 'A' as u32) as u64 + 10
    }
}

/// Parses an unsigned number with the semantics of the standard
/// library's string-to-integer conversion at the given base: an
/// optional leading plus sign, then one or more digits, no other
/// characters, the value at most `bound`.
fn parse_unsigned(s: &str, base: u64, bound: u64) -> (r: Option<u64>)
    requires
        base == 10 || base == 16,
    ensures
        r is Some <==> valid_number(s@, base as int, bound as int),
        r matches Some(v) ==> v == radix_value(stripped_digits(s@), base as int)
            && v <= bound,
{
    let len = s.unicode_len();
    let mut i: usize = 0;
    if len > 0 && s.get_char(0) == '+' {
        i = 1;
    }
    let ghost d = stripped_digits(s@);
    assert(d =~= s@.subrange(i as int, len as int));
    if i == len {
        return None;
    }
    let start = i;
    let mut acc: u64 = 0;
    while i < len
        invariant
            start <= i <= len,
            len == s@.len(),
            base == 10 || base == 16,
            start == if s@.len() > 0 && s@[0] == '+' { 1int } else { 0int },
            d == stripped_digits(s@),
            d =~= s@.subrange(start as int, len as int),
            all_digits(d.subrange(0, i - start), base as int),
            acc == radix_value(d.subrange(0, i - start), base as int),
            acc <= bound,
        decreases len - i,
    {
        let c = s.get_char(i);
        proof {
            assert(d[i - start] == s@[i as int]);
        }
        if !(('0' <= c && c <= '9') || (base == 16
            && (('a' <= c && c <= 'f') || ('A' <= c && c <= 'F')))) {
            proof {
                assert(!is_base_digit(d[i - start], base as int));
            }
            return None;
        }
        let dv = digit_value(c, base);
        let ghost prefix = d.subrange(0, i - start);
        let ghost prefix1 = d.subrange(0, i - start + 1);
        proof {
            assert(prefix1.drop_last() =~= prefix);
            assert(prefix1.last() == d[i - start]);
        }
        let next = match acc.checked_mul(base) {
            Some(x) => x.checked_add(dv),
            None => None,
        };
        let acc2 = match next {
            Some(x) => {
                if x > bound {
                    None
                } else {
                    Some(x)
                }
            },
            None => None,
        };
        match acc2 {
            Some(x) => {
                acc = x;
            },
            None => {
                // The value already exceeds the bound; appending further
                // digits can only keep it there.
                proof {
                    assert(radix_value(prefix1, base as int) > bound);
                    if valid_number(s@, base as int, bound as int) {
                        assert forall|k: int| 0 <= k < d.len()
                            implies hex_digit_val(#[trigger] d[k]) >= 0 by {
                            assert(is_base_digit(d[k], base as int));
                        }
                        lemma_radix_value_grows(d, i - start + 1, base as int);
                        assert(d.subrange(0, i - start + 1) =~= prefix1);
                        assert(radix_value(d, base as int) > bound);
                    }
                }
                return None;
            },
        }
        i += 1;
        proof {
            assert(d.subrange(0, i - start) =~= prefix1);
        }
    }
    proof {
        assert(d.subrange(0, i - start) =~= d);
    }
    Some(acc)
}

/// Parses a decimal `u64`, as the standard library would: an optional
/// leading plus sign, then one or more decimal digits, nothing else,
/// and no overflow.
pub fn parse_u64_dec(s: &str) -> (r: Option<u64>)
    ensures
        r is Some <==> valid_number(s@, 10, u64::MAX as int),
        r matches Some(v) ==> v == radix_value(stripped_digits(s@), 10),
{
    parse_unsigned(s, 10, u64::MAX)
}

/// Parses a decimal `u32`, as the standard library would.
pub fn parse_u32_dec(s: &str) -> (r: Option<u32>)
    ensures
        r is Some <==> valid_number(s@, 10, u32::MAX as int),
        r matches Some(v) ==> v == radix_value(stripped_digits(s@), 10),
{
    match parse_unsigned(s, 10, u32::MAX as u64) {
        Some(v) => Some(v as u32),
        None => None,
    }
}

/// Parses a hexadecimal `u32`, as the standard library's radix-16
/// conversion would.
pub fn parse_u32_hex(s: &str) -> (r: Option<u32>)
    ensures
        r is Some <==> valid_number(s@, 16, u32::MAX as int),
        r matches Some(v) ==> v == radix_value(stripped_digits(s@), 16),
{
    match parse_unsigned(s, 16, u32::MAX as u64) {
        Some(v) => Some(v as u32),
        None => None,
    }
}

} // verus!
