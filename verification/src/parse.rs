//! Numeric parsing for operator input: hexadecimal breakpoint addresses
//! (with an optional `0x`/`0X` prefix) and decimal source-line numbers.

use vstd::prelude::*;

verus! {

/// The numeric value of `c` as a digit in base `radix`, or `None` when `c`
/// is not a digit of that base. Letter digits may be upper or lower case.
pub open spec fn spec_digit_value(c: char, radix: u32) -> Option<u64> {
    let u = c as u32;
    if 48 <= u && u <= 57 && u - 48 < radix {
        Some((u - 48) as u64)
    } else if radix > 10 && 97 <= u && u - 97 < radix - 10 {
        Some((u - 97 + 10) as u64)
    } else if radix > 10 && 65 <= u && u - 65 < radix - 10 {
        Some((u - 65 + 10) as u64)
    } else {
        None
    }
}

/// Every character of `s` is a digit of base `radix`.
pub open spec fn all_digits(s: Seq<char>, radix: u32) -> bool {
    forall|i: int| 0 <= i < s.len() ==> spec_digit_value(s[i], radix) is Some
}

/// The numeric value of the digit string `s` in base `radix`
/// (non-digit characters count as zero).
pub open spec fn spec_digits_value(s: Seq<char>, radix: u32) -> int
    decreases s.len(),
{
    if s.len() == 0 {
        0
    } else {
        spec_digits_value(s.drop_last(), radix) * radix + (match spec_digit_value(
            s.last(),
            radix,
        ) {
            Some(d) => d as int,
            None => 0,
        })
    }
}

/// What parsing `s` as an unsigned base-`radix` number yields: its value,
/// if `s` is non-empty, made of digits only, and the value fits in 64 bits.
pub open spec fn spec_parse_radix(s: Seq<char>, radix: u32) -> Option<u64> {
    if s.len() > 0 && all_digits(s, radix) && spec_digits_value(s, radix) <= u64::MAX {
        Some(spec_digits_value(s, radix) as u64)
    } else {
        None
    }
}

proof fn lemma_digits_value_nonneg(s: Seq<char>, radix: u32)
    ensures
        spec_digits_value(s, radix) >= 0,
    decreases s.len(),
{
    if s.len() > 0 {
        lemma_digits_value_nonneg(s.drop_last(), radix);
        let a = spec_digits_value(s.drop_last(), radix);
        assert(a * radix >= 0) by (nonlinear_arith)
            requires
                a >= 0,
                radix >= 0,
        ;
    }
}

/// The value of a digit string never shrinks as digits are appended.
proof fn lemma_digits_prefix_le(s: Seq<char>, i: int, radix: u32)
    requires
        0 <= i <= s.len(),
        radix >= 1,
    ensures
        spec_digits_value(s.take(i), radix) <= spec_digits_value(s, radix),
    decreases s.len() - i,
{
    if i == s.len() {
        assert(s.take(i) =~= s);
    } else {
        assert(s.take(i + 1).drop_last() =~= s.take(i));
        let a = spec_digits_value(s.take(i), radix);
        lemma_digits_value_nonneg(s.take(i), radix);
        assert(a * radix >= a) by (nonlinear_arith)
            requires
                a >= 0,
                radix >= 1,
        ;
        lemma_digits_prefix_le(s, i + 1, radix);
    }
}

/// The value of `c` as a digit in base `radix`, or `None`.
pub fn digit_value(c: char, radix: u32) -> (r: Option<u64>)
    requires
        2 <= radix <= 16,
    ensures
        r == spec_digit_value(c, radix),
        r matches Some(d) ==> d < radix,
{
    let u = c as u32;
    if 48 <= u && u <= 57 && u - 48 < radix {
        Some((u - 48) as u64)
    } else if radix > 10 && 97 <= u && u - 97 < radix - 10 {
        Some((u - 97 + 10) as u64)
    } else if radix > 10 && 65 <= u && u - 65 < radix - 10 {
        Some((u - 65 + 10) as u64)
    } else {
        None
    }
}

/// Parses `s` as an unsigned base-`radix` number. Yields `None` when `s` is
/// empty, holds a non-digit, or names a value above `u64::MAX`.
pub fn parse_u64_radix(s: &str, radix: u32) -> (r: Option<u64>)
    requires
        2 <= radix <= 16,
    ensures
        r == spec_parse_radix(s@, radix),
{
    let n = s.unicode_len();
    if n == 0 {
        return None;
    }
    let mut val: u64 = 0;
    let mut i: usize = 0;
    while i < n
        invariant
            0 <= i <= n,
            n == s@.len(),
            2 <= radix <= 16,
            all_digits(s@.take(i as int), radix),
            val == spec_digits_value(s@.take(i as int), radix),
        decreases n - i,
    {
        let c = s.get_char(i);
        proof {
            assert(s@.take(i + 1).drop_last() =~= s@.take(i as int));
            assert(s@.take(i + 1).last() == s@[i as int]);
        }
        match digit_value(c, radix) {
            None => {
                proof {
                    assert(spec_digit_value(s@[i as int], radix) is None);
                    assert(!all_digits(s@, radix));
                }
                return None;
            },
            Some(d) => {
                let rad = radix as u64;
                let scaled = match val.checked_mul(rad) {
                    Some(x) => x.checked_add(d),
                    None => {
                        proof {
                            assert((val as int) * (rad as int) + d > u64::MAX) by (nonlinear_arith)
                                requires
                                    (val as int) * (rad as int) > u64::MAX,
                                    d >= 0,
                            ;
                        }
                        None
                    },
                };
                match scaled {
                    Some(next) => {
                        val = next;
                    },
                    None => {
                        proof {
                            assert(spec_digits_value(s@.take(i + 1), radix) > u64::MAX);
                            lemma_digits_prefix_le(s@, i + 1, radix);
                        }
                        return None;
                    },
                }
            },
        }
        i += 1;
    }
    proof {
        assert(s@.take(n as int) =~= s@);
    }
    Some(val)
}

/// Strips one leading `0x` or `0X`, if present.
pub open spec fn spec_strip_hex_prefix(s: Seq<char>) -> Seq<char> {
    if s.len() >= 2 && s[0] == '0' && (s[1] == 'x' || s[1] == 'X') {
        s.skip(2)
    } else {
        s
    }
}

/// What parsing `s` as a breakpoint address yields: the value of its
/// hexadecimal digits, after an optional `0x`/`0X` prefix.
pub open spec fn spec_parse_address(s: Seq<char>) -> Option<u64> {
    spec_parse_radix(spec_strip_hex_prefix(s), 16)
}

/// Parses a hexadecimal address such as `0x40105f` or `40105F`.
pub fn parse_address(s: &str) -> (r: Option<u64>)
    ensures
        r == spec_parse_address(s@),
{
    let n = s.unicode_len();
    if n >= 2 && s.get_char(0) == '0' {
        let c1 = s.get_char(1);
        if c1 == 'x' || c1 == 'X' {
            let rest = s.substring_char(2, n);
            proof {
                assert(rest@ =~= spec_strip_hex_prefix(s@));
            }
            return parse_u64_radix(rest, 16);
        }
    }
    parse_u64_radix(s, 16)
}

/// Parses a decimal source-line number.
pub fn parse_line_number(s: &str) -> (r: Option<u64>)
    ensures
        r == spec_parse_radix(s@, 10),
{
    parse_u64_radix(s, 10)
}

} // verus!
