use vstd::prelude::*;
use vstd::string::{StrSliceExecFns, StringExecFns};
use crate::errors::DecimalNumberParsingError;

verus! {

/// The decimal digit characters of a number, most significant first.
pub open spec fn spec_decimal_digits(x: u128) -> Seq<char>
    decreases x,
{
    if x < 10 {
        seq![((x + 48) as u8) as char]
    } else {
        spec_decimal_digits(x / 10).push((((x % 10) + 48) as u8) as char)
    }
}

/// Prints a number the way amounts travel in contract calls: plain decimal
/// digits, no sign, no separators.
pub fn u128_to_decimal_string(x: u128) -> (r: String)
    ensures
        r@ == spec_decimal_digits(x),
{
    let mut digits_rev: Vec<u8> = Vec::new();
    let mut rest: u128 = x;
    loop
        invariant_except_break
            spec_decimal_digits(x) == spec_decimal_digits(rest) + digits_rev@.map_values(
                |b: u8| b as char,
            ).reverse(),
            forall|i: int| 0 <= i < digits_rev@.len() ==> 48 <= #[trigger] digits_rev@[i] < 58,
        ensures
            spec_decimal_digits(x) == digits_rev@.map_values(|b: u8| b as char).reverse(),
            forall|i: int| 0 <= i < digits_rev@.len() ==> 48 <= #[trigger] digits_rev@[i] < 58,
        decreases rest,
    {
        let d: u8 = (rest % 10) as u8 + 48;
        let next = rest / 10;
        let ghost prev_digits = digits_rev@;
        digits_rev.push(d);
        proof {
            assert(digits_rev@.map_values(|b: u8| b as char).reverse() =~= seq![d as char]
                + prev_digits.map_values(|b: u8| b as char).reverse());
            if rest >= 10 {
                assert(spec_decimal_digits(rest) == spec_decimal_digits(rest / 10).push(
                    (((rest % 10) + 48) as u8) as char,
                ));
                assert(spec_decimal_digits(rest) + prev_digits.map_values(
                    |b: u8| b as char,
                ).reverse() =~= spec_decimal_digits(rest / 10) + (seq![d as char]
                    + prev_digits.map_values(|b: u8| b as char).reverse()));
            } else {
                assert(spec_decimal_digits(rest) =~= seq![d as char]);
                assert(spec_decimal_digits(rest) + prev_digits.map_values(
                    |b: u8| b as char,
                ).reverse() =~= seq![d as char] + prev_digits.map_values(
                    |b: u8| b as char,
                ).reverse());
            }
        }
        if next == 0 {
            proof {
                assert(rest < 10);
                assert(spec_decimal_digits(x) =~= digits_rev@.map_values(
                    |b: u8| b as char,
                ).reverse());
            }
            break;
        }
        rest = next;
    }
    let n = digits_rev.len();
    let mut ordered: Vec<u8> = Vec::new();
    let mut i: usize = n;
    while i > 0
        invariant
            i <= n,
            n == digits_rev@.len(),
            ordered@.len() == n - i,
            forall|k: int| 0 <= k < ordered@.len() ==> #[trigger] ordered@[k] == digits_rev@[
                n - 1 - k],
            forall|k: int| 0 <= k < digits_rev@.len() ==> 48 <= #[trigger] digits_rev@[k] < 58,
        decreases i,
    {
        i -= 1;
        ordered.push(digits_rev[i]);
    }
    proof {
        assert forall|k: int| 0 <= k < ordered@.len() implies #[trigger] ordered@[k] < 128 by {
        }
    }
    let s = crate::encoding::string_from_ascii_bytes(ordered);
    proof {
        let target = digits_rev@.map_values(|b: u8| b as char).reverse();
        assert forall|k: int| 0 <= k < s@.len() implies s@[k] == target[k] by {
            assert(s@[k] == (digits_rev@[n - 1 - k]) as char);
            assert(target[k] == digits_rev@.map_values(|b: u8| b as char)[n - 1 - k]);
        }
        assert(s@ =~= target);
    }
    s
}

/// What a digit string denotes, where every character is a digit; the
/// value is capped at the 128-bit maximum by the parser's own failure.
pub open spec fn spec_parse_decimal(s: Seq<char>) -> Option<u128>
    decreases s.len(),
{
    if s.len() == 0 {
        None
    } else {
        let c = s[s.len() - 1];
        if !('0' <= c <= '9') {
            None
        } else if s.len() == 1 {
            Some((c as u128 - 48) as u128)
        } else {
            match spec_parse_decimal(s.drop_last()) {
                Option::None => None,
                Option::Some(high) => {
                    if high > (u128::MAX - (c as u128 - 48)) / 10 {
                        None
                    } else {
                        Some((high * 10 + (c as u128 - 48)) as u128)
                    }
                },
            }
        }
    }
}

/// Reads a plain decimal digit string; fails on anything else and on
/// values that overflow 128 bits.
pub fn parse_u128_decimal(s: &str) -> (r: Option<u128>)
    ensures
        r == spec_parse_decimal(s@),
{
    let n = s.unicode_len();
    if n == 0 {
        return None;
    }
    let mut acc: u128 = 0;
    let mut i: usize = 0;
    while i < n
        invariant
            0 < n == s@.len(),
            i <= n,
            i > 0 ==> spec_parse_decimal(s@.subrange(0, i as int)) == Some(acc),
            i == 0 ==> acc == 0,
        decreases n - i,
    {
        let c = s.get_char(i);
        let code: u32 = c as u32;
        if code < 48 || code > 57 {
            proof {
                lemma_parse_digit_prefix_fails(s@, i as int);
            }
            return None;
        }
        let d: u128 = (code - 48) as u128;
        if i > 0 && acc > (u128::MAX - d) / 10 {
            proof {
                lemma_parse_digit_prefix_overflow(s@, i as int, acc);
            }
            return None;
        }
        let ghost prev = acc;
        acc = if i == 0 {
            d
        } else {
            acc * 10 + d
        };
        proof {
            assert(s@.subrange(0, i + 1 as int).drop_last() =~= s@.subrange(0, i as int));
            assert(s@.subrange(0, i + 1 as int)[i as int] == s@[i as int]);
        }
        i += 1;
    }
    proof {
        assert(s@.subrange(0, n as int) =~= s@);
    }
    Some(acc)
}

/// A non-digit anywhere makes the whole string unreadable.
proof fn lemma_parse_digit_prefix_fails(s: Seq<char>, i: int)
    requires
        0 <= i < s.len(),
        !('0' <= s[i] <= '9'),
    ensures
        spec_parse_decimal(s.subrange(0, s.len() as int)) is None,
        spec_parse_decimal(s) is None,
    decreases s.len(),
{
    assert(s.subrange(0, s.len() as int) =~= s);
    if i == s.len() - 1 {
    } else {
        lemma_parse_digit_prefix_fails(s.drop_last(), i);
    }
}

/// Once a prefix overflows, every longer prefix fails too.
proof fn lemma_parse_digit_prefix_overflow(s: Seq<char>, i: int, acc: u128)
    requires
        0 < i < s.len(),
        spec_parse_decimal(s.subrange(0, i)) == Some(acc),
        '0' <= s[i] <= '9',
        acc > (u128::MAX - (s[i] as u128 - 48)) / 10,
    ensures
        spec_parse_decimal(s) is None,
    decreases s.len() - i,
{
    if i == s.len() - 1 {
        assert(s.subrange(0, i) =~= s.drop_last());
    } else {
        assert(spec_parse_decimal(s.subrange(0, i + 1)) is None) by {
            assert(s.subrange(0, i + 1).drop_last() =~= s.subrange(0, i));
            assert(s.subrange(0, i + 1)[i] == s[i]);
        }
        lemma_parse_overflow_propagates(s, i + 1);
    }
}

/// A failing prefix makes every longer prefix fail.
proof fn lemma_parse_overflow_propagates(s: Seq<char>, j: int)
    requires
        0 < j <= s.len(),
        spec_parse_decimal(s.subrange(0, j)) is None,
    ensures
        spec_parse_decimal(s) is None,
    decreases s.len() - j,
{
    if j == s.len() {
        assert(s.subrange(0, j) =~= s);
    } else {
        assert(spec_parse_decimal(s.subrange(0, j + 1)) is None) by {
            assert(s.subrange(0, j + 1).drop_last() =~= s.subrange(0, j));
        }
        lemma_parse_overflow_propagates(s, j + 1);
    }
}


// ---------------------------------------------------------------------------
// Human-entered decimal amounts, e.g. "1.5" of a token with 24 decimals.
// ---------------------------------------------------------------------------

pub open spec fn spec_pow10(n: nat) -> int
    decreases n,
{
    if n == 0 {
        1
    } else {
        10 * spec_pow10((n - 1) as nat)
    }
}

proof fn lemma_pow10_positive(n: nat)
    ensures
        spec_pow10(n) >= 1,
    decreases n,
{
    if n > 0 {
        lemma_pow10_positive((n - 1) as nat);
    }
}

proof fn lemma_pow10_increases(a: nat, b: nat)
    requires
        a <= b,
    ensures
        spec_pow10(a) <= spec_pow10(b),
    decreases b,
{
    if a < b {
        lemma_pow10_increases(a, (b - 1) as nat);
        lemma_pow10_positive((b - 1) as nat);
    }
}

/// Scales by a power of ten, refusing 128-bit overflow.
fn scale_by_pow10(w: u128, k: u8) -> (r: Option<u128>)
    ensures
        w * spec_pow10(k as nat) <= u128::MAX ==> r == Some((w * spec_pow10(k as nat)) as u128),
        w * spec_pow10(k as nat) > u128::MAX ==> r is None,
{
    let mut acc: u128 = w;
    let mut i: u8 = 0;
    proof {
        assert(w * spec_pow10(0) == w) by (nonlinear_arith)
            requires
                spec_pow10(0) == 1,
        ;
    }
    while i < k
        invariant
            i <= k,
            acc == w * spec_pow10(i as nat),
        decreases k - i,
    {
        if acc > u128::MAX / 10 {
            proof {
                assert(acc * 10 > u128::MAX);
                lemma_pow10_increases((i + 1) as nat, k as nat);
                assert(spec_pow10((i + 1) as nat) == 10 * spec_pow10(i as nat));
                assert(w * spec_pow10((i + 1) as nat) == acc * 10) by (nonlinear_arith)
                    requires
                        acc == w * spec_pow10(i as nat),
                        spec_pow10((i + 1) as nat) == 10 * spec_pow10(i as nat),
                ;
                assert(w * spec_pow10(k as nat) >= w * spec_pow10((i + 1) as nat)) by (
                nonlinear_arith)
                    requires
                        spec_pow10((i + 1) as nat) <= spec_pow10(k as nat),
                        w >= 0,
                ;
            }
            return None;
        }
        proof {
            assert(spec_pow10((i + 1) as nat) == 10 * spec_pow10(i as nat));
            assert(w * spec_pow10((i + 1) as nat) == (w * spec_pow10(i as nat)) * 10) by (
            nonlinear_arith)
                requires
                    spec_pow10((i + 1) as nat) == 10 * spec_pow10(i as nat),
            ;
        }
        acc = acc * 10;
        i += 1;
    }
    Some(acc)
}

/// The dot position never leaves the string.
proof fn lemma_dot_index_bounds(s: Seq<char>, i: int)
    requires
        0 <= i <= s.len(),
    ensures
        i <= spec_dot_index(s, i) <= s.len(),
    decreases s.len() - i,
{
    if i < s.len() && s[i] != '.' {
        lemma_dot_index_bounds(s, i + 1);
    }
}

/// The position of the first decimal point at or after `i`, or the length.
pub open spec fn spec_dot_index(s: Seq<char>, i: int) -> int
    decreases s.len() - i,
{
    if i < 0 || i >= s.len() {
        s.len() as int
    } else if s[i] == '.' {
        i
    } else {
        spec_dot_index(s, i + 1)
    }
}

fn find_dot(s: &str) -> (r: usize)
    ensures
        r == spec_dot_index(s@, 0),
{
    let n = s.unicode_len();
    let mut i: usize = 0;
    while i < n
        invariant
            i <= n,
            n == s@.len(),
            spec_dot_index(s@, 0) == spec_dot_index(s@, i as int),
        decreases n - i,
    {
        if s.get_char(i) == '.' {
            return i;
        }
        i += 1;
    }
    i
}

/// Reads a human-entered decimal amount into the smallest unit of a token
/// with the given decimal scale: the whole part scaled up, plus the
/// fraction padded to the scale. A malformed number is rejected as
/// invalid; a fraction finer than the scale as too long; an amount beyond
/// 128 bits as too long a whole part.
pub fn parse_decimal_amount(s: &str, decimals: u8) -> (r: Result<
    u128,
    DecimalNumberParsingError,
>)
    ensures
        ({
            let di = spec_dot_index(s@, 0);
            let whole = s@.subrange(0, di);
            let frac = s@.subrange(di + 1, s@.len() as int);
            &&& di == s@.len() ==> {
                &&& spec_parse_decimal(whole) is None ==> (r matches Err(
                    DecimalNumberParsingError::InvalidNumber(m),
                ) && m@ == s@)
                &&& spec_parse_decimal(whole) matches Some(w) ==> {
                    &&& w * spec_pow10(decimals as nat) <= u128::MAX ==> r == Ok::<
                        u128,
                        DecimalNumberParsingError,
                    >((w * spec_pow10(decimals as nat)) as u128)
                    &&& w * spec_pow10(decimals as nat) > u128::MAX ==> (r matches Err(
                        DecimalNumberParsingError::LongWhole(m),
                    ) && m@ == whole)
                }
            }
            &&& di < s@.len() ==> {
                &&& (spec_parse_decimal(whole) is None || spec_parse_decimal(frac) is None) ==> (
                r matches Err(DecimalNumberParsingError::InvalidNumber(m)) && m@ == s@)
                &&& spec_parse_decimal(whole) matches Some(w) ==> (spec_parse_decimal(frac)
                    matches Some(f) ==> {
                    &&& frac.len() > decimals ==> (r matches Err(
                        DecimalNumberParsingError::LongFractional(m),
                    ) && m@ == frac)
                    &&& frac.len() <= decimals ==> {
                        let scaled = w * spec_pow10(decimals as nat) + f * spec_pow10(
                            (decimals - frac.len()) as nat,
                        );
                        &&& scaled <= u128::MAX ==> r == Ok::<u128, DecimalNumberParsingError>(
                            scaled as u128,
                        )
                        &&& scaled > u128::MAX ==> (r matches Err(
                            DecimalNumberParsingError::LongWhole(m),
                        ) && m@ == whole)
                    }
                })
            }
        }),
{
    let n = s.unicode_len();
    let di = find_dot(s);
    proof {
        lemma_dot_index_bounds(s@, 0);
    }
    let whole_str = s.substring_char(0, di);
    if di == n {
        let w = match parse_u128_decimal(whole_str) {
            Some(w) => w,
            None => {
                return Err(DecimalNumberParsingError::InvalidNumber(String::from_str(s)));
            },
        };
        match scale_by_pow10(w, decimals) {
            Some(v) => Ok(v),
            None => Err(DecimalNumberParsingError::LongWhole(String::from_str(whole_str))),
        }
    } else {
        let frac_str = s.substring_char(di + 1, n);
        let w = match parse_u128_decimal(whole_str) {
            Some(w) => w,
            None => {
                return Err(DecimalNumberParsingError::InvalidNumber(String::from_str(s)));
            },
        };
        let f = match parse_u128_decimal(frac_str) {
            Some(f) => f,
            None => {
                return Err(DecimalNumberParsingError::InvalidNumber(String::from_str(s)));
            },
        };
        let frac_len = frac_str.unicode_len();
        if frac_len > decimals as usize {
            return Err(DecimalNumberParsingError::LongFractional(String::from_str(frac_str)));
        }
        let scaled_whole = match scale_by_pow10(w, decimals) {
            Some(v) => v,
            None => {
                proof {
                    lemma_pow10_positive((decimals - frac_len) as nat);
                }
                return Err(DecimalNumberParsingError::LongWhole(String::from_str(whole_str)));
            },
        };
        let scaled_frac = match scale_by_pow10(f, decimals - (frac_len as u8)) {
            Some(v) => v,
            None => {
                proof {
                    lemma_pow10_positive(decimals as nat);
                    assert(w * spec_pow10(decimals as nat) >= 0) by (nonlinear_arith)
                        requires
                            w >= 0,
                            spec_pow10(decimals as nat) >= 1,
                    ;
                }
                return Err(DecimalNumberParsingError::LongWhole(String::from_str(whole_str)));
            },
        };
        proof {
            let di_s = spec_dot_index(s@, 0);
            let whole = s@.subrange(0, di_s);
            let frac = s@.subrange(di_s + 1, s@.len() as int);
            assert(whole_str@ == whole);
            assert(frac_str@ == frac);
            assert(frac.len() == frac_len);
            assert(spec_parse_decimal(whole) == Some(w));
            assert(spec_parse_decimal(frac) == Some(f));
            lemma_pow10_positive(decimals as nat);
            lemma_pow10_positive((decimals - frac.len()) as nat);
            assert(w * spec_pow10(decimals as nat) >= 0) by (nonlinear_arith)
                requires
                    w >= 0,
                    spec_pow10(decimals as nat) >= 1,
            ;
            assert(f * spec_pow10((decimals - frac.len()) as nat) >= 0) by (nonlinear_arith)
                requires
                    f >= 0,
                    spec_pow10((decimals - frac.len()) as nat) >= 1,
            ;
            assert(scaled_whole == w * spec_pow10(decimals as nat));
            assert(scaled_frac == f * spec_pow10((decimals - frac.len()) as nat));
        }
        if scaled_whole > u128::MAX - scaled_frac {
            return Err(DecimalNumberParsingError::LongWhole(String::from_str(whole_str)));
        }
        Ok(scaled_whole + scaled_frac)
    }
}

} // verus!
