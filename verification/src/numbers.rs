//! Saturating integer arithmetic, the fixed-point cost model, and rendering
//! and parsing of decimal cost strings.
//!
//! Costs are carried as integer nanodollars (10^-9 dollars). The flat rate
//! table is exact in this unit: 0.003 dollars per thousand input tokens is
//! 3000 nanodollars per token, and so on for the other three counters.

use vstd::prelude::*;
use vstd::string::*;

use crate::text::char_pos;
use crate::text::find_char;
use crate::text::lemma_char_pos_props;

verus! {

/// Nanodollars per input token (0.003 dollars per thousand tokens).
pub const RATE_INPUT: u64 = 3000;

/// Nanodollars per output token (0.015 dollars per thousand tokens).
pub const RATE_OUTPUT: u64 = 15000;

/// Nanodollars per cache-creation token (0.00375 dollars per thousand tokens).
pub const RATE_CACHE_CREATION: u64 = 3750;

/// Nanodollars per cache-read token (0.0003 dollars per thousand tokens).
pub const RATE_CACHE_READ: u64 = 300;

/// Mathematical value clamped into `u64`.
pub open spec fn sat64(n: int) -> u64 {
    if n > u64::MAX {
        u64::MAX
    } else {
        n as u64
    }
}

/// Mathematical value clamped into `usize`.
pub open spec fn sat_usize(n: int) -> usize {
    if n > usize::MAX {
        usize::MAX
    } else {
        n as usize
    }
}

/// Saturating addition on `u64` token and cost accumulators.
pub fn sat_add(a: u64, b: u64) -> (r: u64)
    ensures
        r == sat64(a + b),
{
    if a > u64::MAX - b {
        u64::MAX
    } else {
        a + b
    }
}

/// Saturating addition on `usize` counters.
pub fn sat_add_usize(a: usize, b: usize) -> (r: usize)
    ensures
        r == sat_usize(a + b),
{
    if a > usize::MAX - b {
        usize::MAX
    } else {
        a + b
    }
}

/// Cost of one event in nanodollars under the flat rate table, clamped
/// into `u64`.
pub open spec fn cost_nano_of(input: u64, output: u64, cache_creation: u64, cache_read: u64) -> u64 {
    sat64(
        input * RATE_INPUT + output * RATE_OUTPUT + cache_creation * RATE_CACHE_CREATION
            + cache_read * RATE_CACHE_READ,
    )
}

/// Computes the flat-rate cost of one event in nanodollars.
pub fn cost_nano(input: u64, output: u64, cache_creation: u64, cache_read: u64) -> (r: u64)
    ensures
        r == cost_nano_of(input, output, cache_creation, cache_read),
{
    let t1: u128 = (input as u128) * (RATE_INPUT as u128);
    let t2: u128 = (output as u128) * (RATE_OUTPUT as u128);
    let t3: u128 = (cache_creation as u128) * (RATE_CACHE_CREATION as u128);
    let t4: u128 = (cache_read as u128) * (RATE_CACHE_READ as u128);
    proof {
        assert(t1 <= 0xffffffffffffffffu128 * 3000 && t2 <= 0xffffffffffffffffu128 * 15000 && t3
            <= 0xffffffffffffffffu128 * 3750 && t4 <= 0xffffffffffffffffu128 * 300)
            by (nonlinear_arith)
            requires
                t1 == (input as u128) * 3000 && t2 == (output as u128) * 15000 && t3 == (
                cache_creation as u128) * 3750 && t4 == (cache_read as u128) * 300,
                input <= 0xffffffffffffffffu64 && output <= 0xffffffffffffffffu64 && cache_creation
                    <= 0xffffffffffffffffu64 && cache_read <= 0xffffffffffffffffu64,
        ;
    }
    let total: u128 = t1 + t2 + t3 + t4;
    if total > u64::MAX as u128 {
        u64::MAX
    } else {
        total as u64
    }
}

/// The decimal digit character for `d` (0 through 9).
pub open spec fn digit_char(d: int) -> char {
    if d == 0 {
        '0'
    } else if d == 1 {
        '1'
    } else if d == 2 {
        '2'
    } else if d == 3 {
        '3'
    } else if d == 4 {
        '4'
    } else if d == 5 {
        '5'
    } else if d == 6 {
        '6'
    } else if d == 7 {
        '7'
    } else if d == 8 {
        '8'
    } else {
        '9'
    }
}

/// Decimal digit string of a nonnegative number, most significant digit
/// first, with no leading zeros except for the number 0 itself.
pub open spec fn spec_digits(n: nat) -> Seq<char>
    decreases n,
{
    if n < 10 {
        seq![digit_char(n as int)]
    } else {
        spec_digits(n / 10).push(digit_char((n % 10) as int))
    }
}

/// One decimal digit as a string slice.
fn digit_str(d: u128) -> (r: &'static str)
    requires
        d < 10,
    ensures
        r@.len() == 1,
        r@[0] == digit_char(d as int),
{
    proof {
        reveal_strlit("0");
        reveal_strlit("1");
        reveal_strlit("2");
        reveal_strlit("3");
        reveal_strlit("4");
        reveal_strlit("5");
        reveal_strlit("6");
        reveal_strlit("7");
        reveal_strlit("8");
        reveal_strlit("9");
    }
    match d {
        0 => "0",
        1 => "1",
        2 => "2",
        3 => "3",
        4 => "4",
        5 => "5",
        6 => "6",
        7 => "7",
        8 => "8",
        _ => "9",
    }
}

/// Renders a number as its decimal digit string.
pub fn format_u128(n: u128) -> (s: String)
    ensures
        s@ == spec_digits(n as nat),
    decreases n,
{
    if n < 10 {
        let d = digit_str(n);
        let s = d.to_owned();
        proof {
            assert(s@ =~= spec_digits(n as nat));
        }
        s
    } else {
        let mut s = format_u128(n / 10);
        let d = digit_str(n % 10);
        s.append(d);
        proof {
            assert(s@ =~= spec_digits(n as nat));
        }
        s
    }
}

/// Renders a `u64` as its decimal digit string.
pub fn format_u64(n: u64) -> (s: String)
    ensures
        s@ == spec_digits(n as nat),
{
    format_u128(n as u128)
}

/// The last four decimal digits of a number, zero padded.
pub open spec fn frac4_digits(n: int) -> Seq<char> {
    seq![
        digit_char(n / 1000 % 10),
        digit_char(n / 100 % 10),
        digit_char(n / 10 % 10),
        digit_char(n % 10),
    ]
}

/// The last two decimal digits of a number, zero padded.
pub open spec fn frac2_digits(n: int) -> Seq<char> {
    seq![digit_char(n / 10 % 10), digit_char(n % 10)]
}

/// A nanodollar amount rendered with exactly four decimal places, rounding
/// half away from zero at the fifth decimal.
pub open spec fn fmt_cost4(nano: u64) -> Seq<char> {
    let t = (nano + 50000) / 100000;
    spec_digits((t / 10000) as nat) + seq!['.'] + frac4_digits(t % 10000)
}

/// A nanodollar amount rendered with exactly two decimal places, rounding
/// half away from zero at the third decimal.
pub open spec fn fmt_cost2(nano: u64) -> Seq<char> {
    let t = (nano + 5000000) / 10000000;
    spec_digits((t / 100) as nat) + seq!['.'] + frac2_digits(t % 100)
}

/// Renders a nanodollar amount with exactly four decimal places.
pub fn format_cost4(nano: u64) -> (s: String)
    ensures
        s@ == fmt_cost4(nano),
{
    let t: u128 = (nano as u128 + 50000) / 100000;
    let mut s = format_u128(t / 10000);
    let f: u128 = t % 10000;
    proof {
        reveal_strlit(".");
    }
    s.append(".");
    s.append(digit_str(f / 1000 % 10));
    s.append(digit_str(f / 100 % 10));
    s.append(digit_str(f / 10 % 10));
    s.append(digit_str(f % 10));
    proof {
        assert(s@ =~= fmt_cost4(nano));
    }
    s
}

/// Renders a nanodollar amount with exactly two decimal places.
pub fn format_cost2(nano: u64) -> (s: String)
    ensures
        s@ == fmt_cost2(nano),
{
    let t: u128 = (nano as u128 + 5000000) / 10000000;
    let mut s = format_u128(t / 100);
    let f: u128 = t % 100;
    proof {
        reveal_strlit(".");
    }
    s.append(".");
    s.append(digit_str(f / 10 % 10));
    s.append(digit_str(f % 10));
    proof {
        assert(s@ =~= fmt_cost2(nano));
    }
    s
}

/// `c` is a decimal digit.
pub open spec fn is_digit(c: char) -> bool {
    48 <= c as int && c as int <= 57
}

/// Numeric value of a digit character.
pub open spec fn digit_of(c: char) -> int {
    c as int - 48
}

pub open spec fn all_digits(s: Seq<char>) -> bool {
    forall|i: int| 0 <= i < s.len() ==> is_digit(#[trigger] s[i])
}

/// Value of a digit string, most significant digit first.
pub open spec fn digits_val(s: Seq<char>) -> int
    decreases s.len(),
{
    if s.len() == 0 {
        0
    } else {
        digits_val(s.drop_last()) * 10 + digit_of(s.last())
    }
}

pub open spec fn pow10(k: nat) -> int
    decreases k,
{
    if k == 0 {
        1
    } else {
        10 * pow10((k - 1) as nat)
    }
}

pub proof fn lemma_pow10_values()
    ensures
        pow10(0) == 1,
        pow10(1) == 10,
        pow10(2) == 100,
        pow10(3) == 1000,
        pow10(4) == 10000,
        pow10(5) == 100000,
        pow10(6) == 1000000,
        pow10(7) == 10000000,
        pow10(8) == 100000000,
        pow10(9) == 1000000000,
{
    assert(pow10(0) == 1);
    assert(pow10(1) == 10);
    assert(pow10(2) == 100);
    assert(pow10(3) == 1000);
    assert(pow10(4) == 10000);
    assert(pow10(5) == 100000);
    assert(pow10(6) == 1000000);
    assert(pow10(7) == 10000000);
    assert(pow10(8) == 100000000);
    assert(pow10(9) == 1000000000);
}

pub proof fn lemma_digits_val_nonneg(s: Seq<char>)
    requires
        all_digits(s),
    ensures
        digits_val(s) >= 0,
    decreases s.len(),
{
    if s.len() > 0 {
        assert(all_digits(s.drop_last()));
        lemma_digits_val_nonneg(s.drop_last());
    }
}

pub proof fn lemma_digits_val_bound(s: Seq<char>)
    requires
        all_digits(s),
    ensures
        digits_val(s) < pow10(s.len()),
    decreases s.len(),
{
    if s.len() > 0 {
        assert(all_digits(s.drop_last()));
        lemma_digits_val_bound(s.drop_last());
        lemma_digits_val_nonneg(s.drop_last());
    }
}

pub proof fn lemma_pow10_mono(k: nat, j: nat)
    requires
        k <= j,
    ensures
        pow10(k) <= pow10(j),
    decreases j,
{
    if k < j {
        lemma_pow10_mono(k, (j - 1) as nat);
        lemma_pow10_nonneg((j - 1) as nat);
    }
}

pub proof fn lemma_pow10_nonneg(k: nat)
    ensures
        pow10(k) >= 1,
    decreases k,
{
    if k > 0 {
        lemma_pow10_nonneg((k - 1) as nat);
    }
}

/// Nanodollar value of a fraction-digit string: the first nine digits,
/// scaled so that one digit is a tenth of a dollar step down; digits beyond
/// the ninth are below one nanodollar and are ignored.
pub open spec fn frac_nano(fr: Seq<char>) -> int {
    if fr.len() >= 9 {
        digits_val(fr.take(9))
    } else {
        digits_val(fr) * pow10((9 - fr.len()) as nat)
    }
}

/// Nanodollar value of a decimal cost string written as plain digits with
/// at most one decimal point (the shape this crate's formatters emit).
/// Anything else fails to parse and is read as 0, the locally-recovered
/// default of the query layer.
pub open spec fn parse_cost_spec(s: Seq<char>) -> u64 {
    match char_pos(s, '.') {
        None => if s.len() > 0 && all_digits(s) {
            sat64(digits_val(s) * 1000000000)
        } else {
            0
        },
        Some(p) => {
            let whole = s.take(p);
            let frac = s.skip(p + 1);
            if s.len() > 1 && all_digits(whole) && all_digits(frac) {
                sat64(digits_val(whole) * 1000000000 + frac_nano(frac))
            } else {
                0
            }
        },
    }
}

/// Digit-string values saturate at this cap during scanning; any whole part
/// at or above it is already past what a `u64` nanodollar amount can hold.
pub open spec fn val_cap(v: int) -> u128 {
    if v >= 0x10000000000000000 {
        0x10000000000000000u128
    } else {
        v as u128
    }
}

/// Reads the digit run `s[from..to)`: `None` when a non-digit occurs there,
/// otherwise the capped numeric value.
fn scan_digits(s: &str, from: usize, to: usize) -> (r: Option<u128>)
    requires
        from <= to <= s@.len(),
    ensures
        match r {
            None => !all_digits(s@.subrange(from as int, to as int)),
            Some(v) => all_digits(s@.subrange(from as int, to as int)) && v == val_cap(
                digits_val(s@.subrange(from as int, to as int)),
            ),
        },
{
    let mut acc: u128 = 0;
    let mut i: usize = from;
    while i < to
        invariant
            from <= i <= to <= s@.len(),
            all_digits(s@.subrange(from as int, i as int)),
            acc == val_cap(digits_val(s@.subrange(from as int, i as int))),
        decreases to - i,
    {
        let c = s.get_char(i) as u32;
        if c < 48 || c > 57 {
            proof {
                assert(s@.subrange(from as int, to as int)[i - from] == s@[i as int]);
                assert(!is_digit(s@.subrange(from as int, to as int)[i - from]));
            }
            return None;
        }
        let d: u128 = (c - 48) as u128;
        let ghost pre = s@.subrange(from as int, i as int);
        let ghost post = s@.subrange(from as int, i + 1);
        proof {
            assert(post.drop_last() =~= pre);
            assert(post.last() == s@[i as int]);
            lemma_digits_val_nonneg(pre);
        }
        acc = if acc >= 0x10000000000000000u128 {
            0x10000000000000000u128
        } else {
            let next = acc * 10 + d;
            if next >= 0x10000000000000000u128 {
                0x10000000000000000u128
            } else {
                next
            }
        };
        i = i + 1;
    }
    proof {
        assert(s@.subrange(from as int, to as int) =~= s@.subrange(from as int, i as int));
    }
    Some(acc)
}

/// Multiplies a value known to be under `10^(9-k)` by `10^k`.
fn scale_frac(v: u64, k: usize) -> (r: u64)
    requires
        k <= 9,
        v < pow10((9 - k) as nat),
    ensures
        r == v * pow10(k as nat),
{
    proof {
        lemma_pow10_values();
    }
    match k {
        0 => v,
        1 => v * 10,
        2 => v * 100,
        3 => v * 1000,
        4 => v * 10000,
        5 => v * 100000,
        6 => v * 1000000,
        7 => v * 10000000,
        8 => v * 100000000,
        _ => v * 1000000000,
    }
}

/// Combines a capped whole-dollar digit value with a fractional nanodollar
/// amount into a saturated `u64` nanodollar total.
fn combine_cost(w: u128, f: u64, Ghost(wv): Ghost<int>) -> (r: u64)
    requires
        wv >= 0,
        w == val_cap(wv),
        f < 1000000000,
    ensures
        r == sat64(wv * 1000000000 + f),
{
    if w >= 0x10000000000000000u128 {
        proof {
            assert(wv >= 0x10000000000000000);
            assert(wv * 1000000000 >= wv * 1) by (nonlinear_arith)
                requires
                    wv >= 0,
            ;
        }
        u64::MAX
    } else {
        let r128: u128 = w * 1000000000 + f as u128;
        proof {
            assert(r128 == wv * 1000000000 + f);
        }
        if r128 > u64::MAX as u128 {
            u64::MAX
        } else {
            r128 as u64
        }
    }
}

/// Reads a decimal cost string back into nanodollars; any string that is
/// not plain `digits [ '.' digits ]` is read as 0.
pub fn parse_cost(s: &str) -> (r: u64)
    ensures
        r == parse_cost_spec(s@),
{
    let n = s.unicode_len();
    match find_char(s, '.') {
        None => {
            if n == 0 {
                return 0;
            }
            match scan_digits(s, 0, n) {
                None => {
                    proof {
                        assert(s@.subrange(0, n as int) =~= s@);
                    }
                    0
                },
                Some(w) => {
                    proof {
                        assert(s@.subrange(0, n as int) =~= s@);
                        lemma_digits_val_nonneg(s@);
                    }
                    combine_cost(w, 0, Ghost(digits_val(s@)))
                },
            }
        },
        Some(p) => {
            proof {
                lemma_char_pos_props(s@, '.');
            }
            if n == 1 {
                return 0;
            }
            let w_opt = scan_digits(s, 0, p);
            let f_opt = scan_digits(s, p + 1, n);
            proof {
                assert(s@.subrange(0, p as int) =~= s@.take(p as int));
                assert(s@.subrange(p + 1, n as int) =~= s@.skip(p + 1));
            }
            match (w_opt, f_opt) {
                (Some(w), Some(_)) => {
                    let flen = n - p - 1;
                    let m = if flen > 9 {
                        9
                    } else {
                        flen
                    };
                    let ghost frac = s@.skip(p + 1);
                    let ghost fpart = s@.subrange(p + 1, p + 1 + m as int);
                    proof {
                        if flen >= 9 {
                            assert(fpart =~= frac.take(9));
                        } else {
                            assert(fpart =~= frac);
                        }
                        assert(all_digits(fpart));
                        lemma_digits_val_bound(fpart);
                        lemma_digits_val_nonneg(fpart);
                        lemma_pow10_mono(fpart.len(), 9);
                        lemma_pow10_values();
                    }
                    let fv_opt = scan_digits(s, p + 1, p + 1 + m);
                    let fv128 = fv_opt.unwrap();
                    let fv = fv128 as u64;
                    let f = scale_frac(fv, 9 - m);
                    proof {
                        assert(f == frac_nano(frac));
                        assert(f < 1000000000) by {
                            assert(fv * pow10((9 - m) as nat) < pow10(m as nat) * pow10(
                                (9 - m) as nat,
                            )) by (nonlinear_arith)
                                requires
                                    fv < pow10(m as nat),
                                    fv >= 0,
                                    pow10((9 - m) as nat) >= 1,
                            ;
                            lemma_pow10_mul(m as nat, (9 - m) as nat);
                        };
                        lemma_digits_val_nonneg(s@.take(p as int));
                    }
                    combine_cost(w, f, Ghost(digits_val(s@.take(p as int))))
                },
                _ => 0,
            }
        },
    }
}

pub proof fn lemma_pow10_mul(a: nat, b: nat)
    ensures
        pow10(a) * pow10(b) == pow10(a + b),
    decreases a,
{
    if a == 0 {
    } else {
        lemma_pow10_mul((a - 1) as nat, b);
        assert(pow10(a) * pow10(b) == 10 * (pow10((a - 1) as nat) * pow10(b))) by (nonlinear_arith)
            requires
                pow10(a) == 10 * pow10((a - 1) as nat),
        ;
    }
}

} // verus!

