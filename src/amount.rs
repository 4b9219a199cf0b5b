//! Decimal text and fixed-point amounts.
//!
//! An amount is an `i64` count of ten-thousandths: `1.5` is `15000`, and a
//! withdrawal recorded as `-0.5` is `-5000`. Integer arithmetic keeps
//! `total == available + held` exact.

use vstd::prelude::*;

verus! {

/// Fixed-point units in one whole amount.
pub const UNITS_PER_WHOLE: i64 = 10000;

/// The most digits an amount may have after the decimal point.
pub const MAX_FRACTION_DIGITS: usize = 4;

/// Whether `c` is an ASCII decimal digit.
pub open spec fn is_digit(c: char) -> bool {
    '0' <= c <= '9'
}

/// The value of the digit `c`.
pub open spec fn digit_value(c: char) -> int {
    c as int - '0' as int
}

/// Whether every character of `s` is a decimal digit.
pub open spec fn all_digits(s: Seq<char>) -> bool {
    forall|i: int| 0 <= i < s.len() ==> is_digit(#[trigger] s[i])
}

/// The value of the decimal numeral `s`, most significant digit first.
pub open spec fn digits_value(s: Seq<char>) -> int
    decreases s.len(),
{
    if s.len() == 0 {
        0
    } else {
        digits_value(s.drop_last()) * 10 + digit_value(s.last())
    }
}

/// `10` to the power `n`.
pub open spec fn pow10(n: nat) -> int
    decreases n,
{
    if n == 0 {
        1
    } else {
        10 * pow10((n - 1) as nat)
    }
}

/// The number of decimal digits at the start of `s`.
pub open spec fn leading_digits(s: Seq<char>) -> nat
    decreases s.len(),
{
    if s.len() == 0 || !is_digit(s[0]) {
        0
    } else {
        1 + leading_digits(s.drop_first())
    }
}

/// The value of a non-empty all-digit `s`, if it is at most `max`.
pub open spec fn numeral(s: Seq<char>, max: int) -> Option<int> {
    if s.len() > 0 && all_digits(s) && digits_value(s) <= max {
        Some(digits_value(s))
    } else {
        None
    }
}

/// The length of the sign at the start of `s`: one for `-` or `+`.
pub open spec fn sign_len(s: Seq<char>) -> int {
    if s.len() > 0 && (s[0] == '-' || s[0] == '+') {
        1
    } else {
        0
    }
}

/// Whether `s` reads as an amount: an optional sign, one or more digits,
/// then optionally a point and one to four digits.
pub open spec fn is_amount_text(s: Seq<char>) -> bool {
    let body = s.skip(sign_len(s));
    let n = leading_digits(body) as int;
    let rest = body.skip(n);
    &&& n > 0
    &&& rest.len() == 0 || (rest[0] == '.' && 1 < rest.len() <= 1 + MAX_FRACTION_DIGITS
        && all_digits(rest.skip(1)))
}

/// The magnitude, in units, of the amount that `s` reads as.
pub open spec fn amount_magnitude(s: Seq<char>) -> int {
    let body = s.skip(sign_len(s));
    let n = leading_digits(body) as int;
    let frac = if body.len() > n {
        body.skip(n + 1)
    } else {
        Seq::empty()
    };
    digits_value(body.take(n)) * UNITS_PER_WHOLE + digits_value(frac) * pow10(
        (MAX_FRACTION_DIGITS - frac.len()) as nat,
    )
}

/// The amount, in units, that `s` reads as: none if `s` is not amount
/// text or the magnitude exceeds `i64::MAX`.
pub open spec fn amount_of(s: Seq<char>) -> Option<i64> {
    if is_amount_text(s) && amount_magnitude(s) <= i64::MAX {
        if s[0] == '-' {
            Some((-amount_magnitude(s)) as i64)
        } else {
            Some(amount_magnitude(s) as i64)
        }
    } else {
        None
    }
}

proof fn lemma_digits_value_nonneg(s: Seq<char>)
    requires
        all_digits(s),
    ensures
        digits_value(s) >= 0,
    decreases s.len(),
{
    if s.len() > 0 {
        lemma_digits_value_nonneg(s.drop_last());
    }
}

/// A longer all-digit numeral is at least as large as its prefix.
proof fn lemma_digits_value_prefix(s: Seq<char>, k: int)
    requires
        all_digits(s),
        0 <= k <= s.len(),
    ensures
        digits_value(s.take(k)) <= digits_value(s),
    decreases s.len() - k,
{
    if k < s.len() {
        let t = s.take(k + 1);
        assert(t.drop_last() =~= s.take(k));
        lemma_digits_value_nonneg(s.take(k));
        lemma_digits_value_prefix(s, k + 1);
    } else {
        assert(s.take(k) =~= s);
    }
}

/// The digit run at the start of `s` ends at the first non-digit.
proof fn lemma_leading_digits(s: Seq<char>, k: int)
    requires
        0 <= k <= s.len(),
        all_digits(s.take(k)),
        k == s.len() || !is_digit(s[k]),
    ensures
        leading_digits(s) == k,
    decreases k,
{
    if k > 0 {
        assert(is_digit(s.take(k)[0]));
        assert(s.drop_first().take(k - 1) =~= s.take(k).drop_first());
        lemma_leading_digits(s.drop_first(), k - 1);
    }
}

proof fn lemma_pow10_pos(n: nat)
    ensures
        pow10(n) >= 1,
    decreases n,
{
    if n > 0 {
        lemma_pow10_pos((n - 1) as nat);
    }
}

/// An all-digit numeral is less than ten to the power of its length.
proof fn lemma_digits_value_bound(s: Seq<char>)
    requires
        all_digits(s),
    ensures
        0 <= digits_value(s) < pow10(s.len()),
    decreases s.len(),
{
    if s.len() > 0 {
        let init = s.drop_last();
        lemma_digits_value_bound(init);
        let a = digits_value(init);
        let p = pow10(init.len());
        let d = digit_value(s.last());
        assert(a * 10 + d < 10 * p) by (nonlinear_arith)
            requires
                0 <= a < p,
                0 <= d <= 9,
        ;
    }
}

/// The end of the run of digits in `s` that starts at `start`.
fn digit_run_end(s: &str, start: usize, n: usize) -> (r: usize)
    requires
        n == s@.len(),
        start <= n,
    ensures
        start <= r <= n,
        all_digits(s@.subrange(start as int, r as int)),
        r == n || !is_digit(s@[r as int]),
{
    let mut i: usize = start;
    while i < n
        invariant
            n == s@.len(),
            start <= i <= n,
            all_digits(s@.subrange(start as int, i as int)),
        decreases n - i,
    {
        let c = s.get_char(i);
        if c < '0' || c > '9' {
            return i;
        }
        assert(s@.subrange(start as int, i + 1) =~= s@.subrange(start as int, i as int).push(c));
        i = i + 1;
    }
    i
}

/// `10` to the power `k`, for `k` up to four.
fn small_pow10(k: usize) -> (r: u64)
    requires
        k <= MAX_FRACTION_DIGITS,
    ensures
        r == pow10(k as nat),
        r <= UNITS_PER_WHOLE,
{
    proof {
        reveal_with_fuel(pow10, 5);
    }
    match k {
        0 => 1,
        1 => 10,
        2 => 100,
        3 => 1000,
        _ => 10000,
    }
}

/// Reads the digits of `s` from `start` to `end` as a numeral, giving up
/// with `None` as soon as the value exceeds `max`. The characters there
/// must be digits.
fn read_digits(s: &str, start: usize, end: usize, max: u64) -> (r: Option<u64>)
    requires
        start <= end <= s@.len(),
        all_digits(s@.subrange(start as int, end as int)),
    ensures
        match r {
            Some(v) => v == digits_value(s@.subrange(start as int, end as int)) && v <= max,
            None => digits_value(s@.subrange(start as int, end as int)) > max,
        },
{
    let mut acc: u64 = 0;
    let mut i: usize = start;
    while i < end
        invariant
            start <= i <= end <= s@.len(),
            all_digits(s@.subrange(start as int, end as int)),
            acc == digits_value(s@.subrange(start as int, i as int)),
            acc <= max,
        decreases end - i,
    {
        let c = s.get_char(i);
        let ghost whole = s@.subrange(start as int, end as int);
        let ghost next = s@.subrange(start as int, i + 1);
        assert(next.drop_last() =~= s@.subrange(start as int, i as int));
        assert(whole[i - start] == c);
        let d = (c as u32 - '0' as u32) as u64;
        if d > max || acc > (max - d) / 10 {
            proof {
                assert(next =~= whole.take(i + 1 - start));
                lemma_digits_value_prefix(whole, i + 1 - start);
                assert(acc * 10 + d > max) by (nonlinear_arith)
                    requires
                        d > max || acc > (max - d) / 10,
                        d <= 9,
                ;
            }
            return None;
        }
        proof {
            assert(acc * 10 + d <= max) by (nonlinear_arith)
                requires
                    acc <= (max - d) / 10,
                    d <= max,
            ;
        }
        acc = acc * 10 + d;
        i = i + 1;
    }
    Some(acc)
}

/// Reads `s` as a non-empty decimal numeral of at most `max`: `None` if it
/// holds anything but digits, is empty, or exceeds `max`.
pub fn parse_numeral(s: &str, max: u64) -> (r: Option<u64>)
    ensures
        match r {
            Some(v) => numeral(s@, max as int) == Some(v as int),
            None => numeral(s@, max as int) is None,
        },
{
    let n = s.unicode_len();
    let end = digit_run_end(s, 0, n);
    assert(s@.subrange(0, n as int) =~= s@);
    if end == 0 || end != n {
        return None;
    }
    read_digits(s, 0, end, max)
}

/// Reads `s` as an amount in fixed-point units: an optional sign, one or
/// more digits, then optionally a point and one to four digits. `None` if
/// `s` has another shape or its magnitude exceeds `i64::MAX` units.
pub fn parse_amount(s: &str) -> (r: Option<i64>)
    ensures
        r == amount_of(s@),
{
    let n = s.unicode_len();
    let mut start: usize = 0;
    let mut neg = false;
    if n > 0 {
        let c0 = s.get_char(0);
        if c0 == '-' {
            neg = true;
            start = 1;
        } else if c0 == '+' {
            start = 1;
        }
    }
    let ghost body = s@.skip(sign_len(s@));
    assert(start == sign_len(s@));
    let int_end = digit_run_end(s, start, n);
    proof {
        assert(s@.subrange(start as int, int_end as int) =~= body.take(int_end - start));
        lemma_leading_digits(body, int_end - start);
    }
    if int_end == start {
        return None;
    }
    let mut frac_start = n;
    let mut frac_end = n;
    if int_end < n {
        if s.get_char(int_end) != '.' {
            return None;
        }
        frac_start = int_end + 1;
        frac_end = digit_run_end(s, frac_start, n);
        proof {
            let rest = body.skip(int_end - start);
            assert(rest.skip(1) =~= s@.subrange(frac_start as int, n as int));
            if frac_end < n {
                assert(!is_digit(rest.skip(1)[frac_end - frac_start]));
            }
        }
        if frac_end != n || frac_end == frac_start || frac_end - frac_start > MAX_FRACTION_DIGITS {
            return None;
        }
    }
    let ghost int_part = s@.subrange(start as int, int_end as int);
    let ghost frac = s@.subrange(frac_start as int, frac_end as int);
    proof {
        if int_end < n {
            assert(frac =~= body.skip(int_end - start + 1));
        } else {
            assert(frac =~= Seq::<char>::empty());
        }
        assert(is_amount_text(s@));
        assert(amount_magnitude(s@) == digits_value(int_part) * UNITS_PER_WHOLE
            + digits_value(frac) * pow10((MAX_FRACTION_DIGITS - frac.len()) as nat));
        lemma_digits_value_bound(frac);
    }
    let max_whole: u64 = (i64::MAX / UNITS_PER_WHOLE) as u64;
    let whole = match read_digits(s, start, int_end, max_whole) {
        Some(w) => w,
        None => {
            proof {
                let a = digits_value(frac);
                let p = pow10((MAX_FRACTION_DIGITS - frac.len()) as nat);
                lemma_pow10_pos((MAX_FRACTION_DIGITS - frac.len()) as nat);
                assert(a * p >= 0) by (nonlinear_arith)
                    requires
                        a >= 0,
                        p >= 1,
                ;
                assert(digits_value(int_part) * 10000 > i64::MAX) by (nonlinear_arith)
                    requires
                        digits_value(int_part) > 922337203685477,
                ;
            }
            return None;
        },
    };
    let k = frac_end - frac_start;
    let fraction = match read_digits(s, frac_start, frac_end, 9999) {
        Some(f) => f,
        None => {
            proof {
                assert(pow10(frac.len()) <= 10000) by {
                    reveal_with_fuel(pow10, 5);
                }
            }
            return None;
        },
    };
    let scale = small_pow10(MAX_FRACTION_DIGITS - k);
    assert(whole * 10000 <= 9223372036854770000) by (nonlinear_arith)
        requires
            whole <= 922337203685477,
    ;
    assert(fraction * scale <= 100000000) by (nonlinear_arith)
        requires
            fraction <= 9999,
            scale <= 10000,
    ;
    let units: u64 = whole * (UNITS_PER_WHOLE as u64) + fraction * scale;
    if units > i64::MAX as u64 {
        return None;
    }
    if neg {
        Some(-(units as i64))
    } else {
        Some(units as i64)
    }
}

/// The sign, whole part and fraction (in units) of the amount `units`:
/// `-1.25` gives `(true, 1, 2500)`.
pub fn amount_parts(units: i64) -> (r: (bool, u64, u64))
    ensures
        r.0 == (units < 0),
        r.1 * UNITS_PER_WHOLE + r.2 == if units < 0 {
            -units
        } else {
            units as int
        },
        r.2 < UNITS_PER_WHOLE,
{
    let magnitude: u64 = if units < 0 {
        (-(units as i128)) as u64
    } else {
        units as u64
    };
    let per: u64 = UNITS_PER_WHOLE as u64;
    let whole = magnitude / per;
    let fraction = magnitude % per;
    assert(whole * per + fraction == magnitude) by (nonlinear_arith)
        requires
            per > 0,
            whole == magnitude / per,
            fraction == magnitude % per,
    ;
    (units < 0, whole, fraction)
}

} // verus!
