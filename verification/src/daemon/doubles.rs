//! Decimal numbers as doubles: the double that is nearest to a number, and the fewest digits
//! that tell a double from its neighbours.
//!
//! A positive double is `m * 2^q` with whole `m` below `2^53` and `q` at least `-1074`. All of
//! it is computed with whole numbers.

use vstd::prelude::*;

use crate::daemon::workers;
use crate::daemon::workers::{Decimal, Reading};
use crate::text;

verus! {

// ---------------------------------------------------------------------------
// The nearest double
// ---------------------------------------------------------------------------

/// `2^53`: what a double multiplies a power of two with is less.
pub const TWO_53: u64 = 9_007_199_254_740_992;

/// The least exponent of a double.
pub const LEAST_EXPONENT: i32 = -1074;

/// The greatest exponent of a double.
pub const GREATEST_EXPONENT: i32 = 971;

/// Whether the number, its sign aside, is at least `m * 2^q`.
pub open spec fn reaches(d: Decimal, m: nat, q: int) -> bool {
    if q >= 0 {
        workers::at_least(d, m * workers::power(2, q as nat), 0)
    } else {
        workers::at_least(d, m * workers::power(5, (-q) as nat), (-q) as nat)
    }
}

/// Whether the number, its sign aside, is more than `m * 2^q`.
pub open spec fn exceeds(d: Decimal, m: nat, q: int) -> bool {
    if q >= 0 {
        workers::above(d, m * workers::power(2, q as nat), 0)
    } else {
        workers::above(d, m * workers::power(5, (-q) as nat), (-q) as nat)
    }
}

/// The exponent of the double for a number: the least one, from `q` on, with which the number
/// is below `2^53` units.
pub open spec fn exponent_from(d: Decimal, q: int) -> int
    decreases GREATEST_EXPONENT - q,
{
    if q >= GREATEST_EXPONENT || !reaches(d, TWO_53 as nat, q) {
        q
    } else {
        exponent_from(d, q + 1)
    }
}

/// How many units of `2^q` the number holds.
pub open spec fn whole_units(d: Decimal, q: int) -> nat {
    choose|f: nat| #[trigger] reaches(d, f, q) && !reaches(d, f + 1, q)
}

/// The number in units of `2^q`, rounded to the nearest; a half goes to the even one.
pub open spec fn rounded_units(d: Decimal, q: int) -> nat {
    let f = whole_units(d, q);
    if exceeds(d, 2 * f + 1, q - 1) || (reaches(d, 2 * f + 1, q - 1) && f % 2 == 1) {
        f + 1
    } else {
        f
    }
}

/// The double that is nearest to the number, its sign aside, as `m` and `q`.
pub open spec fn double_of(d: Decimal) -> (nat, int) {
    let q = exponent_from(d, LEAST_EXPONENT as int);
    let m = rounded_units(d, q);
    if m == TWO_53 {
        (TWO_53 as nat / 2, q + 1)
    } else {
        (m, q)
    }
}

// ---------------------------------------------------------------------------
// The digits of a double
// ---------------------------------------------------------------------------

/// All decimal digits of `m * 2^q`.
pub open spec fn expansion(m: nat, q: int) -> Decimal {
    if q >= 0 {
        let digits = text::dec(m * workers::power(2, q as nat));
        Decimal { negative: false, digits, point: digits.len() as int }
    } else {
        let digits = text::dec(m * workers::power(5, (-q) as nat));
        Decimal { negative: false, digits, point: digits.len() + q }
    }
}

/// Half way from a double down to the one below it. Below a power of two the doubles lie
/// twice as close.
pub open spec fn half_below(m: nat, q: int) -> (nat, int) {
    if 2 * m == TWO_53 && q > LEAST_EXPONENT {
        ((4 * m - 1) as nat, q - 2)
    } else {
        ((2 * m - 1) as nat, q - 1)
    }
}

/// Whether the double `m * 2^q` is the nearest one to a number; half way between two, the one
/// with an even `m` is.
pub open spec fn stands_for(c: Decimal, m: nat, q: int) -> bool {
    let (lm, lq) = half_below(m, q);
    if m % 2 == 0 {
        reaches(c, lm, lq) && !exceeds(c, 2 * m + 1, q - 1)
    } else {
        exceeds(c, lm, lq) && !reaches(c, 2 * m + 1, q - 1)
    }
}

/// The digits of the next whole number.
pub open spec fn next_digits(s: Seq<char>) -> Seq<char>
    decreases s.len(),
{
    if s.len() == 0 {
        seq!['1']
    } else if s.last() == '9' {
        next_digits(s.drop_last()).push('0')
    } else {
        s.drop_last().push(((s.last() as nat) + 1) as char)
    }
}

/// A number cut after `n` digits.
pub open spec fn cut(e: Decimal, n: int) -> Decimal {
    Decimal { digits: e.digits.take(n), ..e }
}

/// A number cut after `n` digits, and one more in the last place.
pub open spec fn raised(e: Decimal, n: int) -> Decimal {
    let digits = next_digits(e.digits.take(n));
    Decimal { digits, point: e.point + digits.len() - n, ..e }
}

/// The fewest digits, from `n` on, that stand for the double `m * 2^q`: its own digits cut, or
/// raised after the cut, whichever is nearer where both do.
pub open spec fn shortest_from(m: nat, q: int, n: int) -> Decimal
    decreases expansion(m, q).digits.len() - n,
{
    let e = expansion(m, q);
    if n >= e.digits.len() {
        e
    } else {
        let low = stands_for(cut(e, n), m, q);
        let high = stands_for(raised(e, n), m, q);
        if high && (!low || e.digits[n] >= '5') {
            raised(e, n)
        } else if low {
            cut(e, n)
        } else {
            shortest_from(m, q, n + 1)
        }
    }
}

/// The number that a decimal number is shown as, its sign aside: the fewest digits that stand
/// for its double.
pub open spec fn shown_digits(d: Decimal) -> Decimal {
    let (m, q) = double_of(d);
    shortest_from(m, q, 1)
}

// ---------------------------------------------------------------------------
// Facts
// ---------------------------------------------------------------------------

proof fn at_least_shifts(d: Decimal, k: nat, places: nat)
    ensures
        workers::at_least(d, 10 * k, places + 1) == workers::at_least(d, k, places),
{
    let e = d.point + places - d.digits.len();
    let v = text::digits_value(d.digits);
    if e >= 0 {
        let p = workers::ten_to(e as nat);
        assert(workers::ten_to((e + 1) as nat) == 10 * p);
        assert(v * (10 * p) == 10 * (v * p)) by (nonlinear_arith);
    } else {
        let p = workers::ten_to((-e - 1) as nat);
        assert(workers::ten_to((-e) as nat) == 10 * p);
        assert(k * (10 * p) == (10 * k) * p) by (nonlinear_arith);
        if e == -1 {
            assert(v * 1 == v) by (nonlinear_arith);
            assert((10 * k) * 1 == 10 * k) by (nonlinear_arith);
        }
    }
}

proof fn at_least_less(d: Decimal, j: nat, k: nat, places: nat)
    requires
        j <= k,
        workers::at_least(d, k, places),
    ensures
        workers::at_least(d, j, places),
{
    let e = d.point + places - d.digits.len();
    if e < 0 {
        let p = workers::ten_to((-e) as nat);
        assert(j * p <= k * p) by (nonlinear_arith)
            requires
                j <= k,
        ;
    }
}

/// A number that reaches `m` units reaches every smaller number of them.
proof fn reaches_fewer(d: Decimal, l: nat, m: nat, q: int)
    requires
        l <= m,
        reaches(d, m, q),
    ensures
        reaches(d, l, q),
{
    let p = if q >= 0 {
        workers::power(2, q as nat)
    } else {
        workers::power(5, (-q) as nat)
    };
    assert(l * p <= m * p) by (nonlinear_arith)
        requires
            l <= m,
    ;
    at_least_less(d, l * p, m * p, (if q >= 0 {
        0
    } else {
        -q
    }) as nat);
}

/// Two units are one of the next exponent.
proof fn units_double(d: Decimal, m: nat, q: int)
    ensures
        reaches(d, 2 * m, q) == reaches(d, m, q + 1),
{
    if q >= 0 {
        let p = workers::power(2, q as nat);
        assert(workers::power(2, (q + 1) as nat) == 2 * p);
        assert((2 * m) * p == m * (2 * p)) by (nonlinear_arith);
    } else {
        let p = workers::power(5, (-q - 1) as nat);
        assert(workers::power(5, (-q) as nat) == 5 * p);
        assert((2 * m) * (5 * p) == 10 * (m * p)) by (nonlinear_arith);
        at_least_shifts(d, m * p, (-q - 1) as nat);
        if q == -1 {
            assert(workers::power(5, 0) == 1 && workers::power(2, 0) == 1);
        }
    }
}

/// What reaches `2^53` units reaches as many smaller ones.
proof fn reaches_smaller(d: Decimal, m: nat, low: int, high: int)
    requires
        low <= high,
        reaches(d, m, high),
    ensures
        reaches(d, m, low),
    decreases high - low,
{
    if low < high {
        units_double(d, m, high - 1);
        reaches_fewer(d, m, 2 * m, high - 1);
        reaches_smaller(d, m, low, high - 1);
    }
}

proof fn exponent_is(d: Decimal, q: int, b: int)
    requires
        q <= b <= GREATEST_EXPONENT,
        forall|i: int| q <= i < b ==> #[trigger] reaches(d, TWO_53 as nat, i),
        b == GREATEST_EXPONENT || !reaches(d, TWO_53 as nat, b),
    ensures
        exponent_from(d, q) == b,
    decreases b - q,
{
    if q < b {
        assert(reaches(d, TWO_53 as nat, q));
        exponent_is(d, q + 1, b);
    }
}

proof fn whole_units_are(d: Decimal, q: int, f: nat)
    requires
        reaches(d, f, q),
        !reaches(d, f + 1, q),
    ensures
        whole_units(d, q) == f,
{
    let g = whole_units(d, q);
    assert(reaches(d, g, q) && !reaches(d, g + 1, q));
    if g < f {
        reaches_fewer(d, g + 1, f, q);
    } else if f < g {
        reaches_fewer(d, f + 1, g, q);
    }
}

proof fn no_units_are_reached(d: Decimal, q: int)
    ensures
        reaches(d, 0, q),
{
    let places: nat = (if q >= 0 {
        0
    } else {
        -q
    }) as nat;
    let p = if q >= 0 {
        workers::power(2, q as nat)
    } else {
        workers::power(5, (-q) as nat)
    };
    let e = d.point + places - d.digits.len();
    let v = text::digits_value(d.digits);
    assert(0 * p == 0) by (nonlinear_arith);
    if e >= 0 {
        let t = workers::ten_to(e as nat);
        assert(v * t >= 0) by (nonlinear_arith)
            requires
                v >= 0,
                t >= 0,
        ;
    } else {
        let t = workers::ten_to((-e) as nat);
        assert(0 * t == 0) by (nonlinear_arith);
    }
}

/// A finite number is below `2^53` of the greatest units.
proof fn finite_is_below(d: Decimal)
    requires
        !workers::is_infinite(d),
    ensures
        !reaches(d, TWO_53 as nat, GREATEST_EXPONENT as int),
{
    reveal_with_fuel(workers::power, 28);
    assert(workers::power(2, 26) == 67_108_864);
    assert(workers::power(2, 27) == 134_217_728);
    workers::power_sum(2, 26, 27);
    workers::power_sum(2, 53, 971);
    assert(workers::power(2, 53) == TWO_53);
    if reaches(d, TWO_53 as nat, GREATEST_EXPONENT as int) {
        at_least_less(d, workers::infinite_from(), workers::power(2, 1024), 0);
    }
}

/// A run of digits without a zero in front is the number that it writes.
proof fn digits_are_printed(s: Seq<char>)
    requires
        text::all_digits(s),
        s[0] != '0',
    ensures
        text::dec(text::digits_value(s)) == s,
    decreases s.len(),
{
    let rest = s.drop_last();
    let v = text::digits_value(rest);
    let c = s.last();
    if rest.len() == 0 {
        assert(text::digits_value(s) == c as nat - 48);
        assert(text::dec(text::digits_value(s)) =~= s);
    } else {
        assert(rest[0] == s[0]);
        digits_are_printed(rest);
        workers::value_by_length(rest);
        workers::ten_to_positive((rest.len() - 1) as nat);
        let w = text::digits_value(s);
        assert(w == v * 10 + (c as nat - 48));
        assert(w / 10 == v);
        assert(w % 10 == c as nat - 48);
        assert(text::dec(w) =~= s);
    }
}

proof fn next_digits_are_digits(s: Seq<char>)
    requires
        forall|i: int| 0 <= i < s.len() ==> text::is_digit(#[trigger] s[i]),
        s.len() > 0 ==> s[0] != '0',
    ensures
        text::all_digits(next_digits(s)),
        next_digits(s)[0] != '0',
        s.len() <= next_digits(s).len() <= s.len() + 1,
    decreases s.len(),
{
    if s.len() > 0 {
        let rest = s.drop_last();
        if s.last() == '9' {
            if rest.len() > 0 {
                assert(rest[0] == s[0]);
            }
            next_digits_are_digits(rest);
        } else if rest.len() > 0 {
            assert(rest[0] == s[0]);
        }
    }
}

proof fn power_below_tens(base: nat, n: nat)
    requires
        base <= 10,
    ensures
        workers::power(base, n) <= workers::ten_to(n),
    decreases n,
{
    if n > 0 {
        power_below_tens(base, (n - 1) as nat);
        let p = workers::power(base, (n - 1) as nat);
        let t = workers::ten_to((n - 1) as nat);
        assert(base * p <= 10 * t) by (nonlinear_arith)
            requires
                base <= 10,
                p <= t,
        ;
    }
}

/// A number of units has few digits.
proof fn few_digits(s: Seq<char>, m: nat, base: nat, n: nat)
    requires
        text::all_digits(s),
        s[0] != '0',
        base <= 10,
        m <= 100_000_000_000_000_000,
        text::digits_value(s) == m * workers::power(base, n),
    ensures
        s.len() <= n + 18,
{
    reveal_with_fuel(workers::ten_to, 18);
    assert(workers::ten_to(17) == 100_000_000_000_000_000);
    workers::value_by_length(s);
    power_below_tens(base, n);
    workers::ten_to_sum(17, n);
    let p = workers::power(base, n);
    let t = workers::ten_to(n);
    assert(m * p <= 100_000_000_000_000_000 * t) by (nonlinear_arith)
        requires
            m <= 100_000_000_000_000_000,
            p <= t,
    ;
    if s.len() > n + 18 {
        workers::ten_to_grows(n + 18, (s.len() - 1) as nat);
        workers::ten_to_positive(n + 17);
        assert(workers::ten_to(n + 18) == 10 * workers::ten_to(n + 17));
    }
}

// ---------------------------------------------------------------------------
// The computation
// ---------------------------------------------------------------------------

/// Whether `k / 10^places` is `m * 2^q`.
spec fn is_bound(k: Seq<char>, places: nat, m: nat, q: int) -> bool {
    &&& text::all_digits(k)
    &&& k[0] != '0'
    &&& k.len() <= 2000
    &&& places <= 1100
    &&& if q >= 0 {
        places == 0 && text::digits_value(k) == m * workers::power(2, q as nat)
    } else {
        places == -q && text::digits_value(k) == m * workers::power(5, (-q) as nat)
    }
}

/// `m * 2^q`, as digits and how many of them stand behind the point.
fn bound(m: u64, q: i32) -> (r: (Vec<char>, usize))
    requires
        0 < m <= 100_000_000_000_000_000,
        -1100 <= q <= 1100,
    ensures
        is_bound(r.0@, r.1 as nat, m as nat, q as int),
{
    if q >= 0 {
        let k = workers::big(m as u128, 2, q as usize);
        proof {
            few_digits(k@, m as nat, 2, q as nat);
        }
        (k, 0)
    } else {
        let places: usize = (-q) as usize;
        let k = workers::big(m as u128, 5, places);
        proof {
            few_digits(k@, m as nat, 5, places as nat);
        }
        (k, places)
    }
}

/// Whether a reading is one of the number `d`.
spec fn reads(x: Reading, lead: nat, d: Decimal) -> bool {
    &&& forall|i: int| 0 <= i < x.digits@.len() ==> text::is_digit(#[trigger] x.digits@[i])
    &&& lead == workers::leading_zeros(x.digits@)
    &&& lead < x.digits@.len()
    &&& -12 * workers::EXPONENT_CAP <= x.point <= 12 * workers::EXPONENT_CAP
    &&& d.digits == x.digits@
    &&& d.point == x.point
}

/// Whether a number is at least, and whether it is more than, `m * 2^q`.
fn weigh(x: &Reading, lead: usize, m: u64, q: i32, Ghost(d): Ghost<Decimal>) -> (r: (bool, bool))
    requires
        reads(*x, lead as nat, d),
        0 < m <= 100_000_000_000_000_000,
        -1100 <= q <= 1100,
    ensures
        r.0 == reaches(d, m as nat, q as int),
        r.1 == exceeds(d, m as nat, q as int),
{
    let (k, places) = bound(m, q);
    let r = workers::compare(x, lead, &k, places);
    proof {
        let v = text::digits_value(k@);
        assert(workers::at_least(d, v, places as nat) == r.0);
        assert(workers::above(d, v, places as nat) == r.1);
    }
    r
}

/// The double that is nearest to a number.
fn nearest(x: &Reading, lead: usize, Ghost(d): Ghost<Decimal>) -> (r: (u64, i32))
    requires
        reads(*x, lead as nat, d),
        !workers::is_zero(d),
        !workers::is_infinite(d),
    ensures
        (r.0 as nat, r.1 as int) == double_of(d),
        0 < r.0 < TWO_53,
        LEAST_EXPONENT <= r.1 <= GREATEST_EXPONENT + 1,
{
    let mut q: i32 = LEAST_EXPONENT;
    let mut above: i32 = GREATEST_EXPONENT;
    proof {
        finite_is_below(d);
    }
    while q < above
        invariant
            reads(*x, lead as nat, d),
            LEAST_EXPONENT <= q <= above <= GREATEST_EXPONENT,
            forall|i: int| LEAST_EXPONENT <= i < q ==> #[trigger] reaches(d, TWO_53 as nat, i),
            !reaches(d, TWO_53 as nat, above as int),
        decreases above - q,
    {
        let mid: i32 = q + (above - q) / 2;
        if weigh(x, lead, TWO_53, mid, Ghost(d)).0 {
            proof {
                assert forall|i: int| LEAST_EXPONENT <= i < mid + 1 implies #[trigger] reaches(
                    d,
                    TWO_53 as nat,
                    i,
                ) by {
                    reaches_smaller(d, TWO_53 as nat, i, mid as int);
                }
            }
            q = mid + 1;
        } else {
            above = mid;
        }
    }
    proof {
        exponent_is(d, LEAST_EXPONENT as int, q as int);
        no_units_are_reached(d, q as int);
    }
    let mut units: u64 = 0;
    let mut beyond: u64 = TWO_53;
    while beyond - units > 1
        invariant
            reads(*x, lead as nat, d),
            LEAST_EXPONENT <= q <= GREATEST_EXPONENT,
            0 <= units < beyond <= TWO_53,
            reaches(d, units as nat, q as int),
            !reaches(d, beyond as nat, q as int),
        decreases beyond - units,
    {
        let mid: u64 = units + (beyond - units) / 2;
        if weigh(x, lead, mid, q, Ghost(d)).0 {
            units = mid;
        } else {
            beyond = mid;
        }
    }
    assert(beyond == units + 1);
    proof {
        whole_units_are(d, q as int, units as nat);
        if q > LEAST_EXPONENT {
            assert(reaches(d, TWO_53 as nat, q - 1));
            units_double(d, (TWO_53 / 2) as nat, q - 1);
            if units + 1 <= TWO_53 / 2 {
                reaches_fewer(d, (units + 1) as nat, (TWO_53 / 2) as nat, q as int);
            }
        } else if units == 0 {
            let p = workers::power(5, 1075);
            assert(1 * p == p) by (nonlinear_arith);
        }
    }
    let half = weigh(x, lead, 2 * units + 1, q - 1, Ghost(d));
    let m: u64 = if half.1 || (half.0 && units % 2 == 1) {
        units + 1
    } else {
        units
    };
    if m == TWO_53 {
        (TWO_53 / 2, q + 1)
    } else {
        (m, q)
    }
}

/// Whether the double `m * 2^q`, which lies between the two halves, is the nearest to a number.
fn fits(
    c: &Reading,
    m: u64,
    q: i32,
    lower: &Vec<char>,
    lower_places: usize,
    upper: &Vec<char>,
    upper_places: usize,
    Ghost(d): Ghost<Decimal>,
) -> (r: bool)
    requires
        reads(*c, 0, d),
        is_bound(
            lower@,
            lower_places as nat,
            half_below(m as nat, q as int).0,
            half_below(m as nat, q as int).1,
        ),
        is_bound(upper@, upper_places as nat, 2 * m as nat + 1, q - 1),
    ensures
        r == stands_for(d, m as nat, q as int),
{
    let low = workers::compare(c, 0, lower, lower_places);
    let high = workers::compare(c, 0, upper, upper_places);
    proof {
        let v = text::digits_value(lower@);
        assert(workers::at_least(d, v, lower_places as nat) == low.0);
        assert(workers::above(d, v, lower_places as nat) == low.1);
        let w = text::digits_value(upper@);
        assert(workers::at_least(d, w, upper_places as nat) == high.0);
        assert(workers::above(d, w, upper_places as nat) == high.1);
    }
    if m % 2 == 0 {
        low.0 && !high.1
    } else {
        low.1 && !high.0
    }
}

/// The digits of the next whole number.
fn next(v: &Vec<char>) -> (r: Vec<char>)
    requires
        forall|i: int| 0 <= i < v@.len() ==> text::is_digit(#[trigger] v@[i]),
    ensures
        r@ == next_digits(v@),
{
    let n: usize = v.len();
    let mut i: usize = n;
    assert(v@.take(n as int) =~= v@);
    assert(next_digits(v@) + workers::zeros(0) =~= next_digits(v@));
    while i > 0 && v[i - 1] == '9'
        invariant
            i <= n,
            n == v@.len(),
            next_digits(v@) == next_digits(v@.take(i as int)) + workers::zeros((n - i) as nat),
        decreases i,
    {
        proof {
            let s = v@.take(i as int);
            assert(s.drop_last() =~= v@.take(i - 1));
            assert(next_digits(s) == next_digits(s.drop_last()).push('0'));
            assert(next_digits(s.drop_last()).push('0') + workers::zeros((n - i) as nat)
                =~= next_digits(s.drop_last()) + workers::zeros((n - i + 1) as nat));
        }
        i = i - 1;
    }
    let mut out: Vec<char> = Vec::new();
    let ghost s = v@.take(i as int);
    if i == 0 {
        out.push('1');
        assert(s.len() == 0);
    } else {
        let mut j: usize = 0;
        while j < i - 1
            invariant
                j <= i - 1,
                0 < i <= v@.len(),
                out@ == v@.take(j as int),
            decreases i - j,
        {
            out.push(v[j]);
            j = j + 1;
            assert(out@ =~= v@.take(j as int));
        }
        let low: u8 = (v[i - 1] as u32 - 48) as u8;
        out.push((49 + low) as char);
        assert(s.drop_last() =~= v@.take(i - 1));
    }
    assert(out@ =~= next_digits(s));
    let mut k: usize = i;
    assert(out@ =~= next_digits(s) + workers::zeros(0));
    while k < n
        invariant
            i <= k <= n,
            out@ == next_digits(s) + workers::zeros((k - i) as nat),
        decreases n - k,
    {
        out.push('0');
        k = k + 1;
        assert(out@ =~= next_digits(s) + workers::zeros((k - i) as nat));
    }
    out
}

/// The first `n` digits.
fn first(v: &Vec<char>, n: usize) -> (r: Vec<char>)
    requires
        n <= v@.len(),
    ensures
        r@ == v@.take(n as int),
{
    let mut out: Vec<char> = Vec::new();
    let mut j: usize = 0;
    while j < n
        invariant
            j <= n <= v@.len(),
            out@ == v@.take(j as int),
        decreases n - j,
    {
        out.push(v[j]);
        j = j + 1;
        assert(out@ =~= v@.take(j as int));
    }
    out
}

/// The fewest digits that stand for a double.
#[verifier::rlimit(40)]
fn shortest(m: u64, q: i32, negative: bool) -> (r: Reading)
    requires
        0 < m < TWO_53,
        LEAST_EXPONENT <= q <= GREATEST_EXPONENT + 1,
    ensures
        ({
            let c = shortest_from(m as nat, q as int, 1);
            &&& r.digits@ == c.digits
            &&& r.point == c.point
        }),
        r.negative == negative,
        text::all_digits(r.digits@),
        r.digits@[0] != '0',
        -2000 <= r.point <= 4000,
{
    let (e, places) = bound(m, q);
    let ghost whole = expansion(m as nat, q as int);
    proof {
        digits_are_printed(e@);
    }
    let point: i128 = e.len() as i128 - places as i128;
    assert(whole.digits == e@ && whole.point == point && !whole.negative);
    let (lm, lq): (u64, i32) = if 2 * m == TWO_53 && q > LEAST_EXPONENT {
        (4 * m - 1, q - 2)
    } else {
        (2 * m - 1, q - 1)
    };
    let (lower, lower_places) = bound(lm, lq);
    let (upper, upper_places) = bound(2 * m + 1, q - 1);
    let mut n: usize = 1;
    while n < e.len()
        invariant
            1 <= n <= e@.len(),
            e@.len() <= 2000,
            0 < m < TWO_53,
            LEAST_EXPONENT <= q <= GREATEST_EXPONENT + 1,
            text::all_digits(e@),
            e@[0] != '0',
            -1100 <= point <= 2000,
            whole == expansion(m as nat, q as int),
            whole.digits == e@ && whole.point == point && !whole.negative,
            is_bound(
                lower@,
                lower_places as nat,
                half_below(m as nat, q as int).0,
                half_below(m as nat, q as int).1,
            ),
            is_bound(upper@, upper_places as nat, 2 * m as nat + 1, q - 1),
            shortest_from(m as nat, q as int, 1) == shortest_from(m as nat, q as int, n as int),
        decreases e@.len() - n,
    {
        let head = first(&e, n);
        let up = next(&head);
        proof {
            assert(head@[0] == e@[0]);
            next_digits_are_digits(head@);
        }
        let up_point: i128 = point + up.len() as i128 - n as i128;
        let low = Reading { negative, digits: head, point };
        let high = Reading { negative, digits: up, point: up_point };
        let ghost low_d = cut(whole, n as int);
        let ghost high_d = raised(whole, n as int);
        assert(workers::leading_zeros(low.digits@) == 0);
        assert(workers::leading_zeros(high.digits@) == 0);
        let low_fits = fits(
            &low,
            m,
            q,
            &lower,
            lower_places,
            &upper,
            upper_places,
            Ghost(low_d),
        );
        let high_fits = fits(
            &high,
            m,
            q,
            &lower,
            lower_places,
            &upper,
            upper_places,
            Ghost(high_d),
        );
        if high_fits && (!low_fits || e[n] >= '5') {
            return high;
        }
        if low_fits {
            return low;
        }
        n = n + 1;
    }
    Reading { negative, digits: e, point }
}

/// What a number is shown as: the fewest digits that stand for its double.
pub(crate) fn shown(x: &Reading, lead: usize, Ghost(d): Ghost<Decimal>) -> (r: Reading)
    requires
        forall|i: int| 0 <= i < x.digits@.len() ==> text::is_digit(#[trigger] x.digits@[i]),
        lead == workers::leading_zeros(x.digits@),
        lead < x.digits@.len(),
        -12 * workers::EXPONENT_CAP <= x.point <= 12 * workers::EXPONENT_CAP,
        d.digits == x.digits@,
        d.point == x.point,
        !workers::is_zero(d),
        !workers::is_infinite(d),
    ensures
        r.digits@ == shown_digits(d).digits,
        r.point == shown_digits(d).point,
        r.negative == x.negative,
        text::all_digits(r.digits@),
        r.digits@[0] != '0',
        -2000 <= r.point <= 4000,
{
    let (m, q) = nearest(x, lead, Ghost(d));
    shortest(m, q, x.negative)
}

// ---------------------------------------------------------------------------
// Laws
// ---------------------------------------------------------------------------

/// All digits of a double lie between the two halves around it.
proof fn expansion_is_between(m: nat, q: int)
    requires
        m >= 1,
    ensures
        ({
            let e = expansion(m, q);
            let (lm, lq) = half_below(m, q);
            &&& exceeds(e, lm, lq) && reaches(e, lm, lq)
            &&& !reaches(e, 2 * m + 1, q - 1) && !exceeds(e, 2 * m + 1, q - 1)
        }),
{
    reveal_with_fuel(workers::power, 3);
    let two = workers::power(2, 1);
    let four = workers::power(2, 2);
    assert(two == 2 && four == 4);
    assert(m * two == 2 * m && m * four == 4 * m) by (nonlinear_arith)
        requires
            two == 2,
            four == 4,
    ;
    expansion_against(m, q, (2 * m + 1) as nat, 1);
    let (lm, lq) = half_below(m, q);
    expansion_against(m, q, lm, (q - lq) as nat);
}

/// A double against a number of halves or quarters of its unit.
proof fn expansion_against(m: nat, q: int, k: nat, steps: nat)
    requires
        m >= 1,
        1 <= steps <= 2,
    ensures
        reaches(expansion(m, q), k, q - steps) == (m * workers::power(2, steps) >= k),
        exceeds(expansion(m, q), k, q - steps) == (m * workers::power(2, steps) > k),
{
    reveal_with_fuel(workers::power, 3);
    reveal_with_fuel(workers::ten_to, 3);
    let e = expansion(m, q);
    let low = q - steps;
    let part = workers::power(2, steps);
    assert(part == 2 || part == 4);
    if low >= 0 {
        let p = workers::power(2, low as nat);
        text::printed_number_reads_back(m * workers::power(2, q as nat));
        workers::power_sum(2, steps, low as nat);
        workers::power_positive(2, low as nat);
        assert(m * (part * p) == (m * part) * p) by (nonlinear_arith);
        scaled_order(m * part, k, p);
        assert((m * (part * p)) * 1 == m * (part * p)) by (nonlinear_arith);
    } else if q >= 0 {
        // The point lies behind the last digit, and `low` is -1 or -2.
        let p = workers::power(2, q as nat);
        let down = (-low) as nat;
        let five = workers::power(5, down);
        let ten = workers::ten_to(down);
        text::printed_number_reads_back(m * p);
        workers::power_sum(2, q as nat, down);
        tens_are_twos_and_fives(down);
        workers::power_positive(5, down);
        assert(q == 0 || (q == 1 && steps == 2));
        assert(part == p * workers::power(2, down));
        let two = workers::power(2, down);
        assert((m * p) * (two * five) == (m * (p * two)) * five) by (nonlinear_arith);
        scaled_order(m * part, k, five);
    } else {
        let p = workers::power(5, (-q) as nat);
        let five = workers::power(5, steps);
        let ten = workers::ten_to(steps);
        text::printed_number_reads_back(m * p);
        workers::power_sum(5, steps, (-q) as nat);
        tens_are_twos_and_fives(steps);
        workers::power_positive(5, (steps + (-q)) as nat);
        let all = workers::power(5, (steps + (-q)) as nat);
        assert(all == five * p);
        assert((m * p) * (part * five) == (m * part) * (five * p)) by (nonlinear_arith);
        scaled_order(m * part, k, all);
    }
}

proof fn tens_are_twos_and_fives(n: nat)
    requires
        n <= 2,
    ensures
        workers::ten_to(n) == workers::power(2, n) * workers::power(5, n),
{
    reveal_with_fuel(workers::power, 3);
    reveal_with_fuel(workers::ten_to, 3);
    let two = workers::power(2, n);
    let five = workers::power(5, n);
    assert((two == 1 && five == 1) || (two == 2 && five == 5) || (two == 4 && five == 25));
    assert(two * five == (if two == 1 {
        1int
    } else if two == 2 {
        10
    } else {
        100
    })) by (nonlinear_arith)
        requires
            (two == 1 && five == 1) || (two == 2 && five == 5) || (two == 4 && five == 25),
    ;
}

proof fn scaled_order(a: nat, b: nat, p: nat)
    requires
        p >= 1,
    ensures
        (a * p >= b * p) == (a >= b),
        (a * p > b * p) == (a > b),
{
    if a >= b {
        assert(a * p >= b * p) by (nonlinear_arith)
            requires
                a >= b,
        ;
    }
    if a > b {
        assert(a * p > b * p) by (nonlinear_arith)
            requires
                a > b,
                p >= 1,
        ;
    }
    if a < b {
        assert(a * p < b * p) by (nonlinear_arith)
            requires
                a < b,
                p >= 1,
        ;
    }
    if a <= b {
        assert(a * p <= b * p) by (nonlinear_arith)
            requires
                a <= b,
        ;
    }
}

/// Whatever a double is shown as lies no further from it than half way to the doubles beside
/// it, and half way only where a half is rounded to it.
pub proof fn shown_digits_stand_for_their_double(m: nat, q: int, n: int)
    requires
        m >= 1,
    ensures
        stands_for(shortest_from(m, q, n), m, q),
    decreases expansion(m, q).digits.len() - n,
{
    let e = expansion(m, q);
    if n >= e.digits.len() {
        expansion_is_between(m, q);
    } else if !stands_for(raised(e, n), m, q) && !stands_for(cut(e, n), m, q) {
        shown_digits_stand_for_their_double(m, q, n + 1);
    }
}

/// A number between two doubles is rounded to the nearer one, and from half way to the one
/// with the even count of units.
pub proof fn numbers_round_to_the_nearest(d: Decimal, q: int, f: nat)
    requires
        reaches(d, f, q),
        !reaches(d, f + 1, q),
    ensures
        ({
            let r = rounded_units(d, q);
            &&& r == f || r == f + 1
            &&& exceeds(d, 2 * f + 1, q - 1) ==> r == f + 1
            &&& !reaches(d, 2 * f + 1, q - 1) ==> r == f
            &&& reaches(d, 2 * f + 1, q - 1) && !exceeds(d, 2 * f + 1, q - 1) ==> r % 2 == 0
        }),
{
    whole_units_are(d, q, f);
    if exceeds(d, 2 * f + 1, q - 1) {
        exceeding_reaches(d, 2 * f + 1, q - 1);
    }
}

proof fn exceeding_reaches(d: Decimal, m: nat, q: int)
    requires
        exceeds(d, m, q),
    ensures
        reaches(d, m, q),
{
}

/// The units of a double are the smallest of which a number has fewer than `2^53`, none being
/// smaller than `2^-1074`.
pub proof fn units_are_as_small_as_they_can_be(d: Decimal, from: int)
    requires
        -1074 <= from <= 971,
        !workers::is_infinite(d),
    ensures
        ({
            let q = exponent_from(d, from);
            &&& from <= q <= 971
            &&& !reaches(d, 9_007_199_254_740_992, q)
            &&& q > from ==> reaches(d, 9_007_199_254_740_992, q - 1)
        }),
    decreases 971 - from,
{
    finite_is_below(d);
    if from < 971 && reaches(d, TWO_53 as nat, from) {
        units_are_as_small_as_they_can_be(d, from + 1);
    }
}

/// Whether `n` digits of the expansion, cut off or raised, stand for the double.
pub open spec fn some_stand(m: nat, q: int, n: int) -> bool {
    stands_for(cut(expansion(m, q), n), m, q) || stands_for(raised(expansion(m, q), n), m, q)
}

/// A double is shown with as few digits as stand for it; where two of that length do, the one
/// is taken that the digit after it rounds to.
pub proof fn shown_digits_are_as_few_as_stand(m: nat, q: int, from: int) -> (n: int)
    requires
        from <= expansion(m, q).digits.len(),
    ensures
        from <= n <= expansion(m, q).digits.len(),
        forall|j: int| from <= j < n ==> !#[trigger] some_stand(m, q, j),
        n == expansion(m, q).digits.len() ==> shortest_from(m, q, from) == expansion(m, q),
        n < expansion(m, q).digits.len() ==> ({
            let e = expansion(m, q);
            let r = shortest_from(m, q, from);
            &&& r == cut(e, n) || r == raised(e, n)
            &&& stands_for(cut(e, n), m, q) && stands_for(raised(e, n), m, q) && '0' <= e.digits[n]
                <= '4' ==> r == cut(e, n)
            &&& stands_for(cut(e, n), m, q) && stands_for(raised(e, n), m, q) && '5' <= e.digits[n]
                <= '9' ==> r == raised(e, n)
            &&& stands_for(r, m, q)
        }),
    decreases expansion(m, q).digits.len() - from,
{
    if from >= expansion(m, q).digits.len() || some_stand(m, q, from) {
        from
    } else {
        let n = shown_digits_are_as_few_as_stand(m, q, from + 1);
        assert forall|j: int| from <= j < n implies !#[trigger] some_stand(m, q, j) by {}
        n
    }
}

} // verus!
