//! Worker-count expressions.
//!
//! A worker count is a positive integer (`4`) or a multiple of the available cores
//! (`1C`, `0.75C`), rounded up. The multiple is computed in decimal, so that what is
//! written is what is meant.

use vstd::prelude::*;
use vstd::string::*;

use crate::daemon::doubles;
use crate::text;

verus! {

/// Why a worker-count expression was refused.
#[derive(Debug)]
pub enum WorkersError {
    /// The expression could not be read.
    Malformed {
        /// The expression as received.
        expr: String,
        /// What is wrong with it.
        detail: String,
    },
}

// ---------------------------------------------------------------------------
// Model
// ---------------------------------------------------------------------------

/// Ten to the power `n`.
pub open spec fn ten_to(n: nat) -> nat
    decreases n,
{
    if n == 0 {
        1
    } else {
        10 * ten_to((n - 1) as nat)
    }
}

/// A decimal number: its sign, its digits, and how many of them stand before the point
/// (which may lie left or right of all of them).
pub struct Decimal {
    pub negative: bool,
    pub digits: Seq<char>,
    pub point: int,
}

/// The length of the run of digits that `s` begins with.
pub open spec fn digit_run(s: Seq<char>) -> nat
    decreases s.len(),
{
    if s.len() > 0 && text::is_digit(s[0]) {
        1 + digit_run(s.drop_first())
    } else {
        0
    }
}

/// Whether `s` begins with a sign.
pub open spec fn signed(s: Seq<char>) -> bool {
    s.len() > 0 && (s[0] == '+' || s[0] == '-')
}

/// `s` without a leading sign.
pub open spec fn unsigned(s: Seq<char>) -> Seq<char> {
    if signed(s) {
        s.drop_first()
    } else {
        s
    }
}

/// The exponent that the rest of a number writes: nothing, or `e` and an integer.
pub open spec fn exponent_of(w: Seq<char>) -> Option<int> {
    if w.len() == 0 {
        Some(0)
    } else if w[0] == 'e' || w[0] == 'E' {
        let x = w.drop_first();
        if text::all_digits(unsigned(x)) {
            Some(
                if signed(x) && x[0] == '-' {
                    -(text::digits_value(unsigned(x)) as int)
                } else {
                    text::digits_value(unsigned(x)) as int
                },
            )
        } else {
            None
        }
    } else {
        None
    }
}

/// The fraction digits after the integer digits, where a point follows.
pub open spec fn fraction_of(u: Seq<char>) -> Seq<char> {
    if u.len() > 0 && u[0] == '.' {
        u.drop_first().take(digit_run(u.drop_first()) as int)
    } else {
        Seq::empty()
    }
}

/// What stands after the fraction.
pub open spec fn after_fraction(u: Seq<char>) -> Seq<char> {
    if u.len() > 0 && u[0] == '.' {
        u.drop_first().skip(digit_run(u.drop_first()) as int)
    } else {
        u
    }
}

/// The decimal number that `s` writes: digits with an optional sign, point and exponent.
pub open spec fn decimal_of(s: Seq<char>) -> Option<Decimal> {
    let t = unsigned(s);
    let whole = t.take(digit_run(t) as int);
    let rest = t.skip(digit_run(t) as int);
    let fraction = fraction_of(rest);
    if whole.len() + fraction.len() == 0 {
        None
    } else {
        match exponent_of(after_fraction(rest)) {
            None => None,
            Some(e) => Some(
                Decimal {
                    negative: signed(s) && s[0] == '-',
                    digits: whole + fraction,
                    point: whole.len() + e,
                },
            ),
        }
    }
}

/// Whether `s` writes an infinity or a NaN.
pub open spec fn is_non_finite_word(s: Seq<char>) -> bool {
    let w = text::lowered(unsigned(s));
    w == "inf"@ || w == "infinity"@ || w == "nan"@
}

/// The number of zeros that the digits begin with.
pub open spec fn leading_zeros(digits: Seq<char>) -> nat
    decreases digits.len(),
{
    if digits.len() > 0 && digits[0] == '0' {
        1 + leading_zeros(digits.drop_first())
    } else {
        0
    }
}

/// `base` to the power `n`.
pub open spec fn power(base: nat, n: nat) -> nat
    decreases n,
{
    if n == 0 {
        1
    } else {
        base * power(base, (n - 1) as nat)
    }
}

/// `2^54 - 1`.
const ONES: u128 = 18_014_398_509_481_983;

/// The least number that is nearer to `2^1024` than to a double, or as near: from here on a
/// double is infinite.
pub open spec fn infinite_from() -> nat {
    (power(2, 1024) - power(2, 970)) as nat
}

/// Half of the least positive double, `2^-1075`, times `10^1075`. Up to here a double is zero.
pub open spec fn zero_until() -> nat {
    power(5, 1075)
}

/// Whether the number, its sign aside, is at least `k / 10^places`.
pub open spec fn at_least(d: Decimal, k: nat, places: nat) -> bool {
    let e = d.point + places - d.digits.len();
    let value = text::digits_value(d.digits);
    if e >= 0 {
        value * ten_to(e as nat) >= k
    } else {
        value >= k * ten_to((-e) as nat)
    }
}

/// Whether the number, its sign aside, is more than `k / 10^places`.
pub open spec fn above(d: Decimal, k: nat, places: nat) -> bool {
    let e = d.point + places - d.digits.len();
    let value = text::digits_value(d.digits);
    if e >= 0 {
        value * ten_to(e as nat) > k
    } else {
        value > k * ten_to((-e) as nat)
    }
}

/// Whether a number is infinite as a double.
pub open spec fn is_infinite(d: Decimal) -> bool {
    at_least(d, infinite_from(), 0)
}

/// Whether a number is zero as a double.
pub open spec fn is_zero(d: Decimal) -> bool {
    !above(d, zero_until(), 1075)
}

/// Whether a number is positive and finite as a double.
pub open spec fn usable(d: Decimal) -> bool {
    !d.negative && !is_zero(d) && !is_infinite(d)
}

/// `s` without the zeros that it ends with.
pub open spec fn without_trailing_zeros(s: Seq<char>) -> Seq<char>
    decreases s.len(),
{
    if s.len() > 0 && s.last() == '0' {
        without_trailing_zeros(s.drop_last())
    } else {
        s
    }
}

/// The digits from the first to the last that is not a zero.
pub open spec fn significant(digits: Seq<char>) -> Seq<char> {
    without_trailing_zeros(digits.skip(leading_zeros(digits) as int))
}

/// `n` zeros.
pub open spec fn zeros(n: nat) -> Seq<char> {
    Seq::new(n, |i: int| '0')
}

/// The sign that a number is shown with.
pub open spec fn sign_text(negative: bool) -> Seq<char> {
    if negative {
        "-"@
    } else {
        ""@
    }
}

/// A number behind its sign, without an exponent or zeros that say nothing.
pub open spec fn plain_text(sign: Seq<char>, d: Decimal) -> Seq<char> {
    let lead = leading_zeros(d.digits);
    let p = d.point - lead;
    let s = significant(d.digits);
    if p <= 0 {
        sign + "0."@ + zeros((-p) as nat) + s
    } else if p >= s.len() {
        sign + s + zeros((p - s.len()) as nat)
    } else {
        sign + s.take(p) + "."@ + s.skip(p)
    }
}

/// A number as it is shown: its double, written with the fewest digits that tell it from
/// others.
pub open spec fn number_text(d: Decimal) -> Seq<char> {
    let sign = sign_text(d.negative);
    if is_zero(d) {
        sign + "0"@
    } else if is_infinite(d) {
        sign + "inf"@
    } else {
        plain_text(sign, doubles::shown_digits(d))
    }
}

/// An infinity or a NaN, as it is shown.
pub open spec fn non_finite_text(s: Seq<char>) -> Seq<char> {
    if text::lowered(unsigned(s)) == "nan"@ {
        "NaN"@
    } else {
        sign_text(signed(s) && s[0] == '-') + "inf"@
    }
}

/// `a / b`, rounded up.
pub open spec fn ceil_div(a: nat, b: nat) -> nat {
    (a + b - 1) as nat / b
}

/// `cores` times the number, rounded up.
pub open spec fn scaled(cores: nat, d: Decimal) -> nat {
    let value = text::digits_value(d.digits);
    let n = d.digits.len();
    if d.point >= n {
        cores * value * ten_to((d.point - n) as nat)
    } else {
        ceil_div(cores * value, ten_to((n - d.point) as nat))
    }
}

/// The greatest count: the largest `isize` as a double. Where a double cannot hold that many
/// digits, this is one more.
pub open spec fn greatest_count() -> nat {
    if isize::MAX < doubles::TWO_53 {
        isize::MAX as nat
    } else {
        (isize::MAX + 1) as nat
    }
}

/// `n`, at least 1 and at most the greatest count.
pub open spec fn clamped(n: nat) -> nat {
    if n < 1 {
        1
    } else if n > greatest_count() {
        greatest_count()
    } else {
        n
    }
}

/// What is wrong with a text that is not a `usize`.
pub open spec fn int_fault(s: Seq<char>) -> Seq<char> {
    let d = text::without_plus(s);
    let run = d.take(digit_run(d) as int);
    if s.len() == 0 {
        "cannot parse integer from empty string"@
    } else if text::digits_value(run) > usize::MAX {
        "number too large to fit in target type"@
    } else {
        "invalid digit found in string"@
    }
}

/// Whether an expression is of the core-multiplier form.
pub open spec fn is_multiple(t: Seq<char>) -> bool {
    t.len() > 0 && (t.last() == 'C' || t.last() == 'c')
}

/// The worker count that a trimmed expression asks for, or what is wrong with it.
pub open spec fn workers(t: Seq<char>, cores: nat) -> Result<nat, Seq<char>> {
    if t.len() == 0 {
        Err("expression is empty"@)
    } else if is_multiple(t) {
        let number = t.drop_last();
        if is_non_finite_word(number) {
            Err("core-multiplier must be positive and finite, got "@ + non_finite_text(number))
        } else {
            match decimal_of(number) {
                None => Err(
                    "core-multiplier prefix `"@ + number + "` is not a number: "@ + (
                    if number.len() == 0 {
                        "cannot parse float from empty string"@
                    } else {
                        "invalid float literal"@
                    }),
                ),
                Some(d) => if usable(d) {
                    Ok(clamped(scaled(cores, d)))
                } else {
                    Err("core-multiplier must be positive and finite, got "@ + number_text(d))
                },
            }
        }
    } else {
        match text::unsigned_value(t, usize::MAX as nat) {
            None => Err("literal-integer parse failed: "@ + int_fault(t)),
            Some(n) => if n == 0 {
                Err("literal-integer must be >= 1"@)
            } else {
                Ok(n)
            },
        }
    }
}

// ---------------------------------------------------------------------------
// Facts about digits
// ---------------------------------------------------------------------------

pub(crate) proof fn ten_to_sum(a: nat, b: nat)
    ensures
        ten_to(a + b) == ten_to(a) * ten_to(b),
    decreases a,
{
    if a > 0 {
        ten_to_sum((a - 1) as nat, b);
        let x = ten_to((a - 1) as nat);
        let y = ten_to(b);
        assert((10 * x) * y == 10 * (x * y)) by (nonlinear_arith);
    } else {
        assert(1 * ten_to(b) == ten_to(b)) by (nonlinear_arith);
    }
}

pub(crate) proof fn ten_to_positive(n: nat)
    ensures
        ten_to(n) >= 1,
    decreases n,
{
    if n > 0 {
        ten_to_positive((n - 1) as nat);
    }
}

/// The value of a run of digits that is cut in two.
proof fn value_of_cut(s: Seq<char>, k: int)
    requires
        0 <= k <= s.len(),
        forall|i: int| 0 <= i < s.len() ==> text::is_digit(#[trigger] s[i]),
    ensures
        text::digits_value(s) == text::digits_value(s.take(k)) * ten_to((s.len() - k) as nat)
            + text::digits_value(s.skip(k)),
    decreases s.len(),
{
    if k == s.len() {
        assert(s.take(k) =~= s);
        assert(s.skip(k) =~= Seq::empty());
        let v = text::digits_value(s);
        assert(v * 1 == v) by (nonlinear_arith);
    } else {
        let t = s.drop_last();
        value_of_cut(t, k);
        assert(t.take(k) =~= s.take(k));
        assert(t.skip(k) =~= s.skip(k).drop_last());
        assert(s.skip(k).last() == s.last());
        let a = text::digits_value(s.take(k));
        let p = ten_to((t.len() - k) as nat);
        assert((a * p) * 10 == a * (10 * p)) by (nonlinear_arith);
        assert(ten_to((s.len() - k) as nat) == 10 * p);
    }
}

/// A run of digits in front of which zeros stand.
proof fn value_without_zeros(s: Seq<char>, k: int)
    requires
        0 <= k <= leading_zeros(s),
    ensures
        k <= s.len(),
        text::digits_value(s.take(k)) == 0,
    decreases k,
{
    if k > 0 {
        zeros_are_zeros(s);
        value_without_zeros(s, k - 1);
        assert(s.take(k).drop_last() =~= s.take(k - 1));
        assert(s.take(k).last() == '0');
    }
}

proof fn zeros_are_zeros(s: Seq<char>)
    ensures
        leading_zeros(s) <= s.len(),
        forall|i: int| 0 <= i < leading_zeros(s) ==> s[i] == '0',
        leading_zeros(s) < s.len() ==> s[leading_zeros(s) as int] != '0',
    decreases s.len(),
{
    if s.len() > 0 && s[0] == '0' {
        zeros_are_zeros(s.drop_first());
        assert forall|i: int| 0 <= i < leading_zeros(s) implies s[i] == '0' by {
            if i > 0 {
                assert(s[i] == s.drop_first()[i - 1]);
            }
        }
    }
}

proof fn run_is_digits(s: Seq<char>)
    ensures
        digit_run(s) <= s.len(),
        forall|i: int| 0 <= i < digit_run(s) ==> text::is_digit(#[trigger] s[i]),
        digit_run(s) < s.len() ==> !text::is_digit(s[digit_run(s) as int]),
    decreases s.len(),
{
    if s.len() > 0 && text::is_digit(s[0]) {
        run_is_digits(s.drop_first());
        assert forall|i: int| 0 <= i < digit_run(s) implies text::is_digit(#[trigger] s[i]) by {
            if i > 0 {
                assert(s[i] == s.drop_first()[i - 1]);
            }
        }
    }
}

/// The run is as long as it can be.
proof fn run_is_longest(s: Seq<char>, k: int)
    requires
        0 <= k <= s.len(),
        forall|i: int| 0 <= i < k ==> text::is_digit(#[trigger] s[i]),
        k < s.len() ==> !text::is_digit(s[k]),
    ensures
        digit_run(s) == k,
{
    run_is_digits(s);
    if digit_run(s) < k {
        assert(text::is_digit(s[digit_run(s) as int]));
    } else if digit_run(s) > k {
        assert(text::is_digit(s[k]));
    }
}

proof fn ceil_of_split(a: nat, b: nat, q: nat, r: nat)
    requires
        b > 0,
        a == q * b + r,
        r < b,
    ensures
        ceil_div(a, b) == q + (if r > 0 {
            1nat
        } else {
            0nat
        }),
{
    if r > 0 {
        assert(((q + 1) * b + (r - 1)) / (b as int) == q + 1) by (nonlinear_arith)
            requires
                b > 0,
                0 < r < b,
        ;
        assert((q + 1) * b == q * b + b) by (nonlinear_arith);
    } else {
        assert((q * b + (b - 1)) / (b as int) == q) by (nonlinear_arith)
            requires
                b > 0,
        ;
    }
}

/// One step of a multiplication from the last digit to the first.
proof fn carry_step(cores: nat, d: nat, rest: nat, p: nat, carry: nat, rem: nat)
    requires
        d <= 9,
        carry <= cores,
        cores * rest == carry * p + rem,
        rem < p,
    ensures
        ({
            let t = cores * d + carry;
            &&& t <= 10 * cores
            &&& cores * (d * p + rest) == (t / 10) * (10 * p) + ((t % 10) * p + rem)
            &&& (t % 10) * p + rem < 10 * p
            &&& ((t % 10) * p + rem > 0 <==> t % 10 > 0 || rem > 0)
        }),
{
    let t = cores * d + carry;
    let q = t / 10;
    let r = t % 10;
    assert(cores * d <= cores * 9) by (nonlinear_arith)
        requires
            d <= 9,
    ;
    assert(cores * (d * p + rest) == (cores * d) * p + cores * rest) by (nonlinear_arith);
    assert((cores * d) * p + (carry * p + rem) == t * p + rem) by (nonlinear_arith)
        requires
            t == cores * d + carry,
    ;
    assert(t == 10 * q + r);
    assert((10 * q + r) * p == q * (10 * p) + r * p) by (nonlinear_arith);
    assert(r * p <= 9 * p) by (nonlinear_arith)
        requires
            r <= 9,
    ;
    assert(r > 0 ==> r * p >= p) by (nonlinear_arith)
        requires
            p >= 0,
    ;
    assert(r == 0 ==> r * p == 0) by (nonlinear_arith);
}

// ---------------------------------------------------------------------------
// Reading a decimal number
// ---------------------------------------------------------------------------

/// The end of the run of digits that begins at `from`.
fn run_end(chars: &Vec<char>, from: usize) -> (to: usize)
    requires
        from <= chars@.len(),
    ensures
        from <= to <= chars@.len(),
        to - from == digit_run(chars@.skip(from as int)),
{
    let mut i: usize = from;
    while i < chars.len() && '0' <= chars[i] && chars[i] <= '9'
        invariant
            from <= i <= chars@.len(),
            forall|k: int|
                0 <= k < i - from ==> text::is_digit(#[trigger] chars@.skip(from as int)[k]),
        decreases chars@.len() - i,
    {
        i = i + 1;
    }
    proof {
        run_is_longest(chars@.skip(from as int), i - from);
    }
    i
}

/// Beyond this an exponent outweighs any number of digits.
pub const EXPONENT_CAP: u128 = 1_000_000_000_000_000_000_000_000_000_000;

/// Two positions of a point that are equal, or both far to the same side.
pub open spec fn same_point(a: int, b: int) -> bool {
    ||| a == b
    ||| a >= 500_000_000_000_000_000_000_000_000_000 && b >= 500_000_000_000_000_000_000_000_000_000
    ||| a <= -500_000_000_000_000_000_000_000_000_000 && b
        <= -500_000_000_000_000_000_000_000_000_000
}

/// The value of a run of digits, where it is below the cap.
fn capped_value(chars: &Vec<char>, from: usize) -> (r: u128)
    requires
        from <= chars@.len(),
        forall|i: int| from <= i < chars@.len() ==> text::is_digit(#[trigger] chars@[i]),
    ensures
        r <= 10 * EXPONENT_CAP + 9,
        r < EXPONENT_CAP ==> r == text::digits_value(chars@.skip(from as int)),
        r >= EXPONENT_CAP ==> text::digits_value(chars@.skip(from as int)) >= EXPONENT_CAP,
{
    let ghost all = chars@.skip(from as int);
    let mut i: usize = from;
    let mut value: u128 = 0;
    while i < chars.len()
        invariant
            from <= i <= chars@.len(),
            all == chars@.skip(from as int),
            forall|k: int| from <= k < chars@.len() ==> text::is_digit(#[trigger] chars@[k]),
            value <= 10 * EXPONENT_CAP + 9,
            value < EXPONENT_CAP ==> value == text::digits_value(all.take(i - from)),
            value >= EXPONENT_CAP ==> text::digits_value(all.take(i - from)) >= EXPONENT_CAP,
        decreases chars@.len() - i,
    {
        let c: char = chars[i];
        proof {
            assert(all.take(i - from + 1).drop_last() =~= all.take(i - from));
            assert(all.take(i - from + 1).last() == c);
        }
        if value < EXPONENT_CAP {
            value = value * 10 + (c as u32 - 48) as u128;
        }
        i = i + 1;
    }
    assert(all.take(chars@.len() - from) =~= all);
    value
}

/// A number that was read.
pub(crate) struct Reading {
    pub(crate) negative: bool,
    pub(crate) digits: Vec<char>,
    pub(crate) point: i128,
}

/// The exponent that begins at `from`, capped.
fn read_exponent(chars: &Vec<char>, from: usize) -> (r: Option<i128>)
    requires
        from <= chars@.len(),
    ensures
        match r {
            None => exponent_of(chars@.skip(from as int)) is None,
            Some(e) => exponent_of(chars@.skip(from as int)) matches Some(x) && (e == x || (e
                >= EXPONENT_CAP && x >= EXPONENT_CAP) || (e <= -EXPONENT_CAP && x
                <= -EXPONENT_CAP)) && -11 * EXPONENT_CAP <= e <= 11 * EXPONENT_CAP,
        },
{
    let n: usize = chars.len();
    let ghost w = chars@.skip(from as int);
    if from == n {
        return Some(0);
    }
    if !(chars[from] == 'e' || chars[from] == 'E') {
        return None;
    }
    let ghost x = w.drop_first();
    assert(x =~= chars@.skip(from + 1));
    let mut start: usize = from + 1;
    let mut negative = false;
    if start < n && (chars[start] == '+' || chars[start] == '-') {
        negative = chars[start] == '-';
        start = start + 1;
    }
    assert(unsigned(x) =~= chars@.skip(start as int));
    let end: usize = run_end(chars, start);
    proof {
        run_is_digits(unsigned(x));
    }
    if end != n || start == n {
        assert(!text::all_digits(unsigned(x))) by {
            if end != n {
                assert(!text::is_digit(unsigned(x)[end - start]));
            }
        }
        return None;
    }
    assert(text::all_digits(unsigned(x)));
    assert forall|i: int| start <= i < chars@.len() implies text::is_digit(#[trigger] chars@[i]) by {
        assert(chars@[i] == unsigned(x)[i - start]);
    }
    let value: u128 = capped_value(chars, start);
    if negative {
        Some(-(value as i128))
    } else {
        Some(value as i128)
    }
}

/// Reads a decimal number.
#[verifier::rlimit(40)]
fn read_decimal(s: &str) -> (r: Option<Reading>)
    ensures
        match r {
            None => decimal_of(s@) is None,
            Some(x) => decimal_of(s@) matches Some(d) && x.negative == d.negative && x.digits@
                == d.digits && same_point(x.point as int, d.point) && -12 * EXPONENT_CAP <= x.point
                <= 12 * EXPONENT_CAP,
        },
{
    let chars = text::chars_of(s);
    let n: usize = chars.len();
    let mut start: usize = 0;
    let mut negative = false;
    if n > 0 && (chars[0] == '+' || chars[0] == '-') {
        negative = chars[0] == '-';
        start = 1;
    }
    let ghost t = unsigned(s@);
    assert(t =~= chars@.skip(start as int));
    let whole_end: usize = run_end(&chars, start);
    let ghost rest = t.skip(digit_run(t) as int);
    assert(rest =~= chars@.skip(whole_end as int));
    let mut digits: Vec<char> = Vec::new();
    let mut i: usize = start;
    while i < whole_end
        invariant
            start <= i <= whole_end <= chars@.len(),
            t == chars@.skip(start as int),
            digits@ == t.take(i - start),
        decreases whole_end - i,
    {
        digits.push(chars[i]);
        i = i + 1;
        assert(digits@ =~= t.take(i - start));
    }
    let ghost whole = t.take(digit_run(t) as int);
    assert(digits@ =~= whole);
    let mut after: usize = whole_end;
    if whole_end < n && chars[whole_end] == '.' {
        let from: usize = whole_end + 1;
        assert(rest.drop_first() =~= chars@.skip(from as int));
        let to: usize = run_end(&chars, from);
        let ghost fraction = fraction_of(rest);
        let mut j: usize = from;
        while j < to
            invariant
                from <= j <= to <= chars@.len(),
                rest.drop_first() == chars@.skip(from as int),
                digits@ == whole + rest.drop_first().take(j - from),
            decreases to - j,
        {
            digits.push(chars[j]);
            j = j + 1;
            assert(digits@ =~= whole + rest.drop_first().take(j - from));
        }
        after = to;
        assert(after_fraction(rest) =~= chars@.skip(after as int));
    }
    assert(digits@ =~= whole + fraction_of(rest));
    assert(after_fraction(rest) =~= chars@.skip(after as int));
    if digits.len() == 0 {
        return None;
    }
    match read_exponent(&chars, after) {
        None => None,
        Some(e) => {
            let point: i128 = (whole_end - start) as i128 + e;
            Some(Reading { negative, digits, point })
        },
    }
}

/// The number of zeros that the digits begin with.
fn count_zeros(digits: &Vec<char>) -> (r: usize)
    ensures
        r == leading_zeros(digits@),
        r <= digits@.len(),
{
    let mut i: usize = 0;
    assert(digits@.skip(0) =~= digits@);
    while i < digits.len() && digits[i] == '0'
        invariant
            i <= digits@.len(),
            leading_zeros(digits@) == i + leading_zeros(digits@.skip(i as int)),
        decreases digits@.len() - i,
    {
        assert(digits@.skip(i as int).drop_first() =~= digits@.skip(i + 1));
        i = i + 1;
    }
    i
}

/// The digits of a number are digits.
proof fn decimal_digits(s: Seq<char>)
    ensures
        decimal_of(s) matches Some(d) ==> forall|i: int|
            0 <= i < d.digits.len() ==> text::is_digit(#[trigger] d.digits[i]),
{
    let t = unsigned(s);
    let rest = t.skip(digit_run(t) as int);
    run_is_digits(t);
    if rest.len() > 0 && rest[0] == '.' {
        run_is_digits(rest.drop_first());
    }
}

// ---------------------------------------------------------------------------
// Large numbers
// ---------------------------------------------------------------------------

/// The number that digits write, the last one first.
spec fn low_value(s: Seq<u8>) -> nat
    decreases s.len(),
{
    if s.len() == 0 {
        0
    } else {
        s[0] as nat + 10 * low_value(s.drop_first())
    }
}

spec fn low_digits(s: Seq<u8>) -> bool {
    forall|i: int| 0 <= i < s.len() ==> #[trigger] s[i] < 10
}

proof fn low_push(s: Seq<u8>, d: u8)
    ensures
        low_value(s.push(d)) == low_value(s) + d * ten_to(s.len()),
    decreases s.len(),
{
    if s.len() == 0 {
        reveal_with_fuel(low_value, 2);
        assert(s.push(d).drop_first() =~= Seq::empty());
        assert(d * 1 == d) by (nonlinear_arith);
    } else {
        low_push(s.drop_first(), d);
        assert(s.push(d).drop_first() =~= s.drop_first().push(d));
        let p = ten_to((s.len() - 1) as nat);
        assert(d * (10 * p) == 10 * (d * p)) by (nonlinear_arith);
    }
}

/// `m` times a number.
fn times(v: &Vec<u8>, m: u128) -> (r: Vec<u8>)
    requires
        low_digits(v@),
        0 < m <= 1_000_000_000_000_000_000,
    ensures
        low_digits(r@),
        low_value(r@) == m * low_value(v@),
{
    let mut out: Vec<u8> = Vec::new();
    let mut carry: u128 = 0;
    let mut i: usize = 0;
    proof {
        assert(v@.take(0) =~= Seq::empty());
        assert(m * 0 == 0 && 0 * ten_to(0) == 0) by (nonlinear_arith);
    }
    while i < v.len()
        invariant
            i <= v@.len(),
            out@.len() == i,
            low_digits(v@),
            low_digits(out@),
            0 < m <= 1_000_000_000_000_000_000,
            carry < m,
            low_value(out@) + carry * ten_to(i as nat) == m * low_value(v@.take(i as int)),
        decreases v@.len() - i,
    {
        let d: u8 = v[i];
        proof {
            assert(m * d <= m * 9) by (nonlinear_arith)
                requires
                    d <= 9,
            ;
            assert(v@.take(i + 1) =~= v@.take(i as int).push(d));
            low_push(v@.take(i as int), d);
        }
        let t: u128 = m * d as u128 + carry;
        let ghost p = ten_to(i as nat);
        let ghost a = low_value(v@.take(i as int));
        let ghost before = out@;
        let low: u8 = (t % 10) as u8;
        proof {
            low_push(out@, low);
            let q = (t / 10) as int;
            let o = low as int;
            assert(t == 10 * q + o);
            assert(m * (a + d * p) == m * a + (m * d) * p) by (nonlinear_arith);
            assert((m * d + carry) * p == (m * d) * p + carry * p) by (nonlinear_arith);
            assert((10 * q + o) * p == q * (10 * p) + o * p) by (nonlinear_arith);
        }
        out.push(low);
        carry = t / 10;
        i = i + 1;
    }
    assert(v@.take(v@.len() as int) =~= v@);
    while carry > 0
        invariant
            low_digits(out@),
            low_value(out@) + carry * ten_to(out@.len()) == m * low_value(v@),
        decreases carry,
    {
        let low: u8 = (carry % 10) as u8;
        proof {
            low_push(out@, low);
            let q = (carry / 10) as int;
            let o = low as int;
            let p = ten_to(out@.len());
            assert(carry == 10 * q + o);
            assert((10 * q + o) * p == q * (10 * p) + o * p) by (nonlinear_arith);
        }
        out.push(low);
        carry = carry / 10;
    }
    assert(0 * ten_to(out@.len()) == 0) by (nonlinear_arith);
    out
}

/// `factor` times `base` to the power `n`, without zeros in front.
pub(crate) fn big(factor: u128, base: u128, n: usize) -> (r: Vec<char>)
    requires
        0 < factor <= 1_000_000_000_000_000_000,
        0 < base <= 1_000_000_000_000_000_000,
    ensures
        text::all_digits(r@),
        r@[0] != '0',
        text::digits_value(r@) == factor * power(base as nat, n as nat),
{
    let mut v: Vec<u8> = Vec::new();
    v.push(1);
    let mut i: usize = 0;
    proof {
        reveal_with_fuel(low_value, 2);
        assert(v@.drop_first() =~= Seq::empty());
    }
    while i < n
        invariant
            i <= n,
            0 < base <= 1_000_000_000_000_000_000,
            low_digits(v@),
            low_value(v@) == power(base as nat, i as nat),
        decreases n - i,
    {
        v = times(&v, base);
        i = i + 1;
    }
    v = times(&v, factor);
    proof {
        power_positive(base as nat, n as nat);
        let p = power(base as nat, n as nat);
        assert(factor * p >= 1) by (nonlinear_arith)
            requires
                factor >= 1,
                p >= 1,
        ;
    }
    let ghost whole = low_value(v@);
    while v.len() > 0 && v[v.len() - 1] == 0
        invariant
            low_digits(v@),
            low_value(v@) == whole,
        decreases v@.len(),
    {
        proof {
            low_push(v@.drop_last(), 0);
            assert(v@ =~= v@.drop_last().push(0));
            assert(0 * ten_to(v@.drop_last().len()) == 0) by (nonlinear_arith);
        }
        v.pop();
    }
    let mut out: Vec<char> = Vec::new();
    let mut j: usize = v.len();
    assert(v@.skip(j as int) =~= Seq::empty());
    while j > 0
        invariant
            j <= v@.len(),
            out@.len() == v@.len() - j,
            low_digits(v@),
            v@.len() > 0 ==> v@.last() != 0,
            forall|k: int| 0 <= k < out@.len() ==> text::is_digit(#[trigger] out@[k]),
            out@.len() > 0 ==> out@[0] != '0',
            text::digits_value(out@) == low_value(v@.skip(j as int)),
        decreases j,
    {
        let d: u8 = v[j - 1];
        let c: char = (48 + d) as char;
        let ghost before = out@;
        out.push(c);
        proof {
            assert(out@.drop_last() =~= before);
            assert(v@.skip(j - 1).drop_first() =~= v@.skip(j as int));
            assert(v@.skip(j - 1)[0] == d);
        }
        j = j - 1;
    }
    assert(v@.skip(0) =~= v@);
    out
}

pub(crate) proof fn power_positive(base: nat, n: nat)
    requires
        base >= 1,
    ensures
        power(base, n) >= 1,
    decreases n,
{
    if n > 0 {
        power_positive(base, (n - 1) as nat);
        let p = power(base, (n - 1) as nat);
        assert(base * p >= 1) by (nonlinear_arith)
            requires
                base >= 1,
                p >= 1,
        ;
    }
}

pub(crate) proof fn power_sum(base: nat, a: nat, b: nat)
    ensures
        power(base, a + b) == power(base, a) * power(base, b),
    decreases a,
{
    let y = power(base, b);
    if a > 0 {
        power_sum(base, (a - 1) as nat, b);
        let x = power(base, (a - 1) as nat);
        assert((base * x) * y == base * (x * y)) by (nonlinear_arith);
    } else {
        assert(1 * y == y) by (nonlinear_arith);
    }
}

proof fn ones_reach_the_bound()
    ensures
        ONES * power(2, 970) == infinite_from(),
{
    reveal_with_fuel(power, 28);
    assert(power(2, 27) == 134_217_728);
    power_sum(2, 27, 27);
    power_sum(2, 54, 970);
    let x = power(2, 970);
    assert(power(2, 54) == ONES + 1);
    assert((ONES + 1) * x - x == ONES * x) by (nonlinear_arith);
    assert(ONES * x >= 0) by (nonlinear_arith);
}

/// A run of digits with zeros behind it.
proof fn value_with_zeros(s: Seq<char>, k: nat)
    ensures
        text::digits_value(s + zeros(k)) == text::digits_value(s) * ten_to(k),
    decreases k,
{
    let v = text::digits_value(s);
    if k == 0 {
        assert(s + zeros(0) =~= s);
        assert(v * 1 == v) by (nonlinear_arith);
    } else {
        value_with_zeros(s, (k - 1) as nat);
        assert((s + zeros(k)).drop_last() =~= s + zeros((k - 1) as nat));
        assert((s + zeros(k)).last() == '0');
        let p = ten_to((k - 1) as nat);
        assert((v * p) * 10 == v * (10 * p)) by (nonlinear_arith);
    }
}

/// A number is less than the power of ten with as many zeros as it has digits, and, where no
/// zero stands in front, not less than the one before.
pub(crate) proof fn value_by_length(s: Seq<char>)
    requires
        forall|i: int| 0 <= i < s.len() ==> text::is_digit(#[trigger] s[i]),
    ensures
        text::digits_value(s) < ten_to(s.len()),
        s.len() > 0 && s[0] != '0' ==> text::digits_value(s) >= ten_to((s.len() - 1) as nat),
    decreases s.len(),
{
    if s.len() > 0 {
        value_by_length(s.drop_last());
        if s.len() == 1 {
            assert(text::digits_value(s.drop_last()) == 0);
        } else {
            assert(s.drop_last()[0] == s[0]);
            assert(ten_to((s.len() - 1) as nat) == 10 * ten_to((s.len() - 2) as nat));
        }
    }
}

pub(crate) proof fn ten_to_grows(a: nat, b: nat)
    requires
        a <= b,
    ensures
        ten_to(a) <= ten_to(b),
    decreases b - a,
{
    if a < b {
        ten_to_grows(a + 1, b);
    }
}

/// Of two runs of the same length the one with the larger first different digit writes the
/// larger number.
proof fn first_difference_decides(s: Seq<char>, t: Seq<char>, j: int)
    requires
        s.len() == t.len(),
        0 <= j < s.len(),
        forall|i: int| 0 <= i < s.len() ==> text::is_digit(#[trigger] s[i]),
        forall|i: int| 0 <= i < t.len() ==> text::is_digit(#[trigger] t[i]),
        forall|i: int| 0 <= i < j ==> s[i] == t[i],
        s[j] < t[j],
    ensures
        text::digits_value(s) < text::digits_value(t),
{
    let n = (s.len() - j - 1) as nat;
    value_of_cut(s, j + 1);
    value_of_cut(t, j + 1);
    assert(s.take(j + 1).drop_last() =~= t.take(j + 1).drop_last());
    assert(s.take(j + 1).last() == s[j]);
    assert(t.take(j + 1).last() == t[j]);
    let a = text::digits_value(s.take(j + 1));
    let b = text::digits_value(t.take(j + 1));
    assert(a < b);
    value_by_length(s.skip(j + 1));
    let p = ten_to(n);
    assert(a * p + p <= b * p) by (nonlinear_arith)
        requires
            a + 1 <= b,
    ;
}

/// The digits from the first that is not a zero, with zeros behind, against those of `k`.
proof fn aligned(d: Decimal, k: Seq<char>, places: nat, lead: nat)
    requires
        forall|i: int| 0 <= i < d.digits.len() ==> text::is_digit(#[trigger] d.digits[i]),
        lead == leading_zeros(d.digits),
        lead < d.digits.len(),
        text::all_digits(k),
        k[0] != '0',
    ensures
        ({
            let e = d.point + places - d.digits.len();
            let s = d.digits.skip(lead as int) + zeros((if e > 0 { e } else { 0 }) as nat);
            let t = k + zeros((if e < 0 { -e } else { 0 }) as nat);
            let v = text::digits_value(k);
            &&& at_least(d, v, places) == (text::digits_value(s) >= text::digits_value(t))
            &&& above(d, v, places) == (text::digits_value(s) > text::digits_value(t))
            &&& s.len() - t.len() == d.point + places - lead - k.len()
            &&& s.len() > t.len() ==> text::digits_value(s) > text::digits_value(t)
            &&& s.len() < t.len() ==> text::digits_value(s) < text::digits_value(t)
            &&& forall|i: int| 0 <= i < s.len() ==> text::is_digit(#[trigger] s[i])
            &&& forall|i: int| 0 <= i < t.len() ==> text::is_digit(#[trigger] t[i])
        }),
{
    let e = d.point + places - d.digits.len();
    let sig = d.digits.skip(lead as int);
    let up = (if e > 0 { e } else { 0 }) as nat;
    let down = (if e < 0 { -e } else { 0 }) as nat;
    let s = sig + zeros(up);
    let t = k + zeros(down);
    zeros_are_zeros(d.digits);
    value_without_zeros(d.digits, lead as int);
    value_of_cut(d.digits, lead as int);
    assert(0 * ten_to((d.digits.len() - lead) as nat) == 0) by (nonlinear_arith);
    value_with_zeros(sig, up);
    value_with_zeros(k, down);
    let v = text::digits_value(d.digits);
    let w = text::digits_value(k);
    assert(v * 1 == v && w * 1 == w) by (nonlinear_arith);
    assert forall|i: int| 0 <= i < s.len() implies text::is_digit(#[trigger] s[i]) by {
        if i < sig.len() {
            assert(s[i] == d.digits[i + lead]);
        }
    }
    assert forall|i: int| 0 <= i < t.len() implies text::is_digit(#[trigger] t[i]) by {
        if i < k.len() {
            assert(t[i] == k[i]);
        }
    }
    value_by_length(s);
    value_by_length(t);
    assert(s[0] == d.digits[lead as int]);
    assert(t[0] == k[0]);
    if s.len() > t.len() {
        ten_to_grows(t.len(), (s.len() - 1) as nat);
    }
    if s.len() < t.len() {
        ten_to_grows(s.len(), (t.len() - 1) as nat);
    }
}

/// Whether a number is at least, and whether it is more than, `k / 10^places`.
pub(crate) fn compare(x: &Reading, lead: usize, k: &Vec<char>, places: usize) -> (r: (bool, bool))
    requires
        forall|i: int| 0 <= i < x.digits@.len() ==> text::is_digit(#[trigger] x.digits@[i]),
        lead == leading_zeros(x.digits@),
        lead < x.digits@.len(),
        text::all_digits(k@),
        k@[0] != '0',
        places <= 2000,
        -12 * EXPONENT_CAP <= x.point <= 12 * EXPONENT_CAP,
    ensures
        forall|d: Decimal|
            d.digits == x.digits@ && same_point(x.point as int, d.point) ==> #[trigger] at_least(
                d,
                text::digits_value(k@),
                places as nat,
            ) == r.0,
        forall|d: Decimal|
            d.digits == x.digits@ && same_point(x.point as int, d.point) ==> #[trigger] above(
                d,
                text::digits_value(k@),
                places as nat,
            ) == r.1,
        !r.0 ==> x.point + places - lead <= k@.len(),
        r.1 ==> x.point + places - lead >= k@.len(),
{
    let n: usize = x.digits.len();
    let p: i128 = x.point + places as i128 - lead as i128;
    let len: i128 = k.len() as i128;
    let ghost own = Decimal { negative: x.negative, digits: x.digits@, point: x.point as int };
    let ghost v = text::digits_value(k@);
    proof {
        assert forall|d: Decimal|
            d.digits == x.digits@ && same_point(x.point as int, d.point) implies #[trigger] at_least(
            d,
            v,
            places as nat,
        ) == at_least(own, v, places as nat) by {
            aligned(own, k@, places as nat, lead as nat);
            aligned(d, k@, places as nat, lead as nat);
        }
        assert forall|d: Decimal|
            d.digits == x.digits@ && same_point(x.point as int, d.point) implies #[trigger] above(
            d,
            v,
            places as nat,
        ) == above(own, v, places as nat) by {
            aligned(own, k@, places as nat, lead as nat);
            aligned(d, k@, places as nat, lead as nat);
        }
        aligned(own, k@, places as nat, lead as nat);
    }
    if p > len {
        return (true, true);
    }
    if p < len {
        return (false, false);
    }
    let ghost e = x.point + places - n;
    let ghost s = x.digits@.skip(lead as int) + zeros((if e > 0 { e } else { 0 }) as nat);
    let ghost t = k@ + zeros((if e < 0 { -e } else { 0 }) as nat);
    assert(s.len() == t.len());
    let rest: usize = n - lead;
    let longest: usize = if rest > k.len() {
        rest
    } else {
        k.len()
    };
    assert(longest == s.len());
    let mut j: usize = 0;
    while j < longest
        invariant
            j <= longest,
            n == x.digits@.len(),
            lead < n,
            rest == n - lead,
            longest == s.len(),
            s.len() == t.len(),
            e == x.point + places - n,
            s == x.digits@.skip(lead as int) + zeros((if e > 0 { e } else { 0 }) as nat),
            t == k@ + zeros((if e < 0 { -e } else { 0 }) as nat),
            forall|i: int| 0 <= i < j ==> s[i] == t[i],
            forall|i: int| 0 <= i < s.len() ==> text::is_digit(#[trigger] s[i]),
            forall|i: int| 0 <= i < t.len() ==> text::is_digit(#[trigger] t[i]),
            p == len,
            own.digits == x.digits@,
            v == text::digits_value(k@),
            at_least(own, v, places as nat) == (text::digits_value(s) >= text::digits_value(t)),
            above(own, v, places as nat) == (text::digits_value(s) > text::digits_value(t)),
            x.point + places - lead == k@.len(),
            forall|d: Decimal|
                d.digits == x.digits@ && same_point(x.point as int, d.point)
                    ==> #[trigger] at_least(d, v, places as nat) == at_least(
                    own,
                    v,
                    places as nat,
                ),
            forall|d: Decimal|
                d.digits == x.digits@ && same_point(x.point as int, d.point)
                    ==> #[trigger] above(d, v, places as nat) == above(own, v, places as nat),
        decreases longest - j,
    {
        let a: char = if j < rest {
            x.digits[lead + j]
        } else {
            '0'
        };
        let b: char = if j < k.len() {
            k[j]
        } else {
            '0'
        };
        assert(a == s[j as int]);
        assert(b == t[j as int]);
        if a < b {
            proof {
                first_difference_decides(s, t, j as int);
            }
            return (false, false);
        }
        if a > b {
            proof {
                first_difference_decides(t, s, j as int);
            }
            return (true, true);
        }
        j = j + 1;
    }
    assert(s =~= t);
    (true, false)
}

/// Where a number lies as a double, its sign aside.
#[derive(Debug, Clone, Copy, PartialEq, Eq, Structural)]
enum Range {
    Zero,
    Finite,
    Infinite,
}

spec fn is_range(d: Decimal, range: Range) -> bool {
    match range {
        Range::Zero => is_zero(d),
        Range::Finite => !is_zero(d) && !is_infinite(d),
        Range::Infinite => !is_zero(d) && is_infinite(d),
    }
}

/// Where a number lies.
fn range_of(x: &Reading, lead: usize, Ghost(d): Ghost<Decimal>) -> (r: Range)
    requires
        forall|i: int| 0 <= i < x.digits@.len() ==> text::is_digit(#[trigger] x.digits@[i]),
        lead == leading_zeros(x.digits@),
        lead <= x.digits@.len(),
        -12 * EXPONENT_CAP <= x.point <= 12 * EXPONENT_CAP,
        d.digits == x.digits@,
        same_point(x.point as int, d.point),
    ensures
        is_range(d, r),
        r == Range::Finite ==> lead < x.digits@.len(),
        r == Range::Finite ==> d.point == x.point && -1075 <= x.point - lead <= usize::MAX,
{
    if lead == x.digits.len() {
        proof {
            value_without_zeros(x.digits@, lead as int);
            assert(x.digits@.take(lead as int) =~= x.digits@);
            let e = d.point + 1075 - d.digits.len();
            if e >= 0 {
                assert(0 * ten_to(e as nat) == 0) by (nonlinear_arith);
            } else {
                assert(zero_until() * ten_to((-e) as nat) >= 0) by (nonlinear_arith);
            }
        }
        return Range::Zero;
    }
    let least = big(1, 5, 1075);
    assert(1 * power(5, 1075) == power(5, 1075)) by (nonlinear_arith);
    if !compare(x, lead, &least, 1075).1 {
        return Range::Zero;
    }
    let greatest = big(ONES, 2, 970);
    proof {
        ones_reach_the_bound();
    }
    if compare(x, lead, &greatest, 0).0 {
        return Range::Infinite;
    }
    assert(greatest@.len() == greatest.len() && lead <= x.digits.len());
    Range::Finite
}

// ---------------------------------------------------------------------------
// Scaling
// ---------------------------------------------------------------------------

/// The part of `cores` times a number that its fraction digits give: the whole part,
/// whether anything is left over, and what. `pad` zeros stand between the point and the
/// digits.
fn scale_fraction(cores: usize, digits: &Vec<char>, k: usize, pad: usize) -> (r: (
    u128,
    bool,
    Ghost<nat>,
))
    requires
        k <= digits@.len(),
        forall|i: int| 0 <= i < digits@.len() ==> text::is_digit(#[trigger] digits@[i]),
    ensures
        r.0 <= cores,
        cores * text::digits_value(digits@.skip(k as int)) == r.0 * ten_to(
            (digits@.len() - k + pad) as nat,
        ) + r.2@,
        r.2@ < ten_to((digits@.len() - k + pad) as nat),
        r.1 == (r.2@ > 0),
{
    let n: usize = digits.len();
    let mut j: usize = n;
    let mut carry: u128 = 0;
    let mut left = false;
    let ghost mut rem: nat = 0;
    proof {
        assert(digits@.skip(n as int) =~= Seq::empty());
        assert(ten_to(0) == 1);
        assert(cores * 0 == 0) by (nonlinear_arith);
    }
    while j > k
        invariant
            k <= j <= n,
            n == digits@.len(),
            forall|i: int| 0 <= i < digits@.len() ==> text::is_digit(#[trigger] digits@[i]),
            carry <= cores,
            cores * text::digits_value(digits@.skip(j as int)) == carry * ten_to((n - j) as nat)
                + rem,
            rem < ten_to((n - j) as nat),
            left == (rem > 0),
        decreases j - k,
    {
        let d: u128 = (digits[j - 1] as u32 - 48) as u128;
        let ghost suffix = digits@.skip(j - 1);
        let ghost p = ten_to((n - j) as nat);
        let ghost rest = text::digits_value(digits@.skip(j as int));
        proof {
            assert forall|i: int| 0 <= i < suffix.len() implies text::is_digit(
                #[trigger] suffix[i],
            ) by {
                assert(suffix[i] == digits@[i + j - 1]);
            }
            value_of_cut(suffix, 1);
            assert(suffix.skip(1) =~= digits@.skip(j as int));
            assert(suffix.take(1).drop_last() =~= Seq::empty());
            assert(suffix.take(1).last() == digits@[j - 1]);
            reveal_with_fuel(text::digits_value, 2);
            assert(text::digits_value(suffix.take(1)) == d);
            assert(text::digits_value(suffix) == d * p + rest);
            carry_step(cores as nat, d as nat, rest, p, carry as nat, rem);
            assert(cores * d <= cores * 9) by (nonlinear_arith)
                requires
                    d <= 9,
            ;
            assert(ten_to((n - j + 1) as nat) == 10 * p);
        }
        let t: u128 = cores as u128 * d + carry;
        proof {
            rem = ((t % 10) * p + rem) as nat;
        }
        left = left || t % 10 != 0;
        carry = t / 10;
        j = j - 1;
    }
    let mut i: usize = 0;
    let ghost value = text::digits_value(digits@.skip(k as int));
    while i < pad
        invariant
            i <= pad,
            k <= n,
            n == digits@.len(),
            value == text::digits_value(digits@.skip(k as int)),
            carry <= cores,
            cores * value == carry * ten_to((n - k + i) as nat) + rem,
            rem < ten_to((n - k + i) as nat),
            left == (rem > 0),
        decreases pad - i,
    {
        let ghost p = ten_to((n - k + i) as nat);
        proof {
            carry_step(cores as nat, 0, value, p, carry as nat, rem);
            assert(cores * 0 == 0) by (nonlinear_arith);
            assert(0 * p == 0) by (nonlinear_arith);
            assert(ten_to((n - k + i + 1) as nat) == 10 * p);
            rem = ((carry % 10) * p + rem) as nat;
        }
        left = left || carry % 10 != 0;
        carry = carry / 10;
        i = i + 1;
    }
    (carry, left, Ghost(rem))
}

/// The whole part of a number: its first `k` digits and `pad` zeros, unless that is more
/// than the largest `isize`.
fn whole_part(digits: &Vec<char>, k: usize, pad: usize) -> (r: Option<u128>)
    requires
        k <= digits@.len(),
        forall|i: int| 0 <= i < digits@.len() ==> text::is_digit(#[trigger] digits@[i]),
    ensures
        match r {
            Some(v) => v == text::digits_value(digits@.take(k as int)) * ten_to(pad as nat) && v
                <= isize::MAX,
            None => text::digits_value(digits@.take(k as int)) * ten_to(pad as nat) > isize::MAX,
        },
{
    let limit: u128 = isize::MAX as u128;
    let mut acc: u128 = 0;
    let mut i: usize = 0;
    let ghost whole = text::digits_value(digits@.take(k as int));
    proof {
        ten_to_positive(pad as nat);
    }
    assert(digits@.take(0) =~= Seq::empty());
    while i < k
        invariant
            i <= k <= digits@.len(),
            forall|j: int| 0 <= j < digits@.len() ==> text::is_digit(#[trigger] digits@[j]),
            acc <= limit,
            limit == isize::MAX,
            whole == text::digits_value(digits@.take(k as int)),
            ten_to(pad as nat) >= 1,
            acc == text::digits_value(digits@.take(i as int)),
        decreases k - i,
    {
        proof {
            assert(digits@.take(i + 1).drop_last() =~= digits@.take(i as int));
            assert(digits@.take(i + 1).last() == digits@[i as int]);
        }
        acc = acc * 10 + (digits[i] as u32 - 48) as u128;
        i = i + 1;
        if acc > limit {
            proof {
                let d = digits@.take(k as int);
                assert(text::all_digits(d));
                text::digits_value_grows(d, i as int);
                assert(d.take(i as int) =~= digits@.take(i as int));
                let p = ten_to(pad as nat);
                assert(whole * p >= whole) by (nonlinear_arith)
                    requires
                        p >= 1,
                ;
            }
            return None;
        }
    }
    let mut j: usize = 0;
    assert(whole * 1 == whole) by (nonlinear_arith);
    while j < pad
        invariant
            j <= pad,
            acc <= limit,
            limit == isize::MAX,
            acc == whole * ten_to(j as nat),
            whole == text::digits_value(digits@.take(k as int)),
        decreases pad - j,
    {
        proof {
            let p = ten_to(j as nat);
            assert((whole * p) * 10 == whole * (10 * p)) by (nonlinear_arith);
        }
        acc = acc * 10;
        j = j + 1;
        if acc > limit {
            proof {
                ten_to_sum(j as nat, (pad - j) as nat);
                ten_to_positive((pad - j) as nat);
                let p = ten_to(j as nat);
                let q = ten_to((pad - j) as nat);
                assert(whole * (p * q) >= whole * p) by (nonlinear_arith)
                    requires
                        q >= 1,
                        p >= 0,
                        whole >= 0,
                ;
            }
            return None;
        }
    }
    Some(acc)
}

/// The greatest count.
fn most() -> (r: usize)
    ensures
        r == greatest_count(),
{
    let n: usize = isize::MAX as usize;
    if (n as u64) < doubles::TWO_53 {
        n
    } else {
        n + 1
    }
}

/// `cores` times a number, rounded up and clamped.
fn scale(cores: usize, digits: &Vec<char>, point: i128) -> (r: usize)
    requires
        cores >= 1,
        forall|i: int| 0 <= i < digits@.len() ==> text::is_digit(#[trigger] digits@[i]),
        -0xffff_ffff <= point,
        point - digits@.len() <= usize::MAX,
    ensures
        r == clamped(
            scaled(
                cores as nat,
                (Decimal { negative: false, digits: digits@, point: point as int }),
            ),
        ),
{
    let n: usize = digits.len();
    let ghost number = Decimal { negative: false, digits: digits@, point: point as int };
    let ghost value = text::digits_value(digits@);
    let k: usize = if point <= 0 {
        0
    } else if point >= n as i128 {
        n
    } else {
        point as usize
    };
    let low_pad: usize = if point < 0 {
        (-point) as usize
    } else {
        0
    };
    let high_pad: usize = if point > n as i128 {
        (point - n as i128) as usize
    } else {
        0
    };
    let (carry, left, rest) = scale_fraction(cores, digits, k, low_pad);
    let ghost rem = rest@;
    let whole = whole_part(digits, k, high_pad);
    let ghost whole_value = text::digits_value(digits@.take(k as int));
    let ghost part = text::digits_value(digits@.skip(k as int));
    proof {
        value_of_cut(digits@, k as int);
        assert(cores * (whole_value * ten_to(high_pad as nat)) >= whole_value * ten_to(
            high_pad as nat,
        )) by (nonlinear_arith)
            requires
                cores >= 1,
                whole_value * ten_to(high_pad as nat) >= 0,
        ;
        if point >= n {
            assert(digits@.skip(k as int) =~= Seq::empty());
            assert(digits@.take(k as int) =~= digits@);
            assert(part == 0);
            assert(cores * 0 == 0) by (nonlinear_arith);
            ten_to_positive((n - k + low_pad) as nat);
            assert(carry == 0 && rem == 0) by (nonlinear_arith)
                requires
                    carry * ten_to((n - k + low_pad) as nat) + rem == 0,
                    ten_to((n - k + low_pad) as nat) >= 1,
                    carry >= 0,
            ;
            let p = ten_to(high_pad as nat);
            assert(cores * (value * p) == cores * value * p) by (nonlinear_arith);
            assert(scaled(cores as nat, number) == cores * (whole_value * p));
        } else {
            let f = (n - point) as nat;
            let p = ten_to(f);
            ten_to_positive(f);
            assert(n - k + low_pad == f);
            assert(ten_to(high_pad as nat) == 1);
            if k == 0 {
                assert(digits@.take(0) =~= Seq::empty());
                assert(whole_value == 0);
                assert(0 * ten_to((n - k) as nat) == 0) by (nonlinear_arith);
            }
            assert(cores * value == (cores * whole_value + carry) * p + rem) by {
                if k == 0 {
                    assert(cores * 0 == 0) by (nonlinear_arith);
                } else {
                    assert(cores * (whole_value * p + part) == (cores * whole_value) * p + cores
                        * part) by (nonlinear_arith);
                    assert((cores * whole_value) * p + carry * p == (cores * whole_value + carry)
                        * p) by (nonlinear_arith);
                }
            }
            ceil_of_split(
                (cores * value) as nat,
                p,
                (cores * whole_value + carry) as nat,
                rem,
            );
            assert(whole_value * 1 == whole_value) by (nonlinear_arith);
        }
    }
    match whole {
        None => most(),
        Some(w) => {
            assert(cores * w <= 0xffff_ffff_ffff_ffff * 0x7fff_ffff_ffff_ffff) by (nonlinear_arith)
                requires
                    cores <= 0xffff_ffff_ffff_ffff,
                    w <= 0x7fff_ffff_ffff_ffff,
            ;
            let total: u128 = cores as u128 * w + carry + (if left {
                1u128
            } else {
                0u128
            });
            assert(total == scaled(cores as nat, number));
            if total < 1 {
                1
            } else if total > most() as u128 {
                most()
            } else {
                total as usize
            }
        },
    }
}

// ---------------------------------------------------------------------------
// Expressions
// ---------------------------------------------------------------------------

/// What is wrong with a text that is not a `usize`.
fn int_detail(s: &str) -> (r: &'static str)
    ensures
        r@ == int_fault(s@),
{
    let chars = text::chars_of(s);
    let n: usize = chars.len();
    if n == 0 {
        return "cannot parse integer from empty string";
    }
    let start: usize = if chars[0] == '+' {
        1
    } else {
        0
    };
    let ghost d = text::without_plus(s@);
    assert(d =~= chars@.skip(start as int));
    let end: usize = run_end(&chars, start);
    let ghost run = d.take(digit_run(d) as int);
    proof {
        run_is_digits(d);
    }
    let mut i: usize = start;
    let mut value: u128 = 0;
    while i < end
        invariant
            start <= i <= end <= chars@.len(),
            chars@ == s@,
            s@.len() > 0,
            d == chars@.skip(start as int),
            d == text::without_plus(s@),
            run == d.take(digit_run(d) as int),
            end - start == digit_run(d),
            forall|k: int| 0 <= k < run.len() ==> text::is_digit(#[trigger] run[k]),
            value <= usize::MAX,
            value == text::digits_value(run.take(i - start)),
        decreases end - i,
    {
        let c: char = chars[i];
        proof {
            assert(run[i - start] == c);
            assert(run.take(i - start + 1).drop_last() =~= run.take(i - start));
            assert(run.take(i - start + 1).last() == c);
        }
        value = value * 10 + (c as u32 - 48) as u128;
        i = i + 1;
        if value > usize::MAX as u128 {
            proof {
                text::digits_value_grows(run, i - start);
            }
            return "number too large to fit in target type";
        }
    }
    assert(run.take(end - start) =~= run);
    "invalid digit found in string"
}

/// How a text that writes an infinity or a NaN is shown.
fn non_finite_word(s: &str) -> (r: Option<String>)
    ensures
        match r {
            Some(t) => is_non_finite_word(s@) && t@ == non_finite_text(s@),
            None => !is_non_finite_word(s@),
        },
{
    let n: usize = s.unicode_len();
    let negative = n > 0 && s.get_char(0) == '-';
    let start: usize = if n > 0 && (s.get_char(0) == '+' || s.get_char(0) == '-') {
        1
    } else {
        0
    };
    let word = s.substring_char(start, n);
    assert(word@ =~= unsigned(s@));
    let low = text::lower(word);
    if text::same_text(low.as_str(), "nan") {
        return Some("NaN".to_owned());
    }
    if text::same_text(low.as_str(), "inf") || text::same_text(low.as_str(), "infinity") {
        return Some(text::two(sign_of(negative), "inf"));
    }
    None
}

/// The sign that a number is shown with.
fn sign_of(negative: bool) -> (r: &'static str)
    ensures
        r@ == sign_text(negative),
{
    if negative {
        "-"
    } else {
        ""
    }
}

/// Adds `n` zeros.
fn push_zeros(out: &mut String, n: usize)
    ensures
        final(out)@ == old(out)@ + zeros(n as nat),
{
    let ghost start = out@;
    let mut i: usize = 0;
    assert(start + zeros(0) =~= start);
    while i < n
        invariant
            i <= n,
            out@ == start + zeros(i as nat),
        decreases n - i,
    {
        out.append("0");
        i = i + 1;
        proof {
            reveal_strlit("0");
        }
        assert(out@ =~= start + zeros(i as nat));
    }
}

/// Where the significant digits end.
fn significant_end(digits: &Vec<char>, lead: usize) -> (r: usize)
    requires
        lead == leading_zeros(digits@),
        lead <= digits@.len(),
    ensures
        lead <= r <= digits@.len(),
        significant(digits@) == digits@.subrange(lead as int, r as int),
{
    let mut end: usize = digits.len();
    assert(digits@.subrange(lead as int, end as int) =~= digits@.skip(lead as int));
    while end > lead && digits[end - 1] == '0'
        invariant
            lead <= end <= digits@.len(),
            significant(digits@) == without_trailing_zeros(
                digits@.subrange(lead as int, end as int),
            ),
        decreases end,
    {
        assert(digits@.subrange(lead as int, end as int).drop_last() =~= digits@.subrange(
            lead as int,
            end - 1,
        ));
        end = end - 1;
    }
    end
}

/// A number behind its sign, in full.
fn plain(sign: &str, x: &Reading, lead: usize, Ghost(d): Ghost<Decimal>) -> (r: String)
    requires
        lead == leading_zeros(x.digits@),
        lead <= x.digits@.len(),
        d.digits == x.digits@,
        d.point == x.point,
        -0xffff_ffff <= x.point - lead <= 0xffff_ffff,
    ensures
        r@ == plain_text(sign@, d),
{
    let p: i128 = x.point - lead as i128;
    let end: usize = significant_end(&x.digits, lead);
    let ghost s = significant(x.digits@);
    let mut out = sign.to_owned();
    if p <= 0 {
        out.append("0.");
        push_zeros(&mut out, (-p) as usize);
        out.append(text::text_of(&x.digits, lead, end).as_str());
    } else if p >= (end - lead) as i128 {
        out.append(text::text_of(&x.digits, lead, end).as_str());
        push_zeros(&mut out, p as usize - (end - lead));
    } else {
        let cut: usize = lead + p as usize;
        out.append(text::text_of(&x.digits, lead, cut).as_str());
        out.append(".");
        out.append(text::text_of(&x.digits, cut, end).as_str());
        assert(x.digits@.subrange(lead as int, cut as int) =~= s.take(p as int));
        assert(x.digits@.subrange(cut as int, end as int) =~= s.skip(p as int));
    }
    out
}

/// A number as it is shown.
fn show_number(x: &Reading, lead: usize, range: Range, Ghost(d): Ghost<Decimal>) -> (r: String)
    requires
        forall|i: int| 0 <= i < x.digits@.len() ==> text::is_digit(#[trigger] x.digits@[i]),
        lead == leading_zeros(x.digits@),
        -12 * EXPONENT_CAP <= x.point <= 12 * EXPONENT_CAP,
        d.negative == x.negative,
        d.digits == x.digits@,
        is_range(d, range),
        range == Range::Finite ==> d.point == x.point && lead < x.digits@.len(),
    ensures
        r@ == number_text(d),
{
    let sign = sign_of(x.negative);
    if range == Range::Zero {
        return text::two(sign, "0");
    }
    if range == Range::Infinite {
        return text::two(sign, "inf");
    }
    let shown = doubles::shown(x, lead, Ghost(d));
    plain(sign, &shown, 0, Ghost(doubles::shown_digits(d)))
}

/// The worker count that a core multiplier asks for, or what is wrong with it.
fn multiple(number: &str, cores: usize) -> (r: Result<usize, String>)
    requires
        cores >= 1,
    ensures
        ({
            let w = workers(number@.push('C'), cores as nat);
            match r {
                Ok(n) => w == Ok::<nat, Seq<char>>(n as nat),
                Err(e) => w == Err::<nat, Seq<char>>(e@),
            }
        }),
        ({
            let w = workers(number@.push('c'), cores as nat);
            match r {
                Ok(n) => w == Ok::<nat, Seq<char>>(n as nat),
                Err(e) => w == Err::<nat, Seq<char>>(e@),
            }
        }),
{
    proof {
        assert(number@.push('C').drop_last() =~= number@);
        assert(number@.push('c').drop_last() =~= number@);
        decimal_digits(number@);
    }
    let shown = match non_finite_word(number) {
        Some(t) => t,
        None => match read_decimal(number) {
            None => {
                let mut out = "core-multiplier prefix `".to_owned();
                out.append(number);
                out.append("` is not a number: ");
                if number.is_empty() {
                    out.append("cannot parse float from empty string");
                } else {
                    out.append("invalid float literal");
                }
                return Err(out);
            },
            Some(reading) => {
                let zeros: usize = count_zeros(&reading.digits);
                let ghost d = decimal_of(number@)->0;
                let range = range_of(&reading, zeros, Ghost(d));
                if !reading.negative && range == Range::Finite {
                    return Ok(scale(cores, &reading.digits, reading.point));
                }
                show_number(&reading, zeros, range, Ghost(d))
            },
        },
    };
    Err(text::two("core-multiplier must be positive and finite, got ", shown.as_str()))
}

/// Resolves a worker-count expression on a host with `available_cores` cores.
pub fn resolve_workers(expr: &str, available_cores: usize) -> (r: Result<usize, WorkersError>)
    requires
        available_cores >= 1,
    ensures
        match (r, workers(text::trimmed(expr@), available_cores as nat)) {
            (Ok(n), Ok(m)) => n == m && n >= 1,
            (Err(WorkersError::Malformed { expr: e, detail }), Err(m)) => e@ == expr@ && detail@
                == m,
            _ => false,
        },
{
    let trimmed = text::trim(expr);
    let n: usize = trimmed.as_str().unicode_len();
    if n == 0 {
        return Err(
            WorkersError::Malformed {
                expr: expr.to_owned(),
                detail: "expression is empty".to_owned(),
            },
        );
    }
    let last: char = trimmed.as_str().get_char(n - 1);
    if last == 'C' || last == 'c' {
        let number = trimmed.as_str().substring_char(0, n - 1);
        assert(trimmed@ =~= number@.push(last));
        return match multiple(number, available_cores) {
            Ok(count) => Ok(count),
            Err(detail) => Err(WorkersError::Malformed { expr: expr.to_owned(), detail }),
        };
    }
    match text::parse_unsigned(trimmed.as_str(), usize::MAX as u64) {
        None => {
            let mut detail = "literal-integer parse failed: ".to_owned();
            detail.append(int_detail(trimmed.as_str()));
            Err(WorkersError::Malformed { expr: expr.to_owned(), detail })
        },
        Some(0) => Err(
            WorkersError::Malformed {
                expr: expr.to_owned(),
                detail: "literal-integer must be >= 1".to_owned(),
            },
        ),
        Some(count) => Ok(count as usize),
    }
}

/// A multiple of the cores is rounded up: it is the least count that is not below the exact
/// product. The multiplier is the number that the digits write, divided by `10^places`.
pub proof fn multiples_round_up(cores: nat, d: Decimal, places: nat, n: nat)
    requires
        places == d.digits.len() - d.point,
    ensures
        scaled(cores, d) * ten_to(places) >= cores * text::digits_value(d.digits),
        n * ten_to(places) >= cores * text::digits_value(d.digits) ==> n >= scaled(cores, d),
{
    let a = cores * text::digits_value(d.digits);
    let b = ten_to(places);
    let q = scaled(cores, d);
    ten_to_positive(places);
    if places == 0 {
        assert(b == 1);
        assert(q == a * 1);
        assert(q * 1 == q && n * 1 == n) by (nonlinear_arith);
    } else {
        assert(q == ceil_div(a, b));
        vstd::arithmetic::div_mod::lemma_fundamental_div_mod(a + b - 1, b as int);
        vstd::arithmetic::div_mod::lemma_mod_bound(a + b - 1, b as int);
        assert(b * q == q * b) by (nonlinear_arith);
        if n < q {
            assert(n * b <= q * b - b) by (nonlinear_arith)
                requires
                    n <= q - 1,
                    b >= 1,
            ;
        }
    }
}

/// There is always a worker: every expression that is accepted asks for at least one.
pub proof fn at_least_one_worker(t: Seq<char>, cores: nat)
    ensures
        workers(t, cores) matches Ok(n) ==> n >= 1,
{
}

/// The message of a refused expression.
pub open spec fn malformed_text(expr: Seq<char>, detail: Seq<char>) -> Seq<char> {
    "malformed `barback.default_workers` expression "@ + text::quoted_text(expr)
        + ": expected a positive integer (e.g. `4`) or a core-multiplier (e.g. `1C` / `0.75C`); detail: "@
        + detail
}

impl WorkersError {
    /// The error as the user sees it.
    pub fn to_message(&self) -> (r: String)
        ensures
            match self {
                WorkersError::Malformed { expr, detail } => r@ == malformed_text(expr@, detail@),
            },
    {
        match self {
            WorkersError::Malformed { expr, detail } => {
                let mut out = "malformed `barback.default_workers` expression ".to_owned();
                out.append(text::quoted(expr.as_str()).as_str());
                out.append(
                    ": expected a positive integer (e.g. `4`) or a core-multiplier (e.g. `1C` / `0.75C`); detail: ",
                );
                out.append(detail.as_str());
                out
            },
        }
    }
}

/// A plain number is the count of the workers, whatever the machine has.
pub proof fn plain_number_is_the_count(n: nat, cores: nat)
    requires
        1 <= n <= usize::MAX,
    ensures
        workers(text::dec(n), cores) == Ok::<nat, Seq<char>>(n),
{
    text::printed_number_reads_back(n);
    assert(text::is_digit(text::dec(n).last()));
}

/// Nothing, no workers at all and what is not a number are refused.
pub proof fn no_workers_are_refused(t: Seq<char>, cores: nat)
    ensures
        t.len() == 0 ==> workers(t, cores) is Err,
        t.len() > 0 && t.last() != 'C' && t.last() != 'c' ==> (text::unsigned_value(
            t,
            usize::MAX as nat,
        ) is None ==> workers(t, cores) is Err),
        text::unsigned_value(t, usize::MAX as nat) == Some(0nat) ==> workers(t, cores) is Err,
        t.len() > 0 && (t.last() == 'C' || t.last() == 'c') ==> (decimal_of(t.drop_last()) is None
            ==> workers(t, cores) is Err),
        t.len() > 0 && (t.last() == 'C' || t.last() == 'c') ==> (decimal_of(t.drop_last()) matches Some(
            d,
        ) ==> (d.negative || text::digits_value(d.digits) == 0 ==> workers(t, cores) is Err)),
{
    if t.len() > 0 {
        text::only_digits_are_numbers(t, usize::MAX as nat);
        if t.last() == 'C' || t.last() == 'c' {
            assert(!text::is_digit(t.last()));
            if t.len() > 1 {
                assert(!text::is_digit(t[t.len() - 1]));
            }
            assert(text::unsigned_value(t, usize::MAX as nat) is None);
            if let Some(d) = decimal_of(t.drop_last()) {
                if text::digits_value(d.digits) == 0 {
                    nothing_is_zero(d);
                }
            }
        }
    }
}

proof fn nothing_is_zero(d: Decimal)
    requires
        text::digits_value(d.digits) == 0,
    ensures
        is_zero(d),
{
    let e = d.point + 1075 - d.digits.len();
    let k = zero_until();
    if e >= 0 {
        let p = ten_to(e as nat);
        assert(0 * p == 0) by (nonlinear_arith);
    } else {
        let p = ten_to((-e) as nat);
        assert(k * p >= 0) by (nonlinear_arith)
            requires
                k >= 0,
                p >= 0,
        ;
    }
}

/// A multiplier is read as it is written: digits, a point and digits, after `e` the places by
/// which the point moves, and in front a minus where it is negative.
pub proof fn multipliers_are_read_as_written(whole: Seq<char>, fraction: Seq<char>, n: nat)
    requires
        text::all_digits(whole),
        text::all_digits(fraction),
    ensures
        decimal_of(whole) == Some(
            (Decimal { negative: false, digits: whole, point: whole.len() as int }),
        ),
        decimal_of(whole + seq!['.'] + fraction) == Some(
            (Decimal { negative: false, digits: whole + fraction, point: whole.len() as int }),
        ),
        decimal_of(seq!['-'] + whole) == Some(
            (Decimal { negative: true, digits: whole, point: whole.len() as int }),
        ),
        decimal_of(whole + seq!['e'] + text::dec(n)) == Some(
            (Decimal { negative: false, digits: whole, point: (whole.len() + n) as int }),
        ),
        decimal_of(whole + seq!['e', '-'] + text::dec(n)) == Some(
            (Decimal { negative: false, digits: whole, point: whole.len() - n }),
        ),
{
    let k = whole.len() as int;
    assert(text::is_digit(whole[0]));
    // digits alone
    run_is_longest(whole, k);
    assert(whole.take(k) =~= whole);
    assert(whole.skip(k) =~= Seq::empty());
    assert(whole + Seq::<char>::empty() =~= whole);
    // with a fraction
    let a = whole + seq!['.'] + fraction;
    assert(a[k] == '.');
    run_is_longest(a, k);
    assert(a.take(k) =~= whole);
    assert(a.skip(k) =~= seq!['.'] + fraction);
    let r = a.skip(k);
    assert(r.drop_first() =~= fraction);
    run_is_longest(fraction, fraction.len() as int);
    assert(fraction.take(fraction.len() as int) =~= fraction);
    assert(fraction.skip(fraction.len() as int) =~= Seq::empty());
    assert(a[0] == whole[0]);
    // negative
    let b = seq!['-'] + whole;
    assert(b.drop_first() =~= whole);
    // with an exponent
    text::printed_number_reads_back(n);
    let x = text::dec(n);
    assert(text::is_digit(x[0]));
    let c = whole + seq!['e'] + x;
    assert(c[k] == 'e');
    run_is_longest(c, k);
    assert(c.take(k) =~= whole);
    assert(c.skip(k) =~= seq!['e'] + x);
    assert(c.skip(k).drop_first() =~= x);
    assert(c[0] == whole[0]);
    let e = whole + seq!['e', '-'] + x;
    assert(e[k] == 'e');
    run_is_longest(e, k);
    assert(e.take(k) =~= whole);
    assert(e.skip(k) =~= seq!['e', '-'] + x);
    assert(e.skip(k).drop_first() =~= seq!['-'] + x);
    assert((seq!['-'] + x).drop_first() =~= x);
    assert(e[0] == whole[0]);
}

proof fn tens_exceed_fives(n: nat)
    ensures
        ten_to(n) >= power(5, n) >= 1,
        n > 0 ==> ten_to(n) > power(5, n),
    decreases n,
{
    if n > 0 {
        tens_exceed_fives((n - 1) as nat);
    }
}

/// A whole multiple gives so many workers for each core, in either case of the letter.
pub proof fn whole_multiples_are_of_the_cores(k: nat, cores: nat)
    requires
        1 <= k <= 0xffff_ffff_ffff_ffff,
        1 <= cores,
        cores * k <= isize::MAX,
    ensures
        workers(text::dec(k).push('C'), cores) == Ok::<nat, Seq<char>>(cores * k),
        workers(text::dec(k).push('c'), cores) == Ok::<nat, Seq<char>>(cores * k),
{
    let s = text::dec(k);
    text::printed_number_reads_back(k);
    assert(text::is_digit(s[0]));
    multipliers_are_read_as_written(s, s, 0);
    let d = Decimal { negative: false, digits: s, point: s.len() as int };
    assert(s.push('C').drop_last() =~= s);
    assert(s.push('c').drop_last() =~= s);
    // the number is no word
    reveal_strlit("inf");
    reveal_strlit("infinity");
    reveal_strlit("nan");
    assert("inf"@[0] == 'i' && "infinity"@[0] == 'i' && "nan"@[0] == 'n');
    assert(text::lowered(s)[0] == s[0]);
    assert(!is_non_finite_word(s));
    // it is neither zero nor infinite
    assert(ten_to(0) == 1);
    assert(k * 1 == k) by (nonlinear_arith);
    ones_reach_the_bound();
    reveal_with_fuel(power, 28);
    assert(power(2, 27) == 134_217_728);
    power_sum(2, 27, 943);
    power_positive(2, 943);
    let y = power(2, 943);
    assert(ONES * (134_217_728 * y) >= 18_014_398_509_481_983 * 134_217_728) by (nonlinear_arith)
        requires
            y >= 1,
            ONES == 18_014_398_509_481_983,
    ;
    assert(!is_infinite(d));
    tens_exceed_fives(1075);
    let t = ten_to(1075);
    assert(k * t >= t) by (nonlinear_arith)
        requires
            k >= 1,
    ;
    assert(!is_zero(d));
    // it counts for each core
    assert((cores * k) * 1 == cores * k) by (nonlinear_arith);
    assert(cores * k >= 1) by (nonlinear_arith)
        requires
            cores >= 1,
            k >= 1,
    ;
    assert(scaled(cores, d) == cores * k);
}

/// More cores never give fewer workers, and the same expression is accepted on every machine.
pub proof fn more_cores_give_no_fewer_workers(t: Seq<char>, few: nat, many: nat)
    requires
        few <= many,
    ensures
        workers(t, few) is Ok <==> workers(t, many) is Ok,
        workers(t, few) matches Ok(a) ==> (workers(t, many) matches Ok(b) ==> a <= b),
{
    if is_multiple(t) {
        if let Some(d) = decimal_of(t.drop_last()) {
            let v = text::digits_value(d.digits);
            let n = d.digits.len();
            assert(few * v <= many * v) by (nonlinear_arith)
                requires
                    few <= many,
            ;
            if d.point >= n {
                let p = ten_to((d.point - n) as nat);
                assert((few * v) * p <= (many * v) * p) by (nonlinear_arith)
                    requires
                        few * v <= many * v,
                ;
            } else {
                let b = ten_to((n - d.point) as nat);
                ten_to_positive((n - d.point) as nat);
                vstd::arithmetic::div_mod::lemma_div_is_ordered(
                    few * v + b - 1,
                    many * v + b - 1,
                    b as int,
                );
            }
            assert(scaled(few, d) <= scaled(many, d));
        }
    }
}

} // verus!
