//! Session settings and the layers that they are read through.
use crate::collections::Dup;
use crate::digits::{
    are_digits, at_least, digits_of, half_even, is_at_least, lemma_at_least_by_length, lemma_pow10_monotone, lemma_pow10_positive, lemma_pow10_sum,
    lemma_value_bound, lemma_value_lower, pow10, round, rounded, times, value, wide_value, without_leading_zeros,
};
use crate::doubles::{
    binary, counted, double, lemma_double, lemma_half_even_at_least, lemma_half_even_at_most, lemma_large, lemma_small, lemma_thousandth, lemma_whole_product, product, whole,
    whole_product, Ratio,
};
use crate::text::{chars_of, join3, text_eq, text_of, trim, trimmed};
use vstd::arithmetic::power2::{lemma2_to64, lemma2_to64_rest, lemma_pow2_adds, lemma_pow2_pos, lemma_pow2_strictly_increases, pow2};
use vstd::prelude::*;

verus! {

/// PostgreSQL stores `lock_timeout` and `statement_timeout` as signed 32-bit
/// millisecond settings. Values above this limit are rejected.
pub const MAX_TIMEOUT_MS: u64 = 2_147_483_647;

/// A setting with the value it has by default, the value that the session
/// keeps, and the value in force.
#[derive(Clone, Debug, PartialEq, Eq)]
pub struct ScopedSetting<T> {
    pub default: T,
    pub session: T,
    pub effective: T,
}

impl<T> DeepView for ScopedSetting<T> {
    type V = ScopedSetting<T>;

    open spec fn deep_view(&self) -> ScopedSetting<T> {
        *self
    }
}

impl<T: Copy> Dup for ScopedSetting<T> {
    fn dup(&self) -> (r: Self) {
        ScopedSetting { default: self.default, session: self.session, effective: self.effective }
    }
}

impl<T: Clone> ScopedSetting<T> {
    pub fn new(default: T) -> (r: Self)
        ensures
            r.default == default,
            cloned(default, r.session),
            cloned(default, r.effective),
    {
        ScopedSetting { session: default.clone(), effective: default.clone(), default }
    }

    pub fn reset_effective_to_session(&mut self)
        ensures
            final(self).default == old(self).default,
            final(self).session == old(self).session,
            cloned(old(self).session, final(self).effective),
    {
        self.effective = self.session.clone();
    }
}

// ---------------------------------------------------------------------------
// Timeouts
// ---------------------------------------------------------------------------

pub open spec fn is_digit(c: char) -> bool {
    '0' <= c && c <= '9'
}

pub open spec fn is_hex_digit(c: char) -> bool {
    is_digit(c) || ('a' <= c && c <= 'f') || ('A' <= c && c <= 'F')
}

/// Where a run of digits from position `i` on ends.
pub open spec fn run_end(s: Seq<char>, i: int, hex: bool) -> int
    decreases s.len() - i,
{
    if 0 <= i < s.len() && (is_digit(s[i]) || (hex && is_hex_digit(s[i]))) {
        run_end(s, i + 1, hex)
    } else {
        i
    }
}

/// Where the parts of the number lie that a timeout starts with: after the
/// sign, the digits before the point end at `int_end`, those behind it at
/// `frac_end`, and the exponent has its digits from `exp_start` to `end`.
pub struct NumberShape {
    pub start: int,
    pub hex: bool,
    pub int_end: int,
    pub frac_end: int,
    pub exp_start: int,
    pub end: int,
}

pub open spec fn char_at(s: Seq<char>, i: int, c: char) -> bool {
    0 <= i < s.len() && s[i] == c
}

/// The shape of the number that a text starts with.
pub open spec fn number_shape(s: Seq<char>) -> Option<NumberShape> {
    let start: int = if char_at(s, 0, '+') {
        1
    } else {
        0
    };
    if char_at(s, start, '0') && (char_at(s, start + 1, 'x') || char_at(s, start + 1, 'X')) {
        let end = run_end(s, start + 2, true);
        if end == start + 2 {
            None
        } else {
            Some(NumberShape { start, hex: true, int_end: end, frac_end: end, exp_start: end, end })
        }
    } else {
        let int_end = run_end(s, start, false);
        let frac_end = if char_at(s, int_end, '.') {
            run_end(s, int_end + 1, false)
        } else {
            int_end
        };
        if int_end == start && frac_end <= int_end + 1 {
            None
        } else if char_at(s, frac_end, 'e') || char_at(s, frac_end, 'E') {
            let exp_start = if char_at(s, frac_end + 1, '+') || char_at(s, frac_end + 1, '-') {
                frac_end + 2
            } else {
                frac_end + 1
            };
            let end = run_end(s, exp_start, false);
            if end == exp_start {
                None
            } else {
                Some(NumberShape { start, hex: false, int_end, frac_end, exp_start, end })
            }
        } else {
            Some(NumberShape { start, hex: false, int_end, frac_end, exp_start: frac_end, end: frac_end })
        }
    }
}

pub open spec fn digit_value(c: char) -> u8 {
    if is_digit(c) {
        (c as u32 - 48) as u8
    } else if 'a' <= c && c <= 'f' {
        (c as u32 - 87) as u8
    } else {
        (c as u32 - 55) as u8
    }
}

pub open spec fn digits_in(s: Seq<char>, from: int, to: int) -> Seq<u8> {
    s.subrange(from, to).map_values(|c: char| digit_value(c))
}

/// The digits of a decimal number, with the point left out.
pub open spec fn mantissa(s: Seq<char>, n: NumberShape) -> Seq<u8> {
    if n.frac_end > n.int_end {
        digits_in(s, n.start, n.int_end) + digits_in(s, n.int_end + 1, n.frac_end)
    } else {
        digits_in(s, n.start, n.int_end)
    }
}

/// The power of ten of a decimal number whose point is left out.
pub open spec fn exponent(s: Seq<char>, n: NumberShape) -> int {
    let written = value(digits_in(s, n.exp_start, n.end)) as int;
    let signed = if char_at(s, n.exp_start - 1, '-') {
        -written
    } else {
        written
    };
    signed - (if n.frac_end > n.int_end {
        n.frac_end - n.int_end - 1
    } else {
        0
    })
}

/// The number that digits in another base stand for.
pub open spec fn based_value(digits: Seq<u8>, base: nat) -> nat
    decreases digits.len(),
{
    if digits.len() == 0 {
        0
    } else {
        based_value(digits.drop_last(), base) * base + digits.last() as nat
    }
}

/// PostgreSQL reads a whole number that starts with a zero in base eight.
pub open spec fn is_octal(s: Seq<char>, n: NumberShape) -> bool {
    !n.hex && char_at(s, n.start, '0') && n.end == n.int_end
}

/// An 8 or a 9 ends a number in base eight, and nothing else is tried then.
pub open spec fn is_broken_octal(s: Seq<char>, n: NumberShape) -> bool {
    !n.hex && char_at(s, n.start, '0') && exists|i: int| n.start <= i < n.int_end && (#[trigger] s[i] == '8' || s[i] == '9')
}

pub open spec fn power_of_1024(n: nat) -> nat
    decreases n,
{
    if n == 0 {
        1
    } else {
        power_of_1024((n - 1) as nat) * 1024
    }
}

/// What is too large for a number of double precision: from here on, which is
/// half a unit above the largest one, numbers count as infinite.
pub open spec fn double_limit() -> nat {
    0x3f_ffff_ffff_ffff * power_of_1024(97)
}

pub open spec fn is_infinite(digits: Seq<u8>, e: int) -> bool {
    if e >= 0 {
        value(digits) * pow10(e as nat) >= double_limit()
    } else {
        value(digits) >= double_limit() * pow10((-e) as nat)
    }
}

/// How many milliseconds a unit has, as a double: a microsecond has the double
/// nearest to a thousandth.
pub open spec fn unit_milliseconds(unit: Seq<char>) -> Option<nat> {
    if unit == ""@ || unit == "ms"@ {
        Some(counted(1))
    } else if unit == "us"@ {
        Some(double(Ratio { num: 1, den: 1000 }))
    } else if unit == "s"@ {
        Some(counted(1_000))
    } else if unit == "min"@ {
        Some(counted(60_000))
    } else if unit == "h"@ {
        Some(counted(3_600_000))
    } else if unit == "d"@ {
        Some(counted(86_400_000))
    } else {
        None
    }
}

/// `v * 10^e`.
pub open spec fn decimal(v: nat, e: int) -> Ratio {
    if e >= 0 {
        Ratio { num: v * pow10(e as nat), den: 1 }
    } else {
        Ratio { num: v, den: pow10((-e) as nat) }
    }
}

/// The number that a timeout starts with, where it is one.
pub open spec fn timeout_number(s: Seq<char>) -> Option<Ratio> {
    match number_shape(s) {
        None => None,
        Some(n) => {
            if is_broken_octal(s, n) {
                None
            } else if n.hex {
                let whole = based_value(digits_in(s, n.start + 2, n.end), 16);
                if whole > u64::MAX {
                    None
                } else {
                    Some(Ratio { num: whole, den: 1 })
                }
            } else if is_octal(s, n) {
                let whole = based_value(digits_in(s, n.start, n.end), 8);
                if whole > u64::MAX {
                    None
                } else {
                    Some(Ratio { num: whole, den: 1 })
                }
            } else if is_infinite(mantissa(s, n), exponent(s, n)) {
                None
            } else {
                Some(decimal(value(mantissa(s, n)), exponent(s, n)))
            }
        },
    }
}

/// A number of units in milliseconds. The number is taken in double precision,
/// and so is its product with the unit, which is then rounded to the nearest
/// whole number, the even one of two.
pub open spec fn milliseconds(n: Ratio, unit: nat) -> nat {
    whole(product(double(n), unit))
}

/// What a timeout setting reads as: whole milliseconds, or why it is refused.
pub open spec fn timeout_of(raw: Seq<char>) -> Result<nat, Seq<char>> {
    let s = trimmed(raw);
    if s.len() == 0 {
        Err("timeout value is empty"@)
    } else {
        match timeout_number(s) {
            None => Err("invalid timeout value '"@ + raw + "'"@),
            Some(n) => match unit_milliseconds(trimmed(s.skip(number_shape(s)->0.end))) {
                None => Err("invalid timeout unit in '"@ + raw + "'"@),
                Some(unit) => if milliseconds(n, unit) > MAX_TIMEOUT_MS {
                    Err("timeout value '"@ + raw + "' exceeds PostgreSQL's maximum"@)
                } else {
                    Ok(milliseconds(n, unit))
                },
            },
        }
    }
}

/// A timeout is never above the limit.
pub proof fn law_timeout_is_within_limit(raw: Seq<char>)
    ensures
        match timeout_of(raw) {
            Ok(ms) => ms <= MAX_TIMEOUT_MS,
            Err(_) => true,
        },
{
}

/// A whole number of a unit that has whole milliseconds is read exactly, up to
/// the limit.
pub proof fn law_whole_units_are_exact(n: nat, unit: nat)
    requires
        n <= MAX_TIMEOUT_MS,
        n * unit <= MAX_TIMEOUT_MS,
    ensures
        milliseconds(Ratio { num: n, den: 1 }, counted(unit)) == n * unit,
{
    lemma2_to64_rest();
    lemma_whole_product(n, unit);
}

proof fn lemma_run_end(s: Seq<char>, i: int, hex: bool)
    requires
        0 <= i <= s.len(),
    ensures
        i <= run_end(s, i, hex) <= s.len(),
        forall|j: int| i <= j < run_end(s, i, hex) ==> is_digit(#[trigger] s[j]) || (hex && is_hex_digit(s[j])),
    decreases s.len() - i,
{
    if i < s.len() && (is_digit(s[i]) || (hex && is_hex_digit(s[i]))) {
        lemma_run_end(s, i + 1, hex);
    }
}

fn find_run_end(v: &Vec<char>, from: usize, hex: bool) -> (r: usize)
    requires
        from <= v.len(),
    ensures
        r == run_end(v@, from as int, hex),
        from <= r <= v.len(),
        forall|j: int| from <= j < r ==> is_digit(#[trigger] v@[j]) || (hex && is_hex_digit(v@[j])),
{
    let mut i: usize = from;
    while i < v.len()
        invariant
            from <= i <= v.len(),
            run_end(v@, from as int, hex) == run_end(v@, i as int, hex),
            forall|j: int| from <= j < i ==> is_digit(#[trigger] v@[j]) || (hex && is_hex_digit(v@[j])),
        decreases v.len() - i,
    {
        let c = v[i];
        let digit = '0' <= c && c <= '9';
        let letter = ('a' <= c && c <= 'f') || ('A' <= c && c <= 'F');
        if !(digit || (hex && letter)) {
            return i;
        }
        i = i + 1;
    }
    i
}

fn is_char_at(v: &Vec<char>, i: usize, c: char) -> (b: bool)
    ensures
        b == char_at(v@, i as int, c),
{
    i < v.len() && v[i] == c
}

struct Shape {
    start: usize,
    hex: bool,
    int_end: usize,
    frac_end: usize,
    exp_start: usize,
    end: usize,
}

impl View for Shape {
    type V = NumberShape;

    closed spec fn view(&self) -> NumberShape {
        NumberShape {
            start: self.start as int,
            hex: self.hex,
            int_end: self.int_end as int,
            frac_end: self.frac_end as int,
            exp_start: self.exp_start as int,
            end: self.end as int,
        }
    }
}

/// Whether the parts of a shape lie in order and hold digits.
spec fn fits(s: Seq<char>, n: NumberShape) -> bool {
    &&& 0 <= n.start <= n.int_end <= n.frac_end <= n.exp_start <= n.end <= s.len()
    &&& n.start <= 1
    &&& n.hex ==> n.start + 2 <= n.end && forall|j: int| n.start + 2 <= j < n.end ==> is_hex_digit(#[trigger] s[j])
    &&& !n.hex ==> forall|j: int| n.start <= j < n.int_end ==> is_digit(#[trigger] s[j])
    &&& forall|j: int| n.int_end < j < n.frac_end ==> is_digit(#[trigger] s[j])
    &&& forall|j: int| n.exp_start <= j < n.end ==> is_digit(#[trigger] s[j])
    &&& n.end > n.frac_end ==> n.exp_start >= 1
}

fn find_shape(v: &Vec<char>) -> (r: Option<Shape>)
    ensures
        match r {
            Some(n) => number_shape(v@) == Some(n@) && fits(v@, n@),
            None => number_shape(v@) is None,
        },
{
    let start: usize = if is_char_at(v, 0, '+') {
        1
    } else {
        0
    };
    if is_char_at(v, start, '0') && (is_char_at(v, start + 1, 'x') || is_char_at(v, start + 1, 'X')) {
        let end = find_run_end(v, start + 2, true);
        if end == start + 2 {
            return None;
        }
        return Some(Shape { start, hex: true, int_end: end, frac_end: end, exp_start: end, end });
    }
    let int_end = find_run_end(v, start, false);
    let frac_end = if is_char_at(v, int_end, '.') {
        find_run_end(v, int_end + 1, false)
    } else {
        int_end
    };
    if int_end == start && (frac_end == int_end || frac_end - int_end <= 1) {
        return None;
    }
    if is_char_at(v, frac_end, 'e') || is_char_at(v, frac_end, 'E') {
        let exp_start = if is_char_at(v, frac_end + 1, '+') || is_char_at(v, frac_end + 1, '-') {
            frac_end + 2
        } else {
            frac_end + 1
        };
        let end = find_run_end(v, exp_start, false);
        if end == exp_start {
            return None;
        }
        return Some(Shape { start, hex: false, int_end, frac_end, exp_start, end });
    }
    Some(Shape { start, hex: false, int_end, frac_end, exp_start: frac_end, end: frac_end })
}

fn find_digits(v: &Vec<char>, from: usize, to: usize) -> (r: Vec<u8>)
    requires
        from <= to <= v.len(),
        forall|j: int| from <= j < to ==> is_hex_digit(#[trigger] v@[j]),
    ensures
        r@ == digits_in(v@, from as int, to as int),
        forall|j: int| 0 <= j < r.len() ==> #[trigger] r@[j] < 16,
        (forall|j: int| from <= j < to ==> is_digit(#[trigger] v@[j])) ==> are_digits(r@),
{
    let mut r: Vec<u8> = Vec::new();
    let mut i: usize = from;
    while i < to
        invariant
            from <= i <= to <= v.len(),
            r.len() == i - from,
            forall|j: int| from <= j < to ==> is_hex_digit(#[trigger] v@[j]),
            forall|j: int| 0 <= j < r.len() ==> #[trigger] r@[j] == digit_value(v@[from + j]),
        decreases to - i,
    {
        let c = v[i];
        assert(is_hex_digit(v@[i as int]));
        let x: u8 = if '0' <= c && c <= '9' {
            (c as u32 - 48) as u8
        } else if 'a' <= c && c <= 'f' {
            (c as u32 - 87) as u8
        } else {
            (c as u32 - 55) as u8
        };
        r.push(x);
        i = i + 1;
    }
    proof {
        assert(r@ =~= digits_in(v@, from as int, to as int));
        assert forall|j: int| 0 <= j < r.len() implies #[trigger] r@[j] < 16 by {
            assert(is_hex_digit(v@[from + j]));
        }
        if forall|j: int| from <= j < to ==> is_digit(#[trigger] v@[j]) {
            assert forall|j: int| 0 <= j < r.len() implies #[trigger] r@[j] < 10 by {
                assert(is_digit(v@[from + j]));
            }
        }
    }
    r
}

proof fn lemma_based_monotone(digits: Seq<u8>, base: nat, i: int)
    requires
        0 <= i <= digits.len(),
        base >= 1,
    ensures
        based_value(digits.take(i), base) <= based_value(digits, base),
    decreases digits.len(),
{
    if i == digits.len() {
        assert(digits.take(i) =~= digits);
    } else {
        let d = digits.drop_last();
        lemma_based_monotone(d, base, i);
        assert(d.take(i) =~= digits.take(i));
        let x = based_value(d, base);
        assert(x * base >= x) by (nonlinear_arith)
            requires
                base >= 1,
        ;
    }
}

/// The number that digits in another base stand for, where it fits.
fn find_based_value(digits: &Vec<u8>, base: u64) -> (r: Option<u64>)
    requires
        1 <= base <= 16,
        forall|j: int| 0 <= j < digits.len() ==> #[trigger] digits@[j] < 16,
    ensures
        match r {
            Some(n) => n == based_value(digits@, base as nat),
            None => based_value(digits@, base as nat) > u64::MAX,
        },
{
    let mut r: u128 = 0;
    let mut i: usize = 0;
    assert(digits@.take(0) =~= Seq::<u8>::empty());
    while i < digits.len()
        invariant
            i <= digits.len(),
            1 <= base <= 16,
            forall|j: int| 0 <= j < digits.len() ==> #[trigger] digits@[j] < 16,
            r == based_value(digits@.take(i as int), base as nat),
            r <= u64::MAX,
        decreases digits.len() - i,
    {
        proof {
            assert(digits@.take(i + 1).drop_last() =~= digits@.take(i as int));
            assert(digits@.take(i + 1).last() == digits@[i as int]);
            assert(r * base <= 16 * u64::MAX) by (nonlinear_arith)
                requires
                    r <= u64::MAX,
                    base <= 16,
            ;
        }
        r = r * base as u128 + digits[i] as u128;
        if r > 0xffff_ffff_ffff_ffff {
            proof {
                lemma_based_monotone(digits@, base as nat, i + 1);
            }
            return None;
        }
        i = i + 1;
    }
    assert(digits@.take(digits.len() as int) =~= digits@);
    Some(r as u64)
}

fn has_eight_or_nine(v: &Vec<char>, from: usize, to: usize) -> (b: bool)
    requires
        from <= to <= v.len(),
    ensures
        b == exists|i: int| from <= i < to && (#[trigger] v@[i] == '8' || v@[i] == '9'),
{
    let mut i: usize = from;
    while i < to
        invariant
            from <= i <= to <= v.len(),
            forall|j: int| from <= j < i ==> #[trigger] v@[j] != '8' && v@[j] != '9',
        decreases to - i,
    {
        if v[i] == '8' || v[i] == '9' {
            assert(v@[i as int] == '8' || v@[i as int] == '9');
            return true;
        }
        i = i + 1;
    }
    false
}

proof fn lemma_power_of_1024(n: nat)
    ensures
        power_of_1024(n) > 0,
    decreases n,
{
    if n > 0 {
        lemma_power_of_1024((n - 1) as nat);
    }
}

/// The digits of the number from which on numbers count as infinite.
fn double_limit_digits() -> (r: Vec<u8>)
    ensures
        are_digits(r@),
        value(r@) == double_limit(),
        r.len() > 0,
        r@[0] > 0,
{
    let mut r = digits_of(0x3f_ffff_ffff_ffff);
    let mut n: u8 = 0;
    proof {
        assert(0x3f_ffff_ffff_ffff * 1 == 0x3f_ffff_ffff_ffff);
    }
    while n < 97
        invariant
            n <= 97,
            are_digits(r@),
            value(r@) == 0x3f_ffff_ffff_ffff * power_of_1024(n as nat),
        decreases 97 - n,
    {
        proof {
            let p = power_of_1024(n as nat);
            assert(power_of_1024((n + 1) as nat) == p * 1024);
        }
        r = times(&r, 1024);
        n = n + 1;
    }
    proof {
        lemma_power_of_1024(97);
        assert(double_limit() > 0);
    }
    let r = without_leading_zeros(&r);
    proof {
        if r.len() == 0 {
            assert(value(r@) == 0);
        }
    }
    r
}

/// A number as it was read. One that is too small to count in any unit keeps
/// no digits.
enum Number {
    Decimal(Vec<u8>, i128),
    Vanishing,
}

spec fn stands_for(n: Number, x: Ratio) -> bool {
    &&& x.den > 0
    &&& match n {
        Number::Decimal(digits, e) => {
            &&& are_digits(digits@)
            &&& digits.len() > 0
            &&& digits@[0] > 0
            &&& x == decimal(value(digits@), e as int)
            &&& -0x1000_0000_0000_0000_0000_0000_0000 < e < 0x1000_0000_0000_0000_0000_0000_0000
        },
        Number::Vanishing => x.num * pow2(61) <= x.den,
    }
}

proof fn lemma_decimal_denominator(v: nat, e: int)
    ensures
        decimal(v, e).den > 0,
{
    if e < 0 {
        lemma_pow10_positive((-e) as nat);
    }
}

proof fn lemma_zero_vanishes(e: int)
    ensures
        decimal(0, e).num * pow2(61) <= decimal(0, e).den,
{
    let p = pow2(61);
    assert(0 * p == 0) by (nonlinear_arith);
    if e >= 0 {
        assert(0 * pow10(e as nat) == 0) by (nonlinear_arith);
    }
}

proof fn lemma_small_vanishes(digits: Seq<u8>, e: int)
    requires
        are_digits(digits),
        digits.len() + 19 <= -e,
    ensures
        decimal(value(digits), e).num * pow2(61) <= decimal(value(digits), e).den,
{
    lemma_value_bound(digits);
    let l = digits.len();
    let v = value(digits);
    let p = pow10(l);
    lemma2_to64_rest();
    let f = pow2(61);
    let g = pow10(19);
    reveal_with_fuel(pow10, 20);
    assert(f <= g);
    lemma_pow10_sum(l, 19);
    lemma_pow10_monotone(l + 19, (-e) as nat);
    assert(v * f <= p * g) by (nonlinear_arith)
        requires
            v <= p,
            f <= g,
    ;
}

proof fn lemma_long_value(digits: Seq<u8>)
    requires
        digits.len() > 25,
        digits[0] > 0,
    ensures
        value(digits) >= 10_000_000_000_000_000_000_000_000,
{
    lemma_value_lower(digits);
    lemma_pow10_monotone(25, (digits.len() - 1) as nat);
    reveal_with_fuel(pow10, 26);
}

/// The mantissa of a decimal number and how many digits it has behind the
/// point.
fn find_mantissa(v: &Vec<char>, n: &Shape) -> (r: (Vec<u8>, usize))
    requires
        fits(v@, n@),
        !n.hex,
    ensures
        r.0@ == mantissa(v@, n@),
        are_digits(r.0@),
        r.1 == (if n.frac_end > n.int_end {
            n.frac_end - n.int_end - 1
        } else {
            0
        }),
{
    let mut whole = find_digits(v, n.start, n.int_end);
    if n.frac_end > n.int_end {
        let mut frac = find_digits(v, n.int_end + 1, n.frac_end);
        let ghost a = whole@;
        let ghost b = frac@;
        whole.append(&mut frac);
        assert(whole@ =~= a + b);
        (whole, n.frac_end - n.int_end - 1)
    } else {
        (whole, 0)
    }
}

/// The decimal number of a shape, where it is not infinite.
fn find_decimal(v: &Vec<char>, n: &Shape) -> (r: Option<Number>)
    requires
        fits(v@, n@),
        !n.hex,
    ensures
        match r {
            Some(number) => !is_infinite(mantissa(v@, n@), exponent(v@, n@)) && stands_for(
                number,
                decimal(value(mantissa(v@, n@)), exponent(v@, n@)),
            ),
            None => is_infinite(mantissa(v@, n@), exponent(v@, n@)),
        },
{
    let (all_digits, frac_len) = find_mantissa(v, n);
    let digits = without_leading_zeros(&all_digits);
    let written = find_digits(v, n.exp_start, n.end);
    let power = without_leading_zeros(&written);
    let negative = n.exp_start > 0 && is_char_at(v, n.exp_start - 1, '-');
    let limit = double_limit_digits();
    let ghost m = mantissa(v@, n@);
    let ghost e = exponent(v@, n@);
    proof {
        lemma_decimal_denominator(value(m), e);
        lemma_power_of_1024(97);
        assert(double_limit() > 0);
        assert(is_infinite(m, e) == at_least(digits@, e, limit@));
    }
    if digits.len() == 0 {
        proof {
            assert(value(digits@) == 0);
            if e >= 0 {
                assert(0 * pow10(e as nat) == 0) by (nonlinear_arith);
            } else {
                let d = pow10((-e) as nat);
                let l = double_limit();
                lemma_pow10_positive((-e) as nat);
                assert(l * d > 0) by (nonlinear_arith)
                    requires
                        l > 0,
                        d > 0,
                ;
            }
            lemma_zero_vanishes(e);
        }
        return Some(Number::Vanishing);
    }
    if power.len() > 25 {
        proof {
            lemma_long_value(power@);
            lemma_at_least_by_length(digits@, e, limit@);
        }
        if !negative {
            return None;
        }
        proof {
            lemma_small_vanishes(digits@, e);
        }
        return Some(Number::Vanishing);
    }
    let magnitude = wide_value(&power);
    let signed: i128 = if negative {
        -(magnitude as i128)
    } else {
        magnitude as i128
    };
    let e_exact: i128 = signed - frac_len as i128;
    assert(e_exact == e);
    if is_at_least(&digits, e_exact, &limit) {
        return None;
    }
    Some(Number::Decimal(digits, e_exact))
}

fn whole_number(whole: u64) -> (r: Number)
    ensures
        stands_for(r, Ratio { num: whole as nat, den: 1 }),
{
    let digits = without_leading_zeros(&digits_of(whole));
    proof {
        assert(whole * pow10(0) == whole) by (nonlinear_arith)
            requires
                pow10(0) == 1,
        ;
    }
    if digits.len() == 0 {
        assert(0 * pow2(61) == 0) by (nonlinear_arith);
        return Number::Vanishing;
    }
    Number::Decimal(digits, 0)
}

/// The number that a text starts with, and where it ends.
fn find_number(v: &Vec<char>) -> (r: Option<(Number, usize)>)
    ensures
        match r {
            Some((number, end)) => timeout_number(v@) is Some && stands_for(number, timeout_number(v@)->0) && end == number_shape(v@)->0.end
                && end <= v.len(),
            None => timeout_number(v@) is None,
        },
{
    let n = match find_shape(v) {
        Some(n) => n,
        None => {
            return None;
        },
    };
    let leading_zero = !n.hex && is_char_at(v, n.start, '0');
    if leading_zero && has_eight_or_nine(v, n.start, n.int_end) {
        return None;
    }
    if n.hex {
        let digits = find_digits(v, n.start + 2, n.end);
        return match find_based_value(&digits, 16) {
            Some(whole) => Some((whole_number(whole), n.end)),
            None => None,
        };
    }
    if leading_zero && n.end == n.int_end {
        let digits = find_digits(v, n.start, n.end);
        return match find_based_value(&digits, 8) {
            Some(whole) => Some((whole_number(whole), n.end)),
            None => None,
        };
    }
    match find_decimal(v, &n) {
        Some(number) => Some((number, n.end)),
        None => None,
    }
}

/// The digits of a number that is not zero.
fn nonzero_digits(n: u64) -> (r: Vec<u8>)
    requires
        n > 0,
    ensures
        are_digits(r@),
        value(r@) == n,
        r.len() > 0,
        r@[0] > 0,
{
    let r = without_leading_zeros(&digits_of(n));
    proof {
        if r.len() == 0 {
            assert(value(r@) == 0);
        }
    }
    r
}

proof fn lemma_far_below(p: nat, q: nat)
    requires
        p * pow2(113) < q * pow2(52),
    ensures
        p * pow2(61) <= q,
{
    lemma_pow2_adds(61, 52);
    lemma_pow2_pos(52);
    let a = pow2(61);
    let b = pow2(52);
    assert(p * (a * b) == (p * a) * b) by (nonlinear_arith);
    assert(p * a <= q) by (nonlinear_arith)
        requires
            (p * a) * b < q * b,
            b > 0,
    ;
}

/// A unit by its binary digits and how many of them are behind the point.
struct Unit {
    digits: u64,
    places: u32,
}

impl Unit {
    spec fn milliseconds(self) -> nat {
        binary(self.digits as nat, self.places as nat)
    }

    spec fn wf(self) -> bool {
        &&& 1 <= self.digits <= 0x20_0000_0000_0000
        &&& self.places <= 62
        &&& pow2(1064) <= self.milliseconds() <= pow2(1101)
    }
}

fn whole_unit(n: u64) -> (r: Unit)
    requires
        1 <= n <= 0x800_0000,
    ensures
        r.wf(),
        r.milliseconds() == counted(n as nat),
{
    proof {
        let p = pow2(1074);
        lemma_pow2_strictly_increases(1064, 1074);
        lemma_pow2_adds(27, 1074);
        lemma2_to64();
        assert(p <= n * p <= 0x800_0000 * p) by (nonlinear_arith)
            requires
                1 <= n <= 0x800_0000,
        ;
    }
    Unit { digits: n, places: 0 }
}

fn microsecond() -> (r: Unit)
    ensures
        r.wf(),
        r.milliseconds() == double(Ratio { num: 1, den: 1000 }),
{
    proof {
        let p = pow2(1012);
        lemma_thousandth();
        lemma2_to64_rest();
        lemma_pow2_adds(52, 1012);
        lemma_pow2_adds(53, 1012);
        lemma_pow2_strictly_increases(1065, 1101);
        assert(0x10_0000_0000_0000 * p <= 4_611_686_018_427_388 * p <= 0x20_0000_0000_0000 * p) by (nonlinear_arith);
    }
    Unit { digits: 4_611_686_018_427_388, places: 62 }
}

fn find_unit(unit: &String) -> (r: Option<Unit>)
    ensures
        match r {
            Some(u) => u.wf() && unit_milliseconds(unit@) == Some(u.milliseconds()),
            None => unit_milliseconds(unit@) is None,
        },
{
    if text_eq(unit, "") || text_eq(unit, "ms") {
        Some(whole_unit(1))
    } else if text_eq(unit, "us") {
        Some(microsecond())
    } else if text_eq(unit, "s") {
        Some(whole_unit(1_000))
    } else if text_eq(unit, "min") {
        Some(whole_unit(60_000))
    } else if text_eq(unit, "h") {
        Some(whole_unit(3_600_000))
    } else if text_eq(unit, "d") {
        Some(whole_unit(86_400_000))
    } else {
        None
    }
}

/// Comparing digits with a number is comparing the fraction with it.
proof fn lemma_at_least_decimal(digits: Seq<u8>, e: int, b: Seq<u8>)
    ensures
        at_least(digits, e, b) == (decimal(value(digits), e).num >= decimal(value(digits), e).den * value(b)),
{
    if e < 0 {
        let p = pow10((-e) as nat);
        let w = value(b);
        assert(w * p == p * w) by (nonlinear_arith);
    }
}

/// A multiple of the digits is a multiple of the fraction.
proof fn lemma_decimal_multiple(v: nat, e: int, k: nat)
    ensures
        decimal(v * k, e) == (Ratio { num: decimal(v, e).num * k, den: decimal(v, e).den }),
{
    if e >= 0 {
        let p = pow10(e as nat);
        assert((v * k) * p == (v * p) * k) by (nonlinear_arith);
    }
}

/// The milliseconds of a number of units, where they are no more than the
/// limit.
fn find_milliseconds(number: &Number, unit: &Unit, Ghost(x): Ghost<Ratio>) -> (r: Option<u64>)
    requires
        stands_for(*number, x),
        unit.wf(),
    ensures
        match r {
            Some(ms) => ms == milliseconds(x, unit.milliseconds()) && ms <= MAX_TIMEOUT_MS,
            None => milliseconds(x, unit.milliseconds()) > MAX_TIMEOUT_MS,
        },
{
    match number {
        Number::Vanishing => {
            proof {
                lemma_small(x, unit.milliseconds());
            }
            Some(0)
        },
        Number::Decimal(digits, e) => {
            let high = nonzero_digits(0x20_0000_0000_0000);
            let low = nonzero_digits(0x10_0000_0000_0000);
            proof {
                lemma2_to64();
                lemma2_to64_rest();
                lemma_at_least_decimal(digits@, *e as int, high@);
            }
            if is_at_least(digits, *e, &high) {
                proof {
                    lemma_large(x, unit.milliseconds());
                }
                return None;
            }
            let mut v = without_leading_zeros(digits);
            let mut s: u32 = 0;
            proof {
                let n = value(digits@);
                lemma_value_lower(digits@);
                lemma_pow10_positive((digits@.len() - 1) as nat);
                assert(n * 1 == n) by (nonlinear_arith);
                let m = x.num;
                assert(m * 1 == m) by (nonlinear_arith);
            }
            while !is_at_least(&v, *e, &low)
                invariant
                    s <= 113,
                    are_digits(v@),
                    v.len() > 0,
                    v@[0] > 0,
                    are_digits(low@),
                    low.len() > 0,
                    low@[0] > 0,
                    value(low@) == 0x10_0000_0000_0000,
                    pow2(52) == 0x10_0000_0000_0000,
                    pow2(53) == 0x20_0000_0000_0000,
                    unit.wf(),
                    x.den > 0,
                    x == decimal(value(digits@), *e as int),
                    value(digits@) > 0,
                    value(v@) == value(digits@) * pow2(s as nat),
                    x.num * pow2(s as nat) < x.den * pow2(53),
                    -0x1000_0000_0000_0000_0000_0000_0000 < *e < 0x1000_0000_0000_0000_0000_0000_0000,
                decreases 113 - s,
            {
                proof {
                    lemma_at_least_decimal(v@, *e as int, low@);
                    lemma_decimal_multiple(value(digits@), *e as int, pow2(s as nat));
                }
                if s == 113 {
                    proof {
                        lemma_far_below(x.num, x.den);
                        lemma_small(x, unit.milliseconds());
                    }
                    return Some(0);
                }
                let doubled = times(&v, 2);
                proof {
                    lemma_pow2_adds(1, s as nat);
                    lemma2_to64();
                    let p = pow2(s as nat);
                    let n = value(digits@);
                    let m = x.num;
                    assert((n * p) * 2 == n * (2 * p)) by (nonlinear_arith);
                    assert((m * p) * 2 == m * (2 * p)) by (nonlinear_arith);
                    lemma_pow2_pos((s + 1) as nat);
                    let q = pow2((s + 1) as nat);
                    assert(n * q > 0) by (nonlinear_arith)
                        requires
                            n > 0,
                            q > 0,
                    ;
                }
                v = without_leading_zeros(&doubled);
                s = s + 1;
            }
            proof {
                lemma_at_least_decimal(v@, *e as int, low@);
                lemma_decimal_multiple(value(digits@), *e as int, pow2(s as nat));
                let n = x.num * pow2(s as nat);
                lemma_half_even_at_least(n, x.den, 0x10_0000_0000_0000);
                lemma_half_even_at_most(n, x.den, 0x20_0000_0000_0000);
                lemma_double(x, s as nat);
                assert(rounded(v@, *e as int) == half_even(n, x.den));
            }
            match round(&v, *e) {
                Some(m) => match whole_product(m, s, unit.digits, unit.places) {
                    Some(ms) => if ms > MAX_TIMEOUT_MS {
                        None
                    } else {
                        Some(ms)
                    },
                    None => None,
                },
                None => None,
            }
        },
    }
}

/// Parse PostgreSQL's documented timeout syntax and normalize it to the
/// integer millisecond representation used by its timeout settings.
pub fn parse_timeout_ms(raw: &str) -> (r: Result<u64, String>)
    ensures
        match r {
            Ok(ms) => timeout_of(raw@) == Ok::<nat, Seq<char>>(ms as nat),
            Err(reason) => timeout_of(raw@) == Err::<nat, Seq<char>>(reason@),
        },
{
    let text = trim(raw);
    let v = chars_of(&text);
    if v.len() == 0 {
        return Err("timeout value is empty".to_owned());
    }
    let (number, end) = match find_number(&v) {
        Some(found) => found,
        None => {
            return Err(join3("invalid timeout value '", raw, "'"));
        },
    };
    let rest = text_of(&v, end, v.len());
    assert(rest@ =~= text@.skip(end as int));
    let unit = match find_unit(&trim(&rest)) {
        Some(unit) => unit,
        None => {
            return Err(join3("invalid timeout unit in '", raw, "'"));
        },
    };
    match find_milliseconds(&number, &unit, Ghost(timeout_number(v@)->0)) {
        Some(ms) => Ok(ms),
        None => Err(join3("timeout value '", raw, "' exceeds PostgreSQL's maximum")),
    }
}

} // verus!
