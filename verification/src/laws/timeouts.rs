//! Timeouts as they are written: a whole number of a unit.
use crate::settings::{
    digits_in, double_limit, is_digit, law_whole_units_are_exact, milliseconds, number_shape, power_of_1024, run_end, timeout_number, timeout_of,
    unit_milliseconds, NumberShape, MAX_TIMEOUT_MS,
};
use crate::digits::{pow10, value};
use crate::doubles::{counted, Ratio};
use crate::text::{end_without_space, is_space, leading_space, trimmed};
use vstd::prelude::*;

verus! {

/// The number that decimal digits are written for.
pub open spec fn number_of(digits: Seq<char>) -> nat
    decreases digits.len(),
{
    if digits.len() == 0 {
        0
    } else {
        number_of(digits.drop_last()) * 10 + (digits.last() as u32 - '0' as u32) as nat
    }
}

/// Whether a unit has that many milliseconds.
pub open spec fn is_unit_of(unit: Seq<char>, factor: nat) -> bool {
    ||| unit == ""@ && factor == 1
    ||| unit == "ms"@ && factor == 1
    ||| unit == "s"@ && factor == 1_000
    ||| unit == "min"@ && factor == 60 * 1_000
    ||| unit == "h"@ && factor == 60 * 60 * 1_000
    ||| unit == "d"@ && factor == 24 * 60 * 60 * 1_000
}

proof fn lemma_number(digits: Seq<char>)
    requires
        forall|i: int| 0 <= i < digits.len() ==> is_digit(#[trigger] digits[i]),
    ensures
        value(digits.map_values(|c: char| crate::settings::digit_value(c))) == number_of(digits),
    decreases digits.len(),
{
    let read = digits.map_values(|c: char| crate::settings::digit_value(c));
    if digits.len() > 0 {
        let fewer = digits.drop_last();
        assert forall|i: int| 0 <= i < fewer.len() implies is_digit(#[trigger] fewer[i]) by {
            assert(is_digit(digits[i]));
        }
        lemma_number(fewer);
        assert(read.drop_last() =~= fewer.map_values(|c: char| crate::settings::digit_value(c)));
        assert(is_digit(digits[digits.len() - 1]));
    }
}

proof fn lemma_run(s: Seq<char>, i: int, n: int)
    requires
        0 <= i <= n <= s.len(),
        forall|j: int| i <= j < n ==> is_digit(#[trigger] s[j]),
        n < s.len() ==> !is_digit(s[n]),
    ensures
        run_end(s, i, false) == n,
    decreases n - i,
{
    if i < n {
        assert(is_digit(s[i]));
        lemma_run(s, i + 1, n);
    }
}

proof fn lemma_not_trimmed(s: Seq<char>)
    requires
        s.len() > 0 ==> !is_space(s[0]) && !is_space(s.last()),
    ensures
        trimmed(s) == s,
{
    assert(leading_space(s) == 0);
    assert(s.skip(0) =~= s);
    assert(end_without_space(s) == s.len());
    assert(s.take(s.len() as int) =~= s);
}

proof fn lemma_limit(n: nat)
    ensures
        power_of_1024(n) >= 1,
    decreases n,
{
    if n > 0 {
        lemma_limit((n - 1) as nat);
    }
}

proof fn lemma_units(unit: Seq<char>, factor: nat)
    requires
        is_unit_of(unit, factor),
    ensures
        unit_milliseconds(unit) == Some(counted(factor)),
        factor >= 1,
        unit.len() > 0 ==> !is_digit(unit[0]) && unit[0] != '.' && unit[0] != 'e' && unit[0] != 'E' && !is_space(unit[0]) && !is_space(unit.last()),
{
    reveal_strlit("");
    reveal_strlit("ms");
    reveal_strlit("us");
    reveal_strlit("s");
    reveal_strlit("min");
    reveal_strlit("h");
    reveal_strlit("d");
    if unit == "s"@ {
        assert("s"@.len() != ""@.len() && "s"@.len() != "ms"@.len() && "s"@.len() != "us"@.len());
    } else if unit == "min"@ {
        assert("min"@.len() != ""@.len() && "min"@.len() != "ms"@.len() && "min"@.len() != "us"@.len() && "min"@.len() != "s"@.len());
    } else if unit == "h"@ {
        assert("h"@[0] != "s"@[0]);
        assert("h"@.len() != ""@.len() && "h"@.len() != "ms"@.len() && "h"@.len() != "us"@.len() && "h"@.len() != "min"@.len());
    } else if unit == "d"@ {
        assert("d"@[0] != "s"@[0] && "d"@[0] != "h"@[0]);
        assert("d"@.len() != ""@.len() && "d"@.len() != "ms"@.len() && "d"@.len() != "us"@.len() && "d"@.len() != "min"@.len());
    }
}

/// A whole number with a unit behind it is that many milliseconds: a second has
/// a thousand, a minute sixty seconds, an hour sixty minutes, a day twenty-four
/// hours. Without a unit the number counts milliseconds. What is above the limit
/// is refused.
pub proof fn law_whole_timeout_is_read(digits: Seq<char>, unit: Seq<char>, factor: nat)
    requires
        digits.len() > 0,
        forall|i: int| 0 <= i < digits.len() ==> is_digit(#[trigger] digits[i]),
        digits[0] != '0',
        is_unit_of(unit, factor),
        number_of(digits) * factor <= MAX_TIMEOUT_MS,
    ensures
        timeout_of(digits + unit) == Ok::<nat, Seq<char>>(number_of(digits) * factor),
{
    let s = digits + unit;
    let n = digits.len() as int;
    lemma_units(unit, factor);
    assert(is_digit(digits[0]) && is_digit(digits[n - 1]));
    assert forall|j: int| 0 <= j < n implies is_digit(#[trigger] s[j]) by {
        assert(s[j] == digits[j]);
    }
    if unit.len() > 0 {
        assert(s[n] == unit[0]);
        assert(s.last() == unit.last());
    } else {
        assert(s.last() == digits[n - 1]);
    }
    assert(s[0] == digits[0]);
    lemma_not_trimmed(s);
    lemma_run(s, 0, n);
    let shape = NumberShape { start: 0, hex: false, int_end: n, frac_end: n, exp_start: n, end: n };
    assert(number_shape(s) == Some(shape));
    let v = number_of(digits);
    assert(s.subrange(0, n) =~= digits);
    lemma_number(digits);
    assert(value(digits_in(s, 0, n)) == v);
    assert(s.subrange(n, n) =~= Seq::<char>::empty());
    assert(digits_in(s, n, n) =~= Seq::<u8>::empty());
    assert(s[n - 1] == digits[n - 1]);
    assert(crate::settings::exponent(s, shape) == 0);
    assert(v <= v * factor) by (nonlinear_arith)
        requires
            factor >= 1,
    ;
    lemma_limit(97);
    assert(double_limit() > MAX_TIMEOUT_MS) by {
        let p = power_of_1024(97);
        assert(0x3f_ffff_ffff_ffff * p >= 0x3f_ffff_ffff_ffff) by (nonlinear_arith)
            requires
                p >= 1,
        ;
    }
    assert(pow10(0) == 1);
    assert(v * pow10(0) == v) by (nonlinear_arith)
        requires
            pow10(0) == 1,
    ;
    assert(crate::settings::mantissa(s, shape) == digits_in(s, 0, n));
    assert(!crate::settings::is_infinite(digits_in(s, 0, n), 0));
    assert(crate::settings::decimal(v, 0) == Ratio { num: v, den: 1 });
    assert(!crate::settings::is_broken_octal(s, shape));
    assert(!crate::settings::is_octal(s, shape));
    assert(timeout_number(s) == Some(Ratio { num: v, den: 1 }));
    assert(s.skip(n) =~= unit);
    lemma_not_trimmed(unit);
    law_whole_units_are_exact(v, factor);
    assert(milliseconds(Ratio { num: v, den: 1 }, counted(factor)) == v * factor);
}

/// The same time in another unit is the same timeout.
pub proof fn law_units_agree(a: Seq<char>, unit: Seq<char>, factor: nat, b: Seq<char>, other: Seq<char>, other_factor: nat)
    requires
        a.len() > 0,
        forall|i: int| 0 <= i < a.len() ==> is_digit(#[trigger] a[i]),
        a[0] != '0',
        b.len() > 0,
        forall|i: int| 0 <= i < b.len() ==> is_digit(#[trigger] b[i]),
        b[0] != '0',
        is_unit_of(unit, factor),
        is_unit_of(other, other_factor),
        number_of(a) * factor == number_of(b) * other_factor,
        number_of(a) * factor <= MAX_TIMEOUT_MS,
    ensures
        timeout_of(a + unit) == timeout_of(b + other),
{
    law_whole_timeout_is_read(a, unit, factor);
    law_whole_timeout_is_read(b, other, other_factor);
}

} // verus!
