//! Numbers of any size as lists of decimal digits, the highest digit first.
use vstd::prelude::*;

verus! {

pub open spec fn pow10(n: nat) -> nat
    decreases n,
{
    if n == 0 {
        1
    } else {
        10 * pow10((n - 1) as nat)
    }
}

pub open spec fn are_digits(s: Seq<u8>) -> bool {
    forall|i: int| 0 <= i < s.len() ==> #[trigger] s[i] < 10
}

/// The number that digits stand for.
pub open spec fn value(s: Seq<u8>) -> nat
    decreases s.len(),
{
    if s.len() == 0 {
        0
    } else {
        value(s.drop_last()) * 10 + s.last() as nat
    }
}

/// The number that digits stand for, read with the lowest digit first.
spec fn value_low_first(s: Seq<u8>) -> nat
    decreases s.len(),
{
    if s.len() == 0 {
        0
    } else {
        value_low_first(s.drop_last()) + s.last() as nat * pow10((s.len() - 1) as nat)
    }
}

pub proof fn lemma_pow10_positive(n: nat)
    ensures
        pow10(n) > 0,
    decreases n,
{
    if n > 0 {
        lemma_pow10_positive((n - 1) as nat);
    }
}

pub proof fn lemma_pow10_sum(a: nat, b: nat)
    ensures
        pow10(a + b) == pow10(a) * pow10(b),
    decreases a,
{
    if a > 0 {
        lemma_pow10_sum((a - 1) as nat, b);
        let x = pow10((a - 1) as nat);
        let y = pow10(b);
        assert(pow10(a + b) == 10 * pow10((a + b - 1) as nat));
        assert((a - 1) + b == a + b - 1);
        assert(10 * (x * y) == (10 * x) * y) by (nonlinear_arith);
    } else {
        assert(1 * pow10(b) == pow10(b)) by (nonlinear_arith);
    }
}

pub proof fn lemma_pow10_monotone(a: nat, b: nat)
    requires
        a <= b,
    ensures
        pow10(a) <= pow10(b),
    decreases b,
{
    if a < b {
        lemma_pow10_monotone(a, (b - 1) as nat);
        lemma_pow10_positive((b - 1) as nat);
    }
}

pub proof fn lemma_value_bound(s: Seq<u8>)
    requires
        are_digits(s),
    ensures
        value(s) < pow10(s.len()),
    decreases s.len(),
{
    if s.len() > 0 {
        assert(are_digits(s.drop_last()));
        lemma_value_bound(s.drop_last());
    }
}

pub proof fn lemma_value_append(a: Seq<u8>, b: Seq<u8>)
    ensures
        value(a + b) == value(a) * pow10(b.len()) + value(b),
    decreases b.len(),
{
    if b.len() == 0 {
        assert(a + b =~= a);
        assert(value(a) * 1 == value(a)) by (nonlinear_arith);
    } else {
        let c = b.drop_last();
        assert((a + b).drop_last() =~= a + c);
        assert((a + b).last() == b.last());
        lemma_value_append(a, c);
        let x = value(a);
        let p = pow10(c.len());
        assert(pow10(b.len()) == 10 * p);
        assert((x * p) * 10 == x * (10 * p)) by (nonlinear_arith);
    }
}

pub proof fn lemma_value_split(s: Seq<u8>, i: int)
    requires
        0 <= i <= s.len(),
    ensures
        value(s) == value(s.take(i)) * pow10((s.len() - i) as nat) + value(s.skip(i)),
{
    assert(s =~= s.take(i) + s.skip(i));
    lemma_value_append(s.take(i), s.skip(i));
}

pub proof fn lemma_value_first(s: Seq<u8>)
    requires
        s.len() > 0,
    ensures
        value(s) == s[0] as nat * pow10((s.len() - 1) as nat) + value(s.skip(1)),
{
    lemma_value_split(s, 1);
    let t = s.take(1);
    assert(t.drop_last() =~= Seq::<u8>::empty());
    assert(value(t.drop_last()) == 0);
    assert(value(t) == s[0] as nat);
}

/// Digits without a leading zero stand for a number with as many digits.
pub proof fn lemma_value_lower(s: Seq<u8>)
    requires
        s.len() > 0,
        s[0] > 0,
    ensures
        value(s) >= pow10((s.len() - 1) as nat),
{
    lemma_value_first(s);
    let p = pow10((s.len() - 1) as nat);
    let f = s[0] as nat;
    assert(f * p >= p) by (nonlinear_arith)
        requires
            f >= 1,
    ;
}

proof fn lemma_reversed(s: Seq<u8>)
    ensures
        value(s.reverse()) == value_low_first(s),
    decreases s.len(),
{
    if s.len() > 0 {
        lemma_reversed(s.drop_last());
        let r = s.reverse();
        assert(r.skip(1) =~= s.drop_last().reverse());
        lemma_value_first(r);
    } else {
        assert(s.reverse() =~= s);
    }
}

proof fn lemma_low_first_push(s: Seq<u8>, x: u8)
    ensures
        value_low_first(s.push(x)) == value_low_first(s) + x as nat * pow10(s.len()),
{
    assert(s.push(x).drop_last() =~= s);
}

fn reversed(v: &Vec<u8>) -> (r: Vec<u8>)
    ensures
        r@ == v@.reverse(),
{
    let mut r: Vec<u8> = Vec::new();
    let mut i: usize = v.len();
    while i > 0
        invariant
            i <= v.len(),
            r.len() == v.len() - i,
            forall|j: int| 0 <= j < r.len() ==> #[trigger] r@[j] == v@[v.len() - 1 - j],
        decreases i,
    {
        r.push(v[i - 1]);
        i = i - 1;
    }
    assert(r@ =~= v@.reverse());
    r
}

/// The digits of a number whose lower digits are known.
fn with_carry(low: Vec<u8>, carry: u64) -> (r: Vec<u8>)
    requires
        are_digits(low@),
    ensures
        are_digits(r@),
        value(r@) == value_low_first(low@) + carry * pow10(low@.len()),
{
    let ghost total = value_low_first(low@) + carry * pow10(low@.len());
    let mut low = low;
    let mut carry: u64 = carry;
    while carry > 0
        invariant
            are_digits(low@),
            total == value_low_first(low@) + carry * pow10(low@.len()),
        decreases carry,
    {
        let ghost before = low@;
        let ghost c0 = carry as nat;
        let x: u8 = (carry % 10) as u8;
        carry = carry / 10;
        low.push(x);
        proof {
            lemma_low_first_push(before, x);
            let p = pow10(before.len());
            let c1 = carry as nat;
            let xn = x as nat;
            assert(pow10(low@.len()) == 10 * p);
            assert(c0 == 10 * c1 + xn);
            assert((10 * c1 + xn) * p == xn * p + c1 * (10 * p)) by (nonlinear_arith);
        }
    }
    proof {
        assert(0 * pow10(low@.len()) == 0) by (nonlinear_arith);
        lemma_reversed(low@);
        assert(are_digits(low@.reverse()));
    }
    reversed(&low)
}

/// The digits of a multiple.
pub fn times(v: &Vec<u8>, m: u64) -> (r: Vec<u8>)
    requires
        are_digits(v@),
        m <= 100_000_000_000_000_000,
    ensures
        are_digits(r@),
        value(r@) == value(v@) * m,
{
    let mut low: Vec<u8> = Vec::new();
    let mut carry: u64 = 0;
    let mut i: usize = v.len();
    assert(v@.skip(v.len() as int) =~= Seq::<u8>::empty());
    assert(0 * m == 0) by (nonlinear_arith);
    assert(0 * pow10(0) == 0) by (nonlinear_arith);
    while i > 0
        invariant
            i <= v.len(),
            m <= 100_000_000_000_000_000,
            carry <= m,
            are_digits(v@),
            are_digits(low@),
            low.len() == v.len() - i,
            value(v@.skip(i as int)) * m == value_low_first(low@) + carry * pow10(low@.len()),
        decreases i,
    {
        let ghost before = low@;
        let ghost c0 = carry;
        let digit = v[i - 1];
        assert(v@[i - 1] < 10);
        assert(digit as u64 * m <= 900_000_000_000_000_000) by (nonlinear_arith)
            requires
                digit < 10,
                m <= 100_000_000_000_000_000,
        ;
        let t: u64 = digit as u64 * m + carry;
        let x: u8 = (t % 10) as u8;
        proof {
            assert(t / 10 <= m) by (nonlinear_arith)
                requires
                    t == digit * m + c0,
                    digit < 10,
                    c0 <= m,
            ;
        }
        carry = t / 10;
        low.push(x);
        proof {
            lemma_low_first_push(before, x);
            let tail = v@.skip(i - 1);
            assert(tail.skip(1) =~= v@.skip(i as int));
            lemma_value_first(tail);
            let p = pow10(before.len());
            assert(pow10(low@.len()) == 10 * p);
            let whole = value(v@.skip(i as int));
            let dn = digit as nat;
            let c1 = carry as nat;
            let xn = x as nat;
            assert(value(tail) == dn * p + whole);
            assert(t == 10 * c1 + xn);
            assert((dn * p + whole) * m == (dn * m) * p + whole * m) by (nonlinear_arith);
            assert((dn * m) * p + c0 * p == (dn * m + c0) * p) by (nonlinear_arith);
            assert((10 * c1 + xn) * p == xn * p + c1 * (10 * p)) by (nonlinear_arith);
            assert(dn * m + c0 == 10 * c1 + xn);
        }
        i = i - 1;
    }
    assert(v@.skip(0) =~= v@);
    with_carry(low, carry)
}

/// The digits of a whole number.
pub fn digits_of(n: u64) -> (r: Vec<u8>)
    ensures
        are_digits(r@),
        value(r@) == n,
{
    assert(n * pow10(0) == n) by (nonlinear_arith)
        requires
            pow10(0) == 1,
    ;
    with_carry(Vec::new(), n)
}

/// The digits without leading zeros.
pub fn without_leading_zeros(v: &Vec<u8>) -> (r: Vec<u8>)
    requires
        are_digits(v@),
    ensures
        are_digits(r@),
        value(r@) == value(v@),
        r.len() <= v.len(),
        r.len() > 0 ==> r@[0] > 0,
{
    let mut i: usize = 0;
    assert(v@.skip(0) =~= v@);
    while i < v.len() && v[i] == 0
        invariant
            i <= v.len(),
            are_digits(v@),
            value(v@.skip(i as int)) == value(v@),
        decreases v.len() - i,
    {
        proof {
            let s = v@.skip(i as int);
            lemma_value_first(s);
            assert(s.skip(1) =~= v@.skip(i + 1));
            assert(0 * pow10((s.len() - 1) as nat) == 0) by (nonlinear_arith);
        }
        i = i + 1;
    }
    let mut r: Vec<u8> = Vec::new();
    let mut j: usize = i;
    while j < v.len()
        invariant
            i <= j <= v.len(),
            r.len() == j - i,
            forall|k: int| 0 <= k < r.len() ==> #[trigger] r@[k] == v@[i + k],
        decreases v.len() - j,
    {
        r.push(v[j]);
        j = j + 1;
    }
    proof {
        assert(r@ =~= v@.skip(i as int));
        assert forall|k: int| 0 <= k < r@.len() implies #[trigger] r@[k] < 10 by {
            assert(v@[i + k] < 10);
        }
    }
    r
}

/// A number is below another one where the digits agree up to a place and its
/// digit is the lower one there.
proof fn lemma_lower_digit(a: Seq<u8>, b: Seq<u8>, i: int)
    requires
        are_digits(a),
        are_digits(b),
        a.len() == b.len(),
        0 <= i < a.len(),
        a.take(i) == b.take(i),
        a[i] < b[i],
    ensures
        value(a) < value(b),
{
    lemma_value_split(a, i);
    lemma_value_split(b, i);
    let x = a.skip(i);
    let y = b.skip(i);
    lemma_value_first(x);
    lemma_value_first(y);
    assert(are_digits(x.skip(1)));
    lemma_value_bound(x.skip(1));
    let p = pow10((x.len() - 1) as nat);
    let m = a[i] as nat;
    let n = b[i] as nat;
    assert(m * p + p <= n * p) by (nonlinear_arith)
        requires
            m + 1 <= n,
    ;
}

/// Whether a number, times a power of ten, is at least another one.
pub open spec fn at_least(a: Seq<u8>, e: int, b: Seq<u8>) -> bool {
    if e >= 0 {
        value(a) * pow10(e as nat) >= value(b)
    } else {
        value(a) >= value(b) * pow10((-e) as nat)
    }
}

/// How many digits a number times a power of ten has before the point decides,
/// where it differs from the number of digits of the other one.
pub proof fn lemma_at_least_by_length(a: Seq<u8>, e: int, b: Seq<u8>)
    requires
        are_digits(a),
        are_digits(b),
        a.len() > 0,
        a[0] > 0,
        b.len() > 0,
        b[0] > 0,
    ensures
        a.len() + e > b.len() ==> at_least(a, e, b),
        a.len() + e < b.len() ==> !at_least(a, e, b),
{
    lemma_value_lower(a);
    lemma_value_bound(a);
    lemma_value_lower(b);
    lemma_value_bound(b);
    let la = a.len();
    let lb = b.len();
    if e >= 0 {
        let p = pow10(e as nat);
        lemma_pow10_positive(e as nat);
        lemma_pow10_sum((la - 1) as nat, e as nat);
        lemma_pow10_sum(la, e as nat);
        if la + e > lb {
            let x = pow10((la - 1) as nat);
            let v = value(a);
            assert(v * p >= x * p) by (nonlinear_arith)
                requires
                    v >= x,
            ;
            lemma_pow10_monotone(lb, (la - 1 + e) as nat);
            assert((la - 1) as nat + e as nat == (la - 1 + e) as nat);
        }
        if la + e < lb {
            let x = pow10(la);
            let v = value(a);
            assert(v * p < x * p) by (nonlinear_arith)
                requires
                    v < x,
                    p > 0,
            ;
            lemma_pow10_monotone((la + e) as nat, (lb - 1) as nat);
            assert(la + e as nat == (la + e) as nat);
        }
    } else {
        let n = (-e) as nat;
        let p = pow10(n);
        lemma_pow10_positive(n);
        lemma_pow10_sum(lb, n);
        lemma_pow10_sum((lb - 1) as nat, n);
        if la + e > lb {
            let v = value(b);
            let x = pow10(lb);
            assert(v * p <= x * p) by (nonlinear_arith)
                requires
                    v <= x,
            ;
            lemma_pow10_monotone(lb + n, (la - 1) as nat);
        }
        if la + e < lb {
            let v = value(b);
            let x = pow10((lb - 1) as nat);
            assert(v * p >= x * p) by (nonlinear_arith)
                requires
                    v >= x,
            ;
            lemma_pow10_monotone(la, ((lb - 1) as nat + n) as nat);
        }
    }
}

/// The first `n` digits of `a`, with zeros where it has fewer.
spec fn padded(a: Seq<u8>, n: nat) -> Seq<u8> {
    Seq::new(n, |i: int| if i < a.len() { a[i] } else { 0u8 })
}

proof fn lemma_zeros(s: Seq<u8>)
    requires
        forall|i: int| 0 <= i < s.len() ==> #[trigger] s[i] == 0,
    ensures
        value(s) == 0,
    decreases s.len(),
{
    if s.len() > 0 {
        assert forall|i: int| 0 <= i < s.drop_last().len() implies #[trigger] s.drop_last()[i] == 0 by {
            assert(s[i] == 0);
        }
        lemma_zeros(s.drop_last());
        assert(s.last() == 0);
    }
}

/// Comparing with a number of as many digits is comparing its digits.
proof fn lemma_at_least_padded(a: Seq<u8>, e: int, b: Seq<u8>)
    requires
        are_digits(a),
        are_digits(b),
        a.len() + e == b.len(),
    ensures
        at_least(a, e, b) == (value(padded(a, b.len())) >= value(b)),
        are_digits(padded(a, b.len())),
{
    let t = padded(a, b.len());
    assert(are_digits(t));
    if e >= 0 {
        assert(t.take(a.len() as int) =~= a);
        lemma_value_split(t, a.len() as int);
        lemma_zeros(t.skip(a.len() as int));
        assert((t.len() - a.len()) as nat == e as nat);
    } else {
        let n = (-e) as nat;
        assert(t =~= a.take(b.len() as int));
        lemma_value_split(a, b.len() as int);
        assert((a.len() - b.len()) as nat == n);
        let rest = a.skip(b.len() as int);
        assert(are_digits(rest));
        lemma_value_bound(rest);
        let x = value(t);
        let y = value(b);
        let p = pow10(n);
        let r = value(rest);
        lemma_pow10_positive(n);
        if x >= y {
            assert(x * p + r >= y * p) by (nonlinear_arith)
                requires
                    x >= y,
            ;
        } else {
            assert(x * p + r < y * p) by (nonlinear_arith)
                requires
                    x + 1 <= y,
                    r < p,
            ;
        }
    }
}

/// Compares a number, times a power of ten, with another one.
pub fn is_at_least(a: &Vec<u8>, e: i128, b: &Vec<u8>) -> (r: bool)
    requires
        are_digits(a@),
        are_digits(b@),
        a.len() > 0,
        a@[0] > 0,
        b.len() > 0,
        b@[0] > 0,
        -0x1_0000_0000_0000_0000_0000_0000_0000 < e < 0x1_0000_0000_0000_0000_0000_0000_0000,
    ensures
        r == at_least(a@, e as int, b@),
{
    proof {
        lemma_at_least_by_length(a@, e as int, b@);
    }
    let length: i128 = a.len() as i128 + e;
    if length > b.len() as i128 {
        return true;
    }
    if length < b.len() as i128 {
        return false;
    }
    let ghost t = padded(a@, b@.len());
    proof {
        lemma_at_least_padded(a@, e as int, b@);
    }
    let mut i: usize = 0;
    while i < b.len()
        invariant
            i <= b.len(),
            t == padded(a@, b@.len()),
            are_digits(t),
            are_digits(b@),
            at_least(a@, e as int, b@) == (value(t) >= value(b@)),
            forall|j: int| 0 <= j < i ==> #[trigger] t[j] == b@[j],
        decreases b.len() - i,
    {
        let x: u8 = if i < a.len() {
            a[i]
        } else {
            0
        };
        let y: u8 = b[i];
        proof {
            assert(x == t[i as int]);
            assert(t.take(i as int) =~= b@.take(i as int));
        }
        if x < y {
            proof {
                lemma_lower_digit(t, b@, i as int);
            }
            return false;
        }
        if x > y {
            proof {
                lemma_lower_digit(b@, t, i as int);
            }
            return true;
        }
        i = i + 1;
    }
    assert(t =~= b@);
    true
}

/// The nearest whole number to a fraction, the even one of two.
pub open spec fn half_even(n: nat, d: nat) -> nat {
    let q = n / d;
    let r = n % d;
    if 2 * r < d || (2 * r == d && q % 2 == 0) {
        q
    } else {
        q + 1
    }
}

/// A number times a power of ten, rounded to a whole number.
pub open spec fn rounded(s: Seq<u8>, e: int) -> nat {
    if e >= 0 {
        value(s) * pow10(e as nat)
    } else {
        half_even(value(s), pow10((-e) as nat))
    }
}

/// A number with more than `n` digits before the point rounds to no less than
/// the power.
pub proof fn lemma_rounded_large(s: Seq<u8>, e: int, n: nat)
    requires
        are_digits(s),
        s.len() > 0,
        s[0] > 0,
        s.len() + e > n,
    ensures
        rounded(s, e) >= pow10(n),
{
    lemma_value_lower(s);
    let l = s.len();
    if e >= 0 {
        lemma_pow10_sum((l - 1) as nat, e as nat);
        let v = value(s);
        let x = pow10((l - 1) as nat);
        let p = pow10(e as nat);
        assert(v * p >= x * p) by (nonlinear_arith)
            requires
                v >= x,
        ;
        lemma_pow10_monotone(n, (l - 1 + e) as nat);
        assert((l - 1) as nat + e as nat == (l - 1 + e) as nat);
    } else {
        let k = (-e) as nat;
        let d = pow10(k);
        lemma_pow10_positive(k);
        lemma_pow10_sum(n, k);
        lemma_pow10_monotone(n + k, (l - 1) as nat);
        let v = value(s);
        let x = pow10(n);
        assert(v / d >= x) by (nonlinear_arith)
            requires
                v >= x * d,
                d > 0,
        ;
    }
}

/// A number whose first digit comes after the second place rounds to zero.
pub proof fn lemma_rounded_small(s: Seq<u8>, e: int)
    requires
        are_digits(s),
        s.len() + e < 0,
    ensures
        rounded(s, e) == 0,
{
    lemma_value_bound(s);
    let k = (-e) as nat;
    let l = s.len();
    lemma_pow10_positive(l);
    lemma_pow10_monotone(l + 1, k);
    let v = value(s);
    let d = pow10(k);
    assert(2 * v < d);
    assert(v / d == 0 && v % d == v) by (nonlinear_arith)
        requires
            v < d,
    ;
}

pub proof fn lemma_rounded_zero(s: Seq<u8>, e: int)
    requires
        value(s) == 0,
    ensures
        rounded(s, e) == 0,
{
    if e >= 0 {
        assert(0 * pow10(e as nat) == 0) by (nonlinear_arith);
    } else {
        let d = pow10((-e) as nat);
        lemma_pow10_positive((-e) as nat);
        assert(0nat / d == 0 && 0nat % d == 0) by (nonlinear_arith)
            requires
                d > 0,
        ;
    }
}

proof fn lemma_sixteen_digits()
    ensures
        pow10(16) == 10_000_000_000_000_000,
{
    reveal_with_fuel(pow10, 17);
}

/// The number that up to eighteen digits stand for.
fn small_value(v: &Vec<u8>, n: usize) -> (r: u64)
    requires
        are_digits(v@),
        n <= v.len(),
        n <= 18,
    ensures
        r == value(v@.take(n as int)),
        r < pow10(n as nat),
{
    let mut r: u64 = 0;
    let mut i: usize = 0;
    proof {
        reveal_with_fuel(pow10, 19);
    }
    while i < n
        invariant
            i <= n,
            n <= v.len(),
            n <= 18,
            are_digits(v@),
            r == value(v@.take(i as int)),
            r < pow10(i as nat),
        decreases n - i,
    {
        proof {
            lemma_pow10_monotone(i as nat, 17);
            reveal_with_fuel(pow10, 19);
            assert(v@.take(i + 1).drop_last() =~= v@.take(i as int));
            assert(v@.take(i + 1).last() == v@[i as int]);
        }
        r = r * 10 + v[i] as u64;
        i = i + 1;
    }
    r
}

fn is_zero_from(v: &Vec<u8>, from: usize) -> (b: bool)
    requires
        from <= v.len(),
        are_digits(v@),
    ensures
        b == (value(v@.skip(from as int)) == 0),
{
    let mut i: usize = from;
    while i < v.len()
        invariant
            from <= i <= v.len(),
            are_digits(v@),
            value(v@.skip(from as int)) == value(v@.skip(i as int)),
        decreases v.len() - i,
    {
        let ghost s = v@.skip(i as int);
        proof {
            lemma_value_first(s);
            assert(s.skip(1) =~= v@.skip(i + 1));
            lemma_pow10_positive((s.len() - 1) as nat);
        }
        if v[i] != 0 {
            proof {
                let f = s[0] as nat;
                let p = pow10((s.len() - 1) as nat);
                assert(f * p > 0) by (nonlinear_arith)
                    requires
                        f > 0,
                        p > 0,
                ;
            }
            return false;
        }
        proof {
            assert(0 * pow10((s.len() - 1) as nat) == 0) by (nonlinear_arith);
        }
        i = i + 1;
    }
    assert(v@.skip(v.len() as int) =~= Seq::<u8>::empty());
    true
}

/// The first `p` digits, rounded by those that follow.
fn round_at(v: &Vec<u8>, p: usize) -> (r: u64)
    requires
        are_digits(v@),
        p < v.len(),
        p <= 16,
    ensures
        r == rounded(v@, p - v.len()),
{
    let q = small_value(v, p);
    let first = v[p];
    let rest_is_zero = is_zero_from(v, p + 1);
    proof {
        let s = v@;
        let k = (v.len() - p) as nat;
        let d = pow10(k);
        lemma_value_split(s, p as int);
        let tail = s.skip(p as int);
        assert(are_digits(tail));
        lemma_value_bound(tail);
        lemma_value_first(tail);
        assert(tail.skip(1) =~= s.skip(p + 1));
        assert(are_digits(s.skip(p + 1)));
        lemma_value_bound(s.skip(p + 1));
        let r0 = value(tail);
        let h = pow10((k - 1) as nat);
        assert(d == 10 * h);
        let n = value(s);
        let qn = q as nat;
        assert(n == qn * d + r0);
        lemma_pow10_positive((k - 1) as nat);
        assert(n / d == qn && n % d == r0) by (nonlinear_arith)
            requires
                n == qn * d + r0,
                r0 < d,
        ;
        let f = first as nat;
        let w = value(s.skip(p + 1));
        assert(r0 == f * h + w);
        if f < 5 {
            assert(2 * (f * h + w) < 10 * h) by (nonlinear_arith)
                requires
                    f <= 4,
                    w < h,
            ;
        } else if f > 5 {
            assert(2 * (f * h + w) > 10 * h) by (nonlinear_arith)
                requires
                    f >= 6,
                    h > 0,
            ;
        } else {
            assert(2 * (5 * h + w) == 10 * h + 2 * w) by (nonlinear_arith);
        }
        lemma_pow10_monotone(p as nat, 16);
        lemma_sixteen_digits();
    }
    if first < 5 || (first == 5 && rest_is_zero && q % 2 == 0) {
        q
    } else {
        q + 1
    }
}

/// The digits of a small number with zeros behind them.
fn scaled(v: &Vec<u8>, zeros: usize) -> (r: u64)
    requires
        are_digits(v@),
        v.len() + zeros <= 16,
    ensures
        r == value(v@) * pow10(zeros as nat),
{
    let mut r: u64 = small_value(v, v.len());
    let mut i: usize = 0;
    proof {
        assert(v@.take(v.len() as int) =~= v@);
        assert(value(v@) * 1 == value(v@)) by (nonlinear_arith);
    }
    while i < zeros
        invariant
            i <= zeros,
            v.len() + zeros <= 16,
            r == value(v@) * pow10(i as nat),
            r < pow10((v.len() + i) as nat),
        decreases zeros - i,
    {
        proof {
            lemma_pow10_monotone((v.len() + i) as nat, 16);
            lemma_sixteen_digits();
            let x = value(v@);
            let p = pow10(i as nat);
            assert(pow10((i + 1) as nat) == 10 * p);
            assert((x * p) * 10 == x * (10 * p)) by (nonlinear_arith);
        }
        r = r * 10;
        i = i + 1;
    }
    r
}

/// A number times a power of ten, rounded to a whole number, where that has
/// at most sixteen digits.
pub fn round(v: &Vec<u8>, e: i128) -> (r: Option<u64>)
    requires
        are_digits(v@),
        -0x1_0000_0000_0000_0000_0000_0000_0000 < e < 0x1_0000_0000_0000_0000_0000_0000_0000,
    ensures
        match r {
            Some(n) => n == rounded(v@, e as int),
            None => rounded(v@, e as int) >= 10_000_000_000_000_000,
        },
{
    let s = without_leading_zeros(v);
    proof {
        assert(rounded(s@, e as int) == rounded(v@, e as int));
    }
    if s.len() == 0 {
        proof {
            lemma_rounded_zero(s@, e as int);
        }
        return Some(0);
    }
    let length: i128 = s.len() as i128 + e;
    if length > 16 {
        proof {
            lemma_rounded_large(s@, e as int, 16);
            lemma_sixteen_digits();
        }
        return None;
    }
    if length < 0 {
        proof {
            lemma_rounded_small(s@, e as int);
        }
        return Some(0);
    }
    if e >= 0 {
        return Some(scaled(&s, e as usize));
    }
    assert(e as int == length as int - s.len());
    Some(round_at(&s, length as usize))
}

/// The number that up to twenty-five digits stand for.
pub fn wide_value(v: &Vec<u8>) -> (r: u128)
    requires
        are_digits(v@),
        v.len() <= 25,
    ensures
        r == value(v@),
        r < 10_000_000_000_000_000_000_000_000,
{
    let mut r: u128 = 0;
    let mut i: usize = 0;
    proof {
        reveal_with_fuel(pow10, 26);
        assert(v@.take(0) =~= Seq::<u8>::empty());
    }
    while i < v.len()
        invariant
            i <= v.len(),
            v.len() <= 25,
            are_digits(v@),
            r == value(v@.take(i as int)),
            r < pow10(i as nat),
        decreases v.len() - i,
    {
        proof {
            lemma_pow10_monotone(i as nat, 24);
            reveal_with_fuel(pow10, 26);
            assert(v@.take(i + 1).drop_last() =~= v@.take(i as int));
            assert(v@.take(i + 1).last() == v@[i as int]);
        }
        r = r * 10 + v[i] as u128;
        i = i + 1;
    }
    proof {
        assert(v@.take(v.len() as int) =~= v@);
        lemma_pow10_monotone(v.len() as nat, 25);
        reveal_with_fuel(pow10, 26);
    }
    r
}

} // verus!
