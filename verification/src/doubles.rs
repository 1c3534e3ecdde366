//! Numbers of double precision. Each is a multiple of the smallest one, two to
//! the power of -1074, and is given here by how many of those it has.
use crate::digits::half_even;
use vstd::arithmetic::div_mod::{lemma_fundamental_div_mod, lemma_fundamental_div_mod_converse};
use vstd::arithmetic::power2::{lemma2_to64, lemma2_to64_rest, lemma_pow2_adds, lemma_pow2_pos, lemma_pow2_strictly_increases, pow2};
use vstd::prelude::*;

verus! {

/// A number that is not negative, as a fraction.
pub struct Ratio {
    pub num: nat,
    pub den: nat,
}

/// Whether doubles near `n / d` are two to the power of `k` apart: that leaves
/// fifty-three binary digits for the number.
pub open spec fn is_step(n: nat, d: nat, k: nat) -> bool {
    &&& n < d * pow2(53 + k)
    &&& k > 0 ==> n >= d * pow2(52 + k)
}

/// The double nearest to `n / d`, the one with the even last digit of two. Both
/// the fraction and the double are counted in the smallest double.
pub open spec fn nearest(n: nat, d: nat) -> nat {
    let k = choose|k: nat| is_step(n, d, k);
    half_even(n, d * pow2(k)) * pow2(k)
}

/// How often a whole number has the smallest double in it.
pub open spec fn counted(n: nat) -> nat {
    n * pow2(1074)
}

/// The double with the binary digits of `m`, `s` of them behind the point.
pub open spec fn binary(m: nat, s: nat) -> nat {
    m * pow2((1074 - s) as nat)
}

/// The double nearest to a fraction.
pub open spec fn double(x: Ratio) -> nat {
    nearest(counted(x.num), x.den)
}

/// The product of two doubles, as a double.
pub open spec fn product(a: nat, b: nat) -> nat {
    nearest(a * b, counted(1))
}

/// The whole number nearest to a double, the even one of two.
pub open spec fn whole(a: nat) -> nat {
    half_even(a, counted(1))
}

// ---------------------------------------------------------------------------
// Rounding
// ---------------------------------------------------------------------------

proof fn lemma_half_even_scaled(n: nat, d: nat, k: nat)
    requires
        d > 0,
        k > 0,
    ensures
        half_even(n * k, d * k) == half_even(n, d),
{
    let q = n / d;
    let r = n % d;
    lemma_fundamental_div_mod(n as int, d as int);
    assert(n * k == q * (d * k) + r * k) by (nonlinear_arith)
        requires
            n == d * q + r,
    ;
    assert(r * k < d * k) by (nonlinear_arith)
        requires
            r < d,
            k > 0,
    ;
    lemma_fundamental_div_mod_converse((n * k) as int, (d * k) as int, q as int, (r * k) as int);
    assert(2 * (r * k) < d * k <==> 2 * r < d) by (nonlinear_arith)
        requires
            k > 0,
    ;
    assert(2 * (r * k) == d * k <==> 2 * r == d) by (nonlinear_arith)
        requires
            k > 0,
    ;
}

pub proof fn lemma_half_even_at_least(n: nat, d: nat, c: nat)
    requires
        d > 0,
        n >= c * d,
    ensures
        half_even(n, d) >= c,
{
    assert(n / d >= c) by (nonlinear_arith)
        requires
            d > 0,
            n >= c * d,
    ;
}

pub proof fn lemma_half_even_at_most(n: nat, d: nat, c: nat)
    requires
        d > 0,
        n <= c * d,
    ensures
        half_even(n, d) <= c,
{
    let q = n / d;
    let r = n % d;
    lemma_fundamental_div_mod(n as int, d as int);
    if q >= c {
        assert(q == c && r == 0) by (nonlinear_arith)
            requires
                d > 0,
                n == d * q + r,
                n <= c * d,
                q >= c,
        ;
    }
}

proof fn lemma_half_even_small(n: nat, d: nat)
    requires
        2 * n < d,
    ensures
        half_even(n, d) == 0,
{
    lemma_fundamental_div_mod_converse(n as int, d as int, 0, n as int);
}

proof fn lemma_half_even_whole(n: nat)
    ensures
        half_even(n, 1) == n,
{
}

// ---------------------------------------------------------------------------
// Steps
// ---------------------------------------------------------------------------

proof fn lemma_pow2_monotone(a: nat, b: nat)
    requires
        a <= b,
    ensures
        0 < pow2(a) <= pow2(b),
{
    lemma_pow2_pos(a);
    if a < b {
        lemma_pow2_strictly_increases(a, b);
    }
}

proof fn lemma_below_pow2(n: nat)
    ensures
        n < pow2(n),
    decreases n,
{
    if n > 0 {
        lemma_below_pow2((n - 1) as nat);
        lemma_pow2_adds(1, (n - 1) as nat);
        lemma2_to64();
    } else {
        lemma2_to64();
    }
}

proof fn lemma_step_exists(n: nat, d: nat, k: nat)
    requires
        n < d * pow2(53 + k),
    ensures
        exists|j: nat| is_step(n, d, j),
    decreases k,
{
    if k > 0 && n < d * pow2((52 + k) as nat) {
        assert((52 + k) as nat == (53 + (k - 1) as nat) as nat);
        lemma_step_exists(n, d, (k - 1) as nat);
    } else {
        assert(is_step(n, d, k));
    }
}

proof fn lemma_step_is_unique(n: nat, d: nat, j: nat, k: nat)
    requires
        is_step(n, d, j),
        is_step(n, d, k),
    ensures
        j == k,
    decreases j,
{
    if j < k {
        lemma_pow2_monotone((53 + j) as nat, (52 + k) as nat);
        let x = pow2((53 + j) as nat);
        let y = pow2((52 + k) as nat);
        assert(d * x <= d * y) by (nonlinear_arith)
            requires
                x <= y,
        ;
    }
    if k < j {
        lemma_step_is_unique(n, d, k, j);
    }
}

/// The double at a known step.
proof fn lemma_nearest_at(n: nat, d: nat, k: nat)
    requires
        is_step(n, d, k),
    ensures
        nearest(n, d) == half_even(n, d * pow2(k)) * pow2(k),
{
    let j = choose|j: nat| is_step(n, d, j);
    lemma_step_is_unique(n, d, j, k);
}

/// Every fraction has a step.
proof fn lemma_step(n: nat, d: nat) -> (k: nat)
    requires
        d > 0,
    ensures
        is_step(n, d, k),
        nearest(n, d) == half_even(n, d * pow2(k)) * pow2(k),
{
    lemma_below_pow2(n);
    lemma_pow2_monotone(n, (53 + n) as nat);
    let p = pow2((53 + n) as nat);
    assert(p <= d * p) by (nonlinear_arith)
        requires
            d > 0,
    ;
    lemma_step_exists(n, d, n);
    let k = choose|k: nat| is_step(n, d, k);
    k
}

/// A fraction from a power of two on has no double below it.
proof fn lemma_nearest_at_least(n: nat, d: nat, j: nat)
    requires
        d > 0,
        n >= d * pow2(j),
    ensures
        nearest(n, d) >= pow2(j),
{
    let k = lemma_step(n, d);
    let g = pow2(k);
    lemma_pow2_pos(k);
    let dg = d * g;
    assert(dg > 0) by (nonlinear_arith)
        requires
            d > 0,
            g > 0,
            dg == d * g,
    ;
    let h = half_even(n, dg);
    if k <= j {
        let c = pow2((j - k) as nat);
        lemma_pow2_adds((j - k) as nat, k);
        assert(d * (c * g) == c * (d * g)) by (nonlinear_arith);
        lemma_half_even_at_least(n, dg, c);
        assert(h * g >= c * g) by (nonlinear_arith)
            requires
                h >= c,
        ;
    } else {
        let c = pow2(52);
        lemma_pow2_adds(52, k);
        assert(d * (c * g) == c * (d * g)) by (nonlinear_arith);
        lemma_half_even_at_least(n, dg, c);
        lemma_pow2_monotone(0, 52);
        lemma2_to64();
        assert(h * g >= g) by (nonlinear_arith)
            requires
                h >= 1,
        ;
        lemma_pow2_monotone(j, k);
    }
}

/// A fraction up to a power of two has no double above it.
proof fn lemma_nearest_at_most(n: nat, d: nat, j: nat)
    requires
        d > 0,
        n <= d * pow2(j),
    ensures
        nearest(n, d) <= pow2(j),
{
    let k = lemma_step(n, d);
    let g = pow2(k);
    lemma_pow2_pos(k);
    let dg = d * g;
    assert(dg > 0) by (nonlinear_arith)
        requires
            d > 0,
            g > 0,
            dg == d * g,
    ;
    let h = half_even(n, dg);
    if k <= j {
        let c = pow2((j - k) as nat);
        lemma_pow2_adds((j - k) as nat, k);
        assert(d * (c * g) == c * (d * g)) by (nonlinear_arith);
        lemma_half_even_at_most(n, dg, c);
        assert(h * g <= c * g) by (nonlinear_arith)
            requires
                h <= c,
        ;
    } else {
        lemma_pow2_strictly_increases(j, (52 + k) as nat);
        let x = pow2(j);
        let y = pow2((52 + k) as nat);
        assert(d * x < d * y) by (nonlinear_arith)
            requires
                x < y,
                d > 0,
        ;
    }
}

// ---------------------------------------------------------------------------
// Fractions of the size of timeouts
// ---------------------------------------------------------------------------

/// The double nearest to a fraction whose multiple by `2^s` has fifty-three
/// binary digits before the point.
pub proof fn lemma_double(x: Ratio, s: nat)
    requires
        x.den > 0,
        s < 1074,
        x.den * pow2(52) <= x.num * pow2(s) < x.den * pow2(53),
    ensures
        double(x) == binary(half_even(x.num * pow2(s), x.den), s),
{
    let p = x.num;
    let q = x.den;
    let k = (1074 - s) as nat;
    let g = pow2(k);
    let y = pow2(s);
    lemma_pow2_pos(k);
    lemma_pow2_adds(s, k);
    lemma_pow2_adds(53, k);
    lemma_pow2_adds(52, k);
    assert(p * (y * g) == (p * y) * g) by (nonlinear_arith);
    let z = pow2(53);
    let w = pow2(52);
    assert((p * y) * g < q * (z * g)) by (nonlinear_arith)
        requires
            p * y < q * z,
            g > 0,
    ;
    assert((p * y) * g >= q * (w * g)) by (nonlinear_arith)
        requires
            p * y >= q * w,
    ;
    lemma_nearest_at(counted(p), q, k);
    lemma_half_even_scaled(p * y, q, g);
}

/// The product of two doubles that are known by their binary digits.
pub proof fn lemma_product(m: nat, s: nat, a: nat, b: nat, r: nat)
    requires
        s + b <= 1074,
        pow2(52 + r) <= m * a < pow2(53 + r),
    ensures
        product(binary(m, s), binary(a, b)) == half_even(m * a, pow2(r)) * pow2((r + 1074 - (s + b)) as nat),
{
    let t = s + b;
    let p = m * a;
    let h = pow2(1074);
    let g = pow2((1074 - t) as nat);
    let x = pow2((1074 - s) as nat);
    let y = pow2((1074 - b) as nat);
    let gh = g * h;
    lemma_pow2_adds((1074 - s) as nat, (1074 - b) as nat);
    lemma_pow2_adds((1074 - t) as nat, 1074);
    assert((m * x) * (a * y) == (m * a) * (x * y)) by (nonlinear_arith);
    lemma_pow2_pos(1074);
    lemma_pow2_pos((1074 - t) as nat);
    lemma_pow2_pos(r);
    assert(gh > 0) by (nonlinear_arith)
        requires
            g > 0,
            h > 0,
            gh == g * h,
    ;
    let k = (r + 1074 - t) as nat;
    lemma_pow2_adds(r, (1074 - t) as nat);
    lemma_pow2_adds((53 + r) as nat, (1074 - t) as nat);
    lemma_pow2_adds((52 + r) as nat, (1074 - t) as nat);
    let hi = pow2((53 + r) as nat);
    let lo = pow2((52 + r) as nat);
    let rr = pow2(r);
    assert(p * gh < h * (hi * g)) by (nonlinear_arith)
        requires
            p < hi,
            gh > 0,
            gh == g * h,
    ;
    assert(p * gh >= h * (lo * g)) by (nonlinear_arith)
        requires
            p >= lo,
            gh == g * h,
    ;
    assert(1 * h == h);
    assert(counted(1) == h);
    assert((53 + k) as nat == ((53 + r) as nat + (1074 - t) as nat) as nat);
    assert((52 + k) as nat == ((52 + r) as nat + (1074 - t) as nat) as nat);
    assert(is_step(p * gh, h, k));
    lemma_nearest_at(p * gh, h, k);
    assert(h * (rr * g) == rr * gh) by (nonlinear_arith)
        requires
            gh == g * h,
    ;
    lemma_half_even_scaled(p, rr, gh);
}

/// The whole number nearest to a double that is known by its binary digits.
pub proof fn lemma_whole(m: nat, r: nat, t: nat)
    requires
        t <= 1074,
    ensures
        r >= t ==> whole(m * pow2((r + 1074 - t) as nat)) >= m,
        r < t ==> whole(m * pow2((r + 1074 - t) as nat)) == half_even(m, pow2((t - r) as nat)),
{
    let h = pow2(1074);
    lemma_pow2_pos(1074);
    assert(counted(1) == h);
    if r >= t {
        let z = pow2((r - t) as nat);
        lemma_pow2_pos((r - t) as nat);
        lemma_pow2_adds((r - t) as nat, 1074);
        assert(m * (z * h) >= m * h) by (nonlinear_arith)
            requires
                z >= 1,
        ;
        lemma_half_even_at_least(m * (z * h), h, m);
    } else {
        let k = (t - r) as nat;
        let g = pow2((1074 - k) as nat);
        lemma_pow2_pos((1074 - k) as nat);
        lemma_pow2_pos(k);
        lemma_pow2_adds(k, (1074 - k) as nat);
        lemma_half_even_scaled(m, pow2(k), g);
    }
}

/// Whole numbers of up to fifty-three binary digits are doubles.
pub proof fn lemma_whole_is_exact(n: nat, d: nat)
    requires
        n < pow2(53),
        d > 0,
    ensures
        nearest(counted(n) * d, d) == counted(n),
{
    let h = pow2(1074);
    let a = n * h;
    let k = lemma_step(a * d, d);
    let g = pow2(k);
    lemma_pow2_pos(k);
    lemma_pow2_pos(1074);
    if k > 1074 {
        let z = pow2(53);
        let w = pow2((52 + k) as nat);
        lemma_pow2_adds(53, 1074);
        lemma_pow2_monotone(1127, (52 + k) as nat);
        assert(n * h < z * h) by (nonlinear_arith)
            requires
                n < z,
                h > 0,
        ;
        assert(a * d < d * w) by (nonlinear_arith)
            requires
                a < w,
                d > 0,
        ;
    }
    let j = (1074 - k) as nat;
    let c = pow2(j);
    lemma_pow2_adds(j, k);
    assert(n * (c * g) == (n * c) * g) by (nonlinear_arith);
    assert(d * g == g * d) by (nonlinear_arith);
    lemma_half_even_scaled(a, g, d);
    assert(1 * g == g);
    lemma_half_even_scaled(n * c, 1, g);
    lemma_half_even_whole(n * c);
}

/// Products of whole numbers are exact.
pub proof fn lemma_whole_product(n: nat, u: nat)
    requires
        n < pow2(53),
        n * u < pow2(53),
    ensures
        whole(product(double(Ratio { num: n, den: 1 }), counted(u))) == n * u,
{
    let h = pow2(1074);
    lemma_pow2_pos(1074);
    assert(counted(1) == h);
    assert(counted(n) * 1 == counted(n));
    lemma_whole_is_exact(n, 1);
    assert((n * h) * (u * h) == ((n * u) * h) * h) by (nonlinear_arith);
    lemma_whole_is_exact(n * u, h);
    assert(1 * h == h);
    lemma_half_even_scaled(n * u, 1, h);
    lemma_half_even_whole(n * u);
}

/// What is large stays large under any unit.
pub proof fn lemma_large(x: Ratio, unit: nat)
    requires
        x.den > 0,
        x.num >= x.den * pow2(53),
        unit >= pow2(1064),
    ensures
        whole(product(double(x), unit)) >= 0x800_0000_0000,
{
    let h = pow2(1074);
    let q = x.den;
    let z = pow2(53);
    lemma_pow2_pos(1074);
    assert(counted(1) == h);
    lemma_pow2_adds(53, 1074);
    let p = x.num;
    assert(p * h >= q * (z * h)) by (nonlinear_arith)
        requires
            p >= q * z,
    ;
    lemma_nearest_at_least(p * h, q, 1127);
    let a = double(x);
    let u = pow2(1127);
    let v = pow2(1064);
    assert(a * unit >= u * v) by (nonlinear_arith)
        requires
            a >= u,
            unit >= v,
    ;
    lemma_pow2_adds(1127, 1064);
    lemma_pow2_adds(1074, 1117);
    lemma_nearest_at_least(a * unit, h, 1117);
    lemma_pow2_adds(43, 1074);
    lemma2_to64_rest();
    lemma_half_even_at_least(product(a, unit), h, pow2(43));
}

/// What is small stays small under any unit.
pub proof fn lemma_small(x: Ratio, unit: nat)
    requires
        x.den > 0,
        x.num * pow2(61) <= x.den,
        unit <= pow2(1101),
    ensures
        whole(product(double(x), unit)) == 0,
{
    let h = pow2(1074);
    let q = x.den;
    let p = x.num;
    let z = pow2(61);
    let g = pow2(1013);
    lemma_pow2_pos(1074);
    lemma_pow2_pos(1013);
    assert(counted(1) == h);
    lemma_pow2_adds(61, 1013);
    assert(p * (z * g) <= q * g) by (nonlinear_arith)
        requires
            p * z <= q,
    ;
    lemma_nearest_at_most(p * h, q, 1013);
    let a = double(x);
    let v = pow2(1101);
    assert(a * unit <= g * v) by (nonlinear_arith)
        requires
            a <= g,
            unit <= v,
    ;
    lemma_pow2_adds(1013, 1101);
    lemma_pow2_adds(1074, 1040);
    lemma_nearest_at_most(a * unit, h, 1040);
    lemma_pow2_adds(1, 1040);
    lemma2_to64();
    lemma_pow2_strictly_increases(1041, 1074);
    lemma_half_even_small(product(a, unit), h);
}

/// Two to a power.
fn power(k: u32) -> (r: u64)
    requires
        k <= 60,
    ensures
        r == pow2(k as nat),
{
    let mut r: u64 = 1;
    let mut i: u32 = 0;
    proof {
        lemma2_to64();
    }
    while i < k
        invariant
            i <= k <= 60,
            r == pow2(i as nat),
        decreases k - i,
    {
        proof {
            lemma2_to64();
            lemma2_to64_rest();
            lemma_pow2_adds(1, i as nat);
            lemma_pow2_monotone((i + 1) as nat, 60);
        }
        r = r * 2;
        i = i + 1;
    }
    r
}

fn find_half_even(n: u128, d: u128) -> (r: u128)
    requires
        0 < d < 0x1000_0000_0000_0000_0000_0000_0000_0000,
        n < 0x1000_0000_0000_0000_0000_0000_0000_0000,
    ensures
        r == half_even(n as nat, d as nat),
{
    let q: u128 = n / d;
    let rest: u128 = n % d;
    assert(q <= n) by (nonlinear_arith)
        requires
            d > 0,
            q == n / d,
    ;
    if 2 * rest < d || (2 * rest == d && q % 2 == 0) {
        q
    } else {
        q + 1
    }
}

/// The product of two doubles that are known by their binary digits, as a whole
/// number, where that is below `2^52`.
pub fn whole_product(m: u64, s: u32, a: u64, b: u32) -> (r: Option<u64>)
    requires
        0x10_0000_0000_0000 <= m <= 0x20_0000_0000_0000,
        1 <= a <= 0x20_0000_0000_0000,
        s <= 113,
        b <= 62,
    ensures
        match r {
            Some(n) => n == whole(product(binary(m as nat, s as nat), binary(a as nat, b as nat))),
            None => whole(product(binary(m as nat, s as nat), binary(a as nat, b as nat))) >= 0x10_0000_0000_0000,
        },
{
    proof {
        lemma2_to64();
        lemma2_to64_rest();
        assert(m * a <= 0x20_0000_0000_0000 * 0x20_0000_0000_0000) by (nonlinear_arith)
            requires
                m <= 0x20_0000_0000_0000,
                a <= 0x20_0000_0000_0000,
        ;
        assert(m * a >= m) by (nonlinear_arith)
            requires
                a >= 1,
        ;
    }
    let p: u128 = m as u128 * a as u128;
    let mut r: u32 = 0;
    let mut step: u128 = 1;
    let mut limit: u128 = 0x20_0000_0000_0000;
    while r < 54 && p >= limit
        invariant
            r <= 54,
            step == pow2(r as nat),
            limit == pow2((53 + r) as nat),
            limit == step * 0x20_0000_0000_0000,
            step <= 0x40_0000_0000_0000,
            p >= pow2((52 + r) as nat),
        decreases 54 - r,
    {
        proof {
            lemma2_to64();
            lemma2_to64_rest();
            lemma_pow2_adds(1, r as nat);
            lemma_pow2_adds(1, (53 + r) as nat);
            lemma_pow2_monotone((r + 1) as nat, 54);
        }
        step = step * 2;
        limit = limit * 2;
        r = r + 1;
    }
    proof {
        if r == 54 {
            lemma2_to64_rest();
        }
        lemma_pow2_pos(r as nat);
    }
    let m2: u128 = find_half_even(p, step);
    let t: u32 = s + b;
    proof {
        lemma_product(m as nat, s as nat, a as nat, b as nat, r as nat);
        lemma_whole(m2 as nat, r as nat, t as nat);
        lemma_pow2_adds(52, r as nat);
        lemma_pow2_adds(53, r as nat);
        lemma_half_even_at_least(p as nat, step as nat, pow2(52));
        lemma_half_even_at_most(p as nat, step as nat, pow2(53));
        lemma2_to64_rest();
    }
    if r >= t {
        return None;
    }
    let k: u32 = t - r;
    if k >= 55 {
        proof {
            lemma_pow2_monotone(55, k as nat);
            lemma2_to64_rest();
            lemma_half_even_small(m2 as nat, pow2(k as nat));
        }
        return Some(0);
    }
    let d = power(k);
    proof {
        lemma_pow2_pos(k as nat);
        assert(m2 <= m2 * d) by (nonlinear_arith)
            requires
                d > 0,
        ;
        lemma_half_even_at_most(m2 as nat, d as nat, m2 as nat);
    }
    Some(find_half_even(m2, d as u128) as u64)
}

/// The double nearest to a thousandth.
pub proof fn lemma_thousandth()
    ensures
        double(Ratio { num: 1, den: 1000 }) == binary(4_611_686_018_427_388, 62),
{
    lemma2_to64();
    lemma2_to64_rest();
    lemma_double(Ratio { num: 1, den: 1000 }, 62);
    lemma_fundamental_div_mod_converse(0x4000_0000_0000_0000, 1000, 4_611_686_018_427_387, 904);
}

} // verus!
