//! Exact integer model of the IEEE-754 double arithmetic that byte sizes and
//! percentages are shown with.
//!
//! A positive double is a pair `(m, e)` standing for `m * 2^e`. Rounding is to
//! nearest with ties to even, as in `as f64` conversions, `/` and `*`;
//! `round_half_away` is `f64::round`; `tenths_half_even` is the digit count
//! that `{:.1}` formatting produces (the exact value, rounded to one decimal,
//! ties to even). All values here are normal doubles, so no subnormal or
//! overflow cases arise.

use vstd::prelude::*;

verus! {

pub open spec fn two_pow(e: nat) -> nat
    decreases e,
{
    if e == 0 {
        1
    } else {
        2 * two_pow((e - 1) as nat)
    }
}

/// `num / den` rounded to the nearest integer, ties to even.
pub open spec fn rhe(num: nat, den: nat) -> nat {
    let q = num / den;
    let r = num % den;
    if 2 * r > den {
        q + 1
    } else if 2 * r < den {
        q
    } else if q % 2 == 1 {
        q + 1
    } else {
        q
    }
}

/// `floor(log2(n))` for `n >= 1` (and 0 for `n == 0`).
pub open spec fn flog2(n: nat) -> nat
    decreases n,
{
    if n < 2 {
        0
    } else {
        1 + flog2(n / 2)
    }
}

/// How far `num` is below `den`.
pub open spec fn gap(num: nat, den: nat) -> nat {
    if num >= den {
        0
    } else {
        (den - num) as nat
    }
}

/// `floor(log2(num / den))` for positive `num` and `den`.
pub open spec fn ratio_log2(num: nat, den: nat) -> int
    decreases gap(num, den),
    when num > 0
{
    if num >= den {
        flog2(num / den) as int
    } else {
        ratio_log2(num * 2, den) - 1
    }
}

/// The double nearest to `num / den` (positive), as `(m, e)`.
pub open spec fn round_to_double(num: nat, den: nat) -> (nat, int) {
    let e = ratio_log2(num, den) - 52;
    if e >= 0 {
        (rhe(num, den * two_pow(e as nat)), e)
    } else {
        (rhe(num * two_pow((-e) as nat), den), e)
    }
}

/// The double `n as f64` gives.
pub open spec fn f64_of(n: nat) -> (nat, int) {
    if n == 0 {
        (0, 0)
    } else {
        round_to_double(n, 1)
    }
}

/// The double `a / b` gives (a positive, b positive).
pub open spec fn f64_div(a: (nat, int), b: (nat, int)) -> (nat, int) {
    let r = round_to_double(a.0, b.0);
    (r.0, r.1 + a.1 - b.1)
}

/// The double `a * b` gives (both positive).
pub open spec fn f64_mul(a: (nat, int), b: (nat, int)) -> (nat, int) {
    let r = round_to_double(a.0 * b.0, 1);
    (r.0, r.1 + a.1 + b.1)
}

/// `f64::round` of a non-negative double: to nearest, ties away from zero.
pub open spec fn round_half_away(d: (nat, int)) -> nat {
    if d.1 >= 0 {
        d.0 * two_pow(d.1 as nat)
    } else {
        (2 * d.0 + two_pow((-d.1) as nat)) / (2 * two_pow((-d.1) as nat))
    }
}

/// Ten times a non-negative double, rounded to an integer with ties to even:
/// the digits `{:.1}` prints, without the point.
pub open spec fn tenths_half_even(d: (nat, int)) -> nat {
    if d.1 >= 0 {
        d.0 * two_pow(d.1 as nat) * 10
    } else {
        rhe(d.0 * 10, two_pow((-d.1) as nat))
    }
}

pub proof fn lemma_two_pow_pos(e: nat)
    ensures
        two_pow(e) >= 1,
    decreases e,
{
    if e > 0 {
        lemma_two_pow_pos((e - 1) as nat);
    }
}

pub proof fn lemma_two_pow_adds(a: nat, b: nat)
    ensures
        two_pow(a + b) == two_pow(a) * two_pow(b),
    decreases a,
{
    if a == 0 {
        assert(two_pow(0) == 1);
        assert(a + b == b);
    } else {
        let a1 = (a - 1) as nat;
        lemma_two_pow_adds(a1, b);
        assert(a + b == (a1 + b) + 1);
        assert(two_pow(a + b) == 2 * two_pow(a1 + b));
        assert(two_pow(a) == 2 * two_pow(a1));
        let x = two_pow(a1);
        let y = two_pow(b);
        assert((2 * x) * y == 2 * (x * y)) by (nonlinear_arith);
    }
}

pub proof fn lemma_two_pow_mono(a: nat, b: nat)
    requires
        a <= b,
    ensures
        two_pow(a) <= two_pow(b),
    decreases b,
{
    if a < b {
        lemma_two_pow_mono(a, (b - 1) as nat);
        lemma_two_pow_pos((b - 1) as nat);
    }
}

pub proof fn lemma_two_pow_values()
    ensures
        two_pow(10) == 0x400,
        two_pow(20) == 0x10_0000,
        two_pow(52) == 0x10_0000_0000_0000,
        two_pow(53) == 0x20_0000_0000_0000,
        two_pow(64) == 0x1_0000_0000_0000_0000,
        two_pow(117) == 0x20_0000_0000_0000_0000_0000_0000_0000,
        two_pow(120) == 0x100_0000_0000_0000_0000_0000_0000_0000,
        two_pow(127) == 0x8000_0000_0000_0000_0000_0000_0000_0000,
        two_pow(128) == 0x1_0000_0000_0000_0000_0000_0000_0000_0000,
        two_pow(65) == 0x2_0000_0000_0000_0000,
        two_pow(34) == 0x4_0000_0000,
        two_pow(44) == 0x1000_0000_0000,
        two_pow(54) == 0x40_0000_0000_0000,
        two_pow(60) == 0x1000_0000_0000_0000,
{
    reveal_with_fuel(two_pow, 11);
    assert(two_pow(1) == 2);
    assert(two_pow(2) == 4);
    assert(two_pow(4) == 16);
    assert(two_pow(10) == 0x400);
    lemma_two_pow_adds(10, 10);
    assert(two_pow(20) == 1048576);
    lemma_two_pow_adds(20, 20);
    assert(two_pow(40) == 1099511627776);
    lemma_two_pow_adds(40, 10);
    assert(two_pow(50) == 1125899906842624);
    lemma_two_pow_adds(50, 2);
    assert(two_pow(52) == 4503599627370496);
    lemma_two_pow_adds(52, 1);
    assert(two_pow(53) == 9007199254740992);
    lemma_two_pow_adds(40, 20);
    assert(two_pow(60) == 1152921504606846976);
    lemma_two_pow_adds(60, 4);
    assert(two_pow(64) == 18446744073709551616);
    lemma_two_pow_adds(64, 53);
    assert(two_pow(117) == 166153499473114484112975882535043072);
    lemma_two_pow_adds(117, 2);
    assert(two_pow(119) == 664613997892457936451903530140172288);
    lemma_two_pow_adds(119, 1);
    assert(two_pow(120) == 1329227995784915872903807060280344576);
    lemma_two_pow_adds(120, 4);
    assert(two_pow(124) == 21267647932558653966460912964485513216);
    lemma_two_pow_adds(124, 2);
    assert(two_pow(126) == 85070591730234615865843651857942052864);
    lemma_two_pow_adds(126, 1);
    assert(two_pow(127) == 170141183460469231731687303715884105728);
    lemma_two_pow_adds(127, 1);
    assert(two_pow(128) == 340282366920938463463374607431768211456);
    lemma_two_pow_adds(64, 1);
    assert(two_pow(65) == 36893488147419103232);
    lemma_two_pow_adds(20, 10);
    lemma_two_pow_adds(30, 4);
    assert(two_pow(34) == 0x4_0000_0000);
    lemma_two_pow_adds(40, 4);
    assert(two_pow(44) == 0x1000_0000_0000);
    lemma_two_pow_adds(53, 1);
    assert(two_pow(54) == 0x40_0000_0000_0000);
}

pub proof fn lemma_flog2_bounds(n: nat)
    requires
        n >= 1,
    ensures
        two_pow(flog2(n)) <= n < two_pow(flog2(n) + 1),
    decreases n,
{
    if n >= 2 {
        lemma_flog2_bounds(n / 2);
        assert(two_pow(flog2(n)) == 2 * two_pow(flog2(n / 2)));
        assert(two_pow(flog2(n) + 1) == 2 * two_pow(flog2(n / 2) + 1));
    }
}

pub fn two_pow_exec(e: u32) -> (r: u128)
    requires
        e < 128,
    ensures
        r == two_pow(e as nat),
{
    let mut r: u128 = 1;
    let mut i: u32 = 0;
    while i < e
        invariant
            i <= e < 128,
            r == two_pow(i as nat),
        decreases e - i,
    {
        proof {
            lemma_two_pow_mono((i + 1) as nat, 127);
            lemma_two_pow_values();
        }
        r = r * 2;
        i = i + 1;
    }
    r
}

pub fn rhe_exec(num: u128, den: u128) -> (r: u128)
    requires
        den > 0,
    ensures
        r == rhe(num as nat, den as nat),
{
    let q = num / den;
    let rem = num % den;
    if rem > den - rem {
        assert(den >= 2);
        assert(q <= num / 2) by (nonlinear_arith)
            requires
                den >= 2,
                q == num / den,
        ;
        q + 1
    } else if rem < den - rem {
        q
    } else if q % 2 == 1 {
        assert(rem > 0);
        assert(den >= 2);
        assert(q <= num / 2) by (nonlinear_arith)
            requires
                den >= 2,
                q == num / den,
        ;
        q + 1
    } else {
        q
    }
}

pub fn flog2_exec(n: u128) -> (r: u32)
    requires
        n >= 1,
    ensures
        r == flog2(n as nat),
        r < 128,
{
    let mut x = n;
    let mut k: u32 = 0;
    assert(two_pow(0) == 1);
    while x >= 2
        invariant
            x >= 1,
            k < 128,
            flog2(n as nat) == k + flog2(x as nat),
            two_pow(k as nat) * x <= n,
        decreases x,
    {
        proof {
            lemma_two_pow_values();
            assert(two_pow(k as nat + 1) == 2 * two_pow(k as nat));
            assert(two_pow(k as nat + 1) * (x / 2) <= two_pow(k as nat) * x) by (nonlinear_arith)
                requires
                    two_pow(k as nat + 1) == 2 * two_pow(k as nat),
            ;
            assert(two_pow(k as nat + 1) <= two_pow(k as nat + 1) * (x / 2)) by (nonlinear_arith)
                requires
                    x / 2 >= 1,
            ;
            if k + 1 >= 128 {
                lemma_two_pow_mono(128, k as nat + 1);
            }
        }
        x = x / 2;
        k = k + 1;
    }
    k
}

/// A rounded quotient below a bound stays at most the bound.
pub proof fn lemma_rhe_at_most(num: nat, den: nat, bound: nat)
    requires
        den > 0,
        num < den * bound,
    ensures
        rhe(num, den) <= bound,
{
    let q = num / den;
    assert(q * den <= num) by (nonlinear_arith)
        requires
            den > 0,
            q == num / den,
    ;
    assert(q < bound) by (nonlinear_arith)
        requires
            q * den <= num,
            num < den * bound,
            den > 0,
    ;
}

/// The double nearest to `num / den`, computed.
pub fn round_to_double_exec(num: u128, den: u128) -> (r: (u128, i32))
    requires
        0 < num < 0x100_0000_0000_0000_0000_0000_0000_0000,
        0 < den < 0x1_0000_0000_0000_0000,
    ensures
        r.0 as nat == round_to_double(num as nat, den as nat).0,
        r.1 as int == round_to_double(num as nat, den as nat).1,
        r.0 <= 0x20_0000_0000_0000,
        -200 < r.1 < 200,
        r.1 + 52 >= 0 ==> two_pow((r.1 + 52) as nat) * den <= num,
{
    proof {
        lemma_two_pow_values();
    }
    if num >= den {
        let t = num / den;
        assert(t >= 1) by (nonlinear_arith)
            requires
                num >= den,
                den > 0,
                t == num / den,
        ;
        let k = flog2_exec(t);
        proof {
            lemma_flog2_bounds(t as nat);
            assert(t * den <= num) by (nonlinear_arith)
                requires
                    den > 0,
                    t == num / den,
            ;
            assert(num < (t + 1) * den) by (nonlinear_arith)
                requires
                    den > 0,
                    t == num / den,
            ;
            assert(t < 0x100_0000_0000_0000_0000_0000_0000_0000) by (nonlinear_arith)
                requires
                    t * den <= num,
                    num < 0x100_0000_0000_0000_0000_0000_0000_0000,
                    den >= 1,
            ;
            if k >= 120 {
                lemma_two_pow_mono(120, k as nat);
            }
        }
        assert(ratio_log2(num as nat, den as nat) == k as int);
        if k >= 52 {
            let e = k - 52;
            let p = two_pow_exec(e);
            proof {
                lemma_two_pow_adds(e as nat, 52);
                lemma_two_pow_adds(e as nat, 53);
                assert(den * p <= num) by (nonlinear_arith)
                    requires
                        two_pow(k as nat) == p * 0x10_0000_0000_0000,
                        two_pow(k as nat) <= t,
                        t * den <= num,
                        p >= 1,
                ;
                assert(num < (den * p) * 0x20_0000_0000_0000) by (nonlinear_arith)
                    requires
                        two_pow(k as nat + 1) == p * 0x20_0000_0000_0000,
                        t < two_pow(k as nat + 1),
                        num < (t + 1) * den,
                        den > 0,
                ;
            }
            let d = den * p;
            let m = rhe_exec(num, d);
            assert(e as i32 + 52 == k as i32);
            assert(two_pow(k as nat) * den <= num) by (nonlinear_arith)
                requires
                    two_pow(k as nat) <= t,
                    t * den <= num,
                    den > 0,
            ;
            proof {
                lemma_rhe_at_most(num as nat, d as nat, 0x20_0000_0000_0000);
            }
            (m, e as i32)
        } else {
            let s = 52 - k;
            let p = two_pow_exec(s);
            proof {
                lemma_two_pow_pos(s as nat);
                lemma_two_pow_adds(k as nat + 1, s as nat);
                assert(num * p < den * 0x20_0000_0000_0000) by (nonlinear_arith)
                    requires
                        two_pow(k as nat + 1) * p == 0x20_0000_0000_0000,
                        t < two_pow(k as nat + 1),
                        num < (t + 1) * den,
                        den > 0,
                        p > 0,
                ;
            }
            let n = num * p;
            let m = rhe_exec(n, den);
            proof {
                lemma_rhe_at_most(n as nat, den as nat, 0x20_0000_0000_0000);
                assert(two_pow(k as nat) * den <= num) by (nonlinear_arith)
                    requires
                        two_pow(k as nat) <= t,
                        t * den <= num,
                        den > 0,
                ;
            }
            (m, k as i32 - 52)
        }
    } else {
        let mut x = num;
        let mut j: u32 = 0;
        assert(two_pow(0) == 1);
        while x < den
            invariant
                0 < x < 2 * den,
                0 < den < 0x1_0000_0000_0000_0000,
                0 < num,
                j <= 64,
                x == num * two_pow(j as nat),
                ratio_log2(num as nat, den as nat) == ratio_log2(x as nat, den as nat) - j,
            decreases 2 * den - x,
        {
            proof {
                lemma_two_pow_values();
                assert(two_pow(j as nat + 1) == 2 * two_pow(j as nat));
                assert(num * two_pow(j as nat + 1) == 2 * x) by (nonlinear_arith)
                    requires
                        two_pow(j as nat + 1) == 2 * two_pow(j as nat),
                        x == num * two_pow(j as nat),
                ;
                assert(two_pow(j as nat + 1) <= num * two_pow(j as nat + 1)) by (nonlinear_arith)
                    requires
                        num >= 1,
                ;
                if j + 1 >= 65 {
                    lemma_two_pow_mono(65, j as nat + 1);
                }
            }
            x = x * 2;
            j = j + 1;
        }
        assert(x as nat / den as nat == 1) by (nonlinear_arith)
            requires
                den <= x < 2 * den,
        ;
        assert(ratio_log2(x as nat, den as nat) == 0);
        let p = two_pow_exec(52);
        proof {
            lemma_two_pow_adds(j as nat, 52);
            assert(x * p < den * 0x20_0000_0000_0000) by (nonlinear_arith)
                requires
                    x < 2 * den,
                    p == 0x10_0000_0000_0000,
            ;
            assert(num * two_pow(j as nat + 52) == x * p) by (nonlinear_arith)
                requires
                    two_pow(j as nat + 52) == two_pow(j as nat) * p,
                    x == num * two_pow(j as nat),
            ;
        }
        let n = x * p;
        let m = rhe_exec(n, den);
        proof {
            lemma_rhe_at_most(n as nat, den as nat, 0x20_0000_0000_0000);
            assert((-(-(j as int) - 52)) as nat == j as nat + 52);
        }
        (m, -(j as i32) - 52)
    }
}

/// Where the exponent of a rounded quotient is at least `t - 52`, the
/// quotient is at least `2^t`; so a quotient below `2^t` has a smaller exponent.
pub proof fn lemma_exponent_below(num: nat, den: nat, e: int, t: nat)
    requires
        e + 52 >= 0 ==> two_pow((e + 52) as nat) * den <= num,
        num < two_pow(t) * den,
        den > 0,
    ensures
        e + 52 < t,
{
    if e + 52 >= t {
        lemma_two_pow_mono(t, (e + 52) as nat);
        assert(two_pow(t) * den <= two_pow((e + 52) as nat) * den) by (nonlinear_arith)
            requires
                two_pow(t) <= two_pow((e + 52) as nat),
                den > 0,
        ;
    }
}

/// `n as f64`, computed.
pub fn f64_of_exec(n: u64) -> (r: (u128, i32))
    requires
        n > 0,
    ensures
        r.0 as nat == f64_of(n as nat).0,
        r.1 as int == f64_of(n as nat).1,
        0 < r.0 <= 0x20_0000_0000_0000,
        -52 <= r.1 <= 11,
{
    proof {
        lemma_two_pow_values();
    }
    let r = round_to_double_exec(n as u128, 1);
    proof {
        lemma_exponent_below(n as nat, 1, r.1 as int, 64);
        lemma_round_positive(n as nat, 1);
        assert(ratio_log2(n as nat, 1) >= 0);
    }
    r
}

/// The mantissa of a rounded positive quotient is positive.
pub proof fn lemma_round_positive(num: nat, den: nat)
    requires
        num > 0,
        den > 0,
    ensures
        round_to_double(num, den).0 > 0,
{
    lemma_ratio_log2_bounds(num, den);
    lemma_two_pow_values();
    let k = ratio_log2(num, den);
    let e = k - 52;
    if e >= 0 {
        lemma_two_pow_adds(e as nat, 52);
        let d = den * two_pow(e as nat);
        lemma_two_pow_pos(e as nat);
        assert(d >= 1) by (nonlinear_arith)
            requires
                den >= 1,
                two_pow(e as nat) >= 1,
                d == den * two_pow(e as nat),
        ;
        assert(d * 0x10_0000_0000_0000 <= num) by (nonlinear_arith)
            requires
                two_pow(k as nat) == two_pow(e as nat) * 0x10_0000_0000_0000,
                two_pow(k as nat) * den <= num,
                d == den * two_pow(e as nat),
        ;
        assert(num / d >= 1) by (nonlinear_arith)
            requires
                d * 0x10_0000_0000_0000 <= num,
                d >= 1,
        ;
    } else {
        let s = (-e) as nat;
        let n = num * two_pow(s);
        if k >= 0 {
            lemma_two_pow_adds(k as nat, s);
            assert(n >= den * 0x10_0000_0000_0000) by (nonlinear_arith)
                requires
                    two_pow(k as nat) * den <= num,
                    two_pow(k as nat) * two_pow(s) == 0x10_0000_0000_0000,
                    n == num * two_pow(s),
            ;
        } else {
            let j = (-k) as nat;
            lemma_two_pow_adds(j, 52);
            assert(s == j + 52);
            assert(n >= den * 0x10_0000_0000_0000) by (nonlinear_arith)
                requires
                    num * two_pow(j) >= den,
                    two_pow(s) == two_pow(j) * 0x10_0000_0000_0000,
                    n == num * two_pow(s),
            ;
        }
        assert(n / den >= 1) by (nonlinear_arith)
            requires
                n >= den * 0x10_0000_0000_0000,
                den >= 1,
        ;
    }
}

/// Bounds that define `ratio_log2`.
pub proof fn lemma_ratio_log2_bounds(num: nat, den: nat)
    requires
        num > 0,
        den > 0,
    ensures
        ratio_log2(num, den) >= 0 ==> two_pow(ratio_log2(num, den) as nat) * den <= num,
        ratio_log2(num, den) < 0 ==> num * two_pow((-ratio_log2(num, den)) as nat) >= den,
    decreases gap(num, den),
{
    if num >= den {
        let t = num / den;
        assert(t >= 1 && t * den <= num) by (nonlinear_arith)
            requires
                num >= den,
                den > 0,
                t == num / den,
        ;
        lemma_flog2_bounds(t);
        assert(two_pow(flog2(t)) * den <= num) by (nonlinear_arith)
            requires
                two_pow(flog2(t)) <= t,
                t * den <= num,
                den > 0,
        ;
    } else {
        lemma_ratio_log2_bounds(num * 2, den);
        let k = ratio_log2(num * 2, den);
        assert(ratio_log2(num, den) == k - 1);
        if k >= 1 {
            // num * 2 >= den, so k == 0 actually; k >= 1 would need num * 2 >= 2 * den.
            lemma_two_pow_mono(1, k as nat);
            reveal_with_fuel(two_pow, 2);
            assert(two_pow(k as nat) * den >= 2 * den) by (nonlinear_arith)
                requires
                    two_pow(k as nat) >= 2,
                    den > 0,
            ;
        } else if k == 0 {
            reveal_with_fuel(two_pow, 2);
            assert(two_pow(0) == 1);
            assert(two_pow(1) == 2);
            assert(num * two_pow(1) == num * 2);
            assert((-(k - 1)) as nat == 1);
            assert(two_pow(0) * den <= num * 2);
            assert(den <= num * 2) by (nonlinear_arith)
                requires
                    two_pow(0) == 1,
                    two_pow(0) * den <= num * 2,
            ;
            assert(ratio_log2(num, den) == -1);
            assert(two_pow((-ratio_log2(num, den)) as nat) == 2);
            assert(num * two_pow((-ratio_log2(num, den)) as nat) >= den);
        } else {
            let j = (-k) as nat;
            assert((-(k - 1)) as nat == j + 1);
            assert(two_pow(j + 1) == 2 * two_pow(j));
            assert(num * two_pow(j + 1) == (num * 2) * two_pow(j)) by (nonlinear_arith)
                requires
                    two_pow(j + 1) == 2 * two_pow(j),
            ;
            assert((num * 2) * two_pow(j) >= den);
            assert(num * two_pow((-ratio_log2(num, den)) as nat) >= den);
        }
    }
}

/// `a / b` on doubles, computed.
pub fn f64_div_exec(a: (u128, i32), b: (u128, i32)) -> (r: (u128, i32))
    requires
        0 < a.0 <= 0x20_0000_0000_0000,
        0 < b.0 <= 0x20_0000_0000_0000,
        -1000 < a.1 < 1000,
        -1000 < b.1 < 1000,
    ensures
        r.0 as nat == f64_div((a.0 as nat, a.1 as int), (b.0 as nat, b.1 as int)).0,
        r.1 as int == f64_div((a.0 as nat, a.1 as int), (b.0 as nat, b.1 as int)).1,
        0 < r.0 <= 0x20_0000_0000_0000,
        -2200 < r.1 < 2200,
        -200 < r.1 - a.1 + b.1 < 200,
        r.1 - a.1 + b.1 + 52 >= 0 ==> two_pow((r.1 - a.1 + b.1 + 52) as nat) * b.0 <= a.0,
{
    let q = round_to_double_exec(a.0, b.0);
    proof {
        lemma_round_positive(a.0 as nat, b.0 as nat);
    }
    (q.0, q.1 + a.1 - b.1)
}

/// `a * b` on doubles, computed.
pub fn f64_mul_exec(a: (u128, i32), b: (u128, i32)) -> (r: (u128, i32))
    requires
        0 < a.0 <= 0x20_0000_0000_0000,
        0 < b.0 <= 0x20_0000_0000_0000,
        -1000 < a.1 < 1000,
        -1000 < b.1 < 1000,
    ensures
        r.0 as nat == f64_mul((a.0 as nat, a.1 as int), (b.0 as nat, b.1 as int)).0,
        r.1 as int == f64_mul((a.0 as nat, a.1 as int), (b.0 as nat, b.1 as int)).1,
        0 < r.0 <= 0x20_0000_0000_0000,
        -2200 < r.1 < 2200,
        -200 < r.1 - a.1 - b.1 < 200,
{
    assert(a.0 * b.0 <= 0x20_0000_0000_0000 * 0x20_0000_0000_0000) by (nonlinear_arith)
        requires
            0 < a.0 <= 0x20_0000_0000_0000,
            0 < b.0 <= 0x20_0000_0000_0000,
    ;
    assert(a.0 * b.0 > 0) by (nonlinear_arith)
        requires
            0 < a.0,
            0 < b.0,
    ;
    let q = round_to_double_exec(a.0 * b.0, 1);
    proof {
        lemma_round_positive((a.0 * b.0) as nat, 1);
    }
    (q.0, q.1 + a.1 + b.1)
}

/// `f64::round` of a double, computed.
pub fn round_half_away_exec(d: (u128, i32)) -> (r: u128)
    requires
        d.0 <= 0x20_0000_0000_0000,
        -5000 < d.1 < 64,
    ensures
        r as nat == round_half_away((d.0 as nat, d.1 as int)),
{
    proof {
        lemma_two_pow_values();
    }
    if d.1 >= 0 {
        let p = two_pow_exec(d.1 as u32);
        proof {
            lemma_two_pow_mono(d.1 as nat, 63);
            lemma_two_pow_adds(53, 63);
            lemma_two_pow_adds(63, 1);
            assert(d.0 * p <= 0x20_0000_0000_0000 * two_pow(63)) by (nonlinear_arith)
                requires
                    d.0 <= 0x20_0000_0000_0000,
                    p <= two_pow(63),
            ;
        }
        d.0 * p
    } else if d.1 <= -60 {
        proof {
            let s = (-d.1) as nat;
            lemma_two_pow_mono(60, s);
            let num: nat = (2 * d.0 + two_pow(s)) as nat;
            let den: nat = (2 * two_pow(s)) as nat;
            assert(num / den == 0) by (nonlinear_arith)
                requires
                    d.0 <= 0x20_0000_0000_0000,
                    two_pow(s) >= 0x1000_0000_0000_0000,
                    num == 2 * d.0 + two_pow(s),
                    den == 2 * two_pow(s),
            ;
        }
        0
    } else {
        let s = (0 - d.1) as u32;
        let p = two_pow_exec(s);
        proof {
            lemma_two_pow_mono(s as nat, 60);
            lemma_two_pow_pos(s as nat);
        }
        (2 * d.0 + p) / (2 * p)
    }
}

/// Ten times a double, rounded with ties to even, computed.
pub fn tenths_half_even_exec(d: (u128, i32)) -> (r: u128)
    requires
        d.0 <= 0x20_0000_0000_0000,
        -5000 < d.1 <= 10,
    ensures
        r as nat == tenths_half_even((d.0 as nat, d.1 as int)),
{
    proof {
        lemma_two_pow_values();
    }
    if d.1 >= 0 {
        let p = two_pow_exec(d.1 as u32);
        proof {
            lemma_two_pow_mono(d.1 as nat, 10);
            assert(d.0 * p * 10 <= 0x20_0000_0000_0000 * 0x400 * 10) by (nonlinear_arith)
                requires
                    d.0 <= 0x20_0000_0000_0000,
                    p <= 0x400,
            ;
        }
        d.0 * p * 10
    } else if d.1 <= -60 {
        proof {
            let s = (-d.1) as nat;
            lemma_two_pow_mono(60, s);
            let num: nat = (d.0 * 10) as nat;
            let den: nat = two_pow(s);
            assert(num / den == 0 && num % den == num) by (nonlinear_arith)
                requires
                    num <= 0x20_0000_0000_0000 * 10,
                    den >= 0x1000_0000_0000_0000,
            ;
        }
        0
    } else {
        let s = (0 - d.1) as u32;
        let p = two_pow_exec(s);
        proof {
            lemma_two_pow_pos(s as nat);
        }
        rhe_exec(d.0 * 10, p)
    }
}

} // verus!
