//! Experience levels. Advancing from level `l` to `l + 1` costs
//! `100 * 1.5^(l - 1)` experience, so reaching level `n + 1` costs
//! `100 * (1 + 1.5 + ... + 1.5^(n - 1)) = 200 * (1.5^n - 1)` in all.
//! Everything here is exact rational arithmetic carried in integers.

use vstd::prelude::*;

verus! {

/// `base` raised to the power `e`.
pub open spec fn power(base: int, e: nat) -> int
    decreases e,
{
    if e == 0 {
        1
    } else {
        base * power(base, (e - 1) as nat)
    }
}

/// Experience below zero counts as none.
pub open spec fn xp_floor(total: int) -> int {
    if total < 0 {
        0
    } else {
        total
    }
}

/// Whether `xp` covers the first `n` thresholds: `200 * (1.5^n - 1) <= xp`.
pub open spec fn reaches(xp: int, n: nat) -> bool {
    200 * power(3, n) <= (xp + 200) * power(2, n)
}

/// `level` is the level of a user holding `total` experience: it covers
/// `level - 1` thresholds and not one more.
pub open spec fn is_level_of(total: int, level: int) -> bool {
    level >= 1 && reaches(xp_floor(total), (level - 1) as nat) && !reaches(
        xp_floor(total),
        level as nat,
    )
}

/// The level of a user holding `total` experience.
pub open spec fn level_of(total: int) -> int {
    choose|level: int| is_level_of(total, level)
}

/// The step from `level` to `level + 1` costs `100 * 3^l / 2^l` with
/// `l = level - 1` (and `l = 0` for level zero).
pub open spec fn threshold_exponent(level: int) -> nat {
    if level <= 0 {
        0
    } else {
        (level - 1) as nat
    }
}

proof fn lemma_power_positive(base: int, e: nat)
    requires
        base >= 1,
    ensures
        power(base, e) >= 1,
    decreases e,
{
    if e > 0 {
        lemma_power_positive(base, (e - 1) as nat);
        assert(base * power(base, (e - 1) as nat) >= 1) by (nonlinear_arith)
            requires
                base >= 1,
                power(base, (e - 1) as nat) >= 1,
        ;
    }
}

proof fn lemma_power_adds(base: int, a: nat, b: nat)
    ensures
        power(base, a + b) == power(base, a) * power(base, b),
    decreases b,
{
    if b > 0 {
        lemma_power_adds(base, a, (b - 1) as nat);
        assert(power(base, a + b) == base * power(base, (a + b - 1) as nat));
        assert(power(base, a) * (base * power(base, (b - 1) as nat)) == base * (power(base, a)
            * power(base, (b - 1) as nat))) by (nonlinear_arith);
    }
}

proof fn lemma_power_constants()
    ensures
        power(2, 57) == 144115188075855872,
        power(2, 76) == 75557863725914323419136,
        power(2, 114) == 20769187434139310514121985316880384,
        power(3, 76) == 1824800363140073127359051977856583921,
{
    reveal_with_fuel(power, 9);
    assert(power(2, 1) == 2);
    assert(power(2, 4) == 16);
    assert(power(2, 8) == 256);
    assert(power(3, 4) == 81);
    assert(power(3, 8) == 6561);
    lemma_power_adds(2, 8, 8);
    assert(power(2, 16) == 65536);
    lemma_power_adds(2, 16, 16);
    assert(power(2, 32) == 4294967296);
    lemma_power_adds(2, 32, 8);
    assert(power(2, 40) == 1099511627776);
    lemma_power_adds(2, 40, 16);
    assert(power(2, 56) == 72057594037927936);
    lemma_power_adds(2, 56, 1);
    assert(power(2, 57) == 144115188075855872);
    lemma_power_adds(2, 57, 57);
    assert(power(2, 114) == 20769187434139310514121985316880384);
    lemma_power_adds(2, 40, 32);
    assert(power(2, 72) == 4722366482869645213696);
    lemma_power_adds(2, 72, 4);
    assert(power(2, 76) == 75557863725914323419136);
    lemma_power_adds(3, 8, 8);
    assert(power(3, 16) == 43046721);
    lemma_power_adds(3, 16, 16);
    assert(power(3, 32) == 1853020188851841);
    lemma_power_adds(3, 32, 32);
    assert(power(3, 64) == 3433683820292512484657849089281);
    lemma_power_adds(3, 64, 8);
    assert(power(3, 72) == 22528399544939174411840147874772641);
    lemma_power_adds(3, 72, 4);
    assert(power(3, 76) == 1824800363140073127359051977856583921);
}

proof fn lemma_power_monotone(base: int, a: nat, b: nat)
    requires
        base >= 1,
        a <= b,
    ensures
        power(base, a) <= power(base, b),
    decreases b,
{
    if a < b {
        lemma_power_monotone(base, a, (b - 1) as nat);
        lemma_power_positive(base, (b - 1) as nat);
        assert(power(base, (b - 1) as nat) <= base * power(base, (b - 1) as nat))
            by (nonlinear_arith)
            requires
                base >= 1,
                power(base, (b - 1) as nat) >= 1,
        ;
    }
}

/// `2^n * 2^(n/2) <= 3^n`.
proof fn lemma_growth(n: nat)
    ensures
        power(2, n) * power(2, n / 2) <= power(3, n),
    decreases n,
{
    if n >= 2 {
        let m = (n - 2) as nat;
        lemma_growth(m);
        assert(n / 2 == m / 2 + 1);
        assert(power(2, (m + 1) as nat) == 2 * power(2, m));
        assert(power(2, n) == 4 * power(2, m));
        assert(power(3, (m + 1) as nat) == 3 * power(3, m));
        assert(power(3, n) == 9 * power(3, m));
        assert(power(2, n / 2) == 2 * power(2, m / 2));
        lemma_power_positive(2, m);
        lemma_power_positive(2, m / 2);
        assert(power(2, n) * power(2, n / 2) == 8 * (power(2, m) * power(2, m / 2)))
            by (nonlinear_arith)
            requires
                power(2, n) == 4 * power(2, m),
                power(2, n / 2) == 2 * power(2, m / 2),
        ;
    } else if n == 1 {
        reveal_with_fuel(power, 2);
        assert(power(2, 1) == 2);
        assert(power(3, 1) == 3);
        assert(power(2, 0) == 1);
    }
}

/// Covering a threshold implies covering every earlier one.
pub proof fn lemma_reaches_fewer(xp: int, m: nat, n: nat)
    requires
        xp >= 0,
        m <= n,
        reaches(xp, n),
    ensures
        reaches(xp, m),
    decreases n,
{
    if m < n {
        let k = (n - 1) as nat;
        lemma_power_positive(2, k);
        lemma_power_positive(3, k);
        assert(reaches(xp, k)) by (nonlinear_arith)
            requires
                200 * (3 * power(3, k)) <= (xp + 200) * (2 * power(2, k)),
                xp >= 0,
                power(2, k) >= 1,
        ;
        lemma_reaches_fewer(xp, m, k);
    }
}

/// More experience covers at least the same thresholds.
proof fn lemma_reaches_more_xp(x1: int, x2: int, n: nat)
    requires
        0 <= x1 <= x2,
        reaches(x1, n),
    ensures
        reaches(x2, n),
{
    lemma_power_positive(2, n);
    assert((x1 + 200) * power(2, n) <= (x2 + 200) * power(2, n)) by (nonlinear_arith)
        requires
            x1 <= x2,
            power(2, n) >= 1,
    ;
}

/// Experience that fits an `i64` covers at most 113 thresholds.
proof fn lemma_reach_bound(xp: int, n: nat)
    requires
        0 <= xp <= i64::MAX,
        reaches(xp, n),
    ensures
        n <= 113,
{
    if n > 113 {
        lemma_growth(n);
        lemma_power_positive(2, n);
        lemma_power_positive(2, n / 2);
        let p = power(2, n);
        let h = power(2, n / 2);
        assert(200 * h <= xp + 200) by (nonlinear_arith)
            requires
                p * h <= power(3, n),
                200 * power(3, n) <= (xp + 200) * p,
                p >= 1,
        ;
        lemma_power_monotone(2, 57, n / 2);
        lemma_power_constants();
    }
}

/// Every total has exactly one level.
proof fn lemma_level_exists(total: int, n: nat)
    requires
        total <= i64::MAX,
        reaches(xp_floor(total), n),
    ensures
        exists|level: int| is_level_of(total, level),
    decreases 114 - n,
{
    lemma_reach_bound(xp_floor(total), n);
    if reaches(xp_floor(total), n + 1) {
        lemma_reach_bound(xp_floor(total), n + 1);
        lemma_level_exists(total, n + 1);
    } else {
        assert(is_level_of(total, (n + 1) as int));
    }
}

proof fn lemma_level_unique(total: int, a: int, b: int)
    requires
        is_level_of(total, a),
        is_level_of(total, b),
    ensures
        a == b,
{
    if a < b {
        lemma_reaches_fewer(xp_floor(total), a as nat, (b - 1) as nat);
    } else if b < a {
        lemma_reaches_fewer(xp_floor(total), b as nat, (a - 1) as nat);
    }
}

/// `level_of` is the one level that `is_level_of` allows.
pub proof fn lemma_level_of(total: int)
    requires
        total <= i64::MAX,
    ensures
        is_level_of(total, level_of(total)),
        forall|level: int| is_level_of(total, level) ==> level == level_of(total),
{
    assert(reaches(xp_floor(total), 0));
    lemma_level_exists(total, 0);
    assert forall|level: int| is_level_of(total, level) implies level == level_of(total) by {
        lemma_level_unique(total, level, level_of(total));
    }
}

/// More experience never gives a lower level.
pub proof fn level_monotone(total1: int, total2: int)
    requires
        0 <= total1 <= total2 <= i64::MAX,
    ensures
        level_of(total1) <= level_of(total2),
{
    lemma_level_of(total1);
    lemma_level_of(total2);
    let l1 = level_of(total1);
    let l2 = level_of(total2);
    if l1 > l2 {
        lemma_reaches_fewer(total1, l2 as nat, (l1 - 1) as nat);
        lemma_reaches_more_xp(total1, total2, l2 as nat);
    }
}

/// Experience needed to advance from `level` to `level + 1`, as the fraction
/// `(numerator, denominator)`; the denominator is a power of two.
pub fn level_threshold(level: u32) -> (r: (u128, u128))
    requires
        level <= 77,
    ensures
        r.0 == 100 * power(3, threshold_exponent(level as int)),
        r.1 == power(2, threshold_exponent(level as int)),
{
    let l: u32 = if level == 0 {
        0
    } else {
        level - 1
    };
    let mut num: u128 = 100;
    let mut den: u128 = 1;
    let mut i: u32 = 0;
    proof {
        lemma_power_constants();
    }
    while i < l
        invariant
            l == threshold_exponent(level as int),
            l <= 76,
            i <= l,
            num == 100 * power(3, i as nat),
            den == power(2, i as nat),
            power(3, 76) == 1824800363140073127359051977856583921,
            power(2, 76) == 75557863725914323419136,
        decreases l - i,
    {
        proof {
            lemma_power_monotone(3, (i + 1) as nat, 76);
            lemma_power_monotone(2, (i + 1) as nat, 76);
            assert(power(3, (i + 1) as nat) == 3 * power(3, i as nat));
            assert(power(2, (i + 1) as nat) == 2 * power(2, i as nat));
        }
        num = num * 3;
        den = den * 2;
        i = i + 1;
    }
    (num, den)
}

proof fn lemma_step(whole: int, frac: int, scale: int, odd: int, half: int, carry: int, rest: int)
    requires
        0 <= whole,
        0 <= frac < scale,
        3 * whole == 2 * half + odd,
        odd == 0 || odd == 1,
        odd * scale + 3 * frac == carry * (2 * scale) + rest,
    ensures
        (half + carry) * (2 * scale) + rest == 3 * (whole * scale + frac),
{
    assert((half + carry) * (2 * scale) + rest == 3 * (whole * scale + frac)) by (nonlinear_arith)
        requires
            3 * whole == 2 * half + odd,
            odd * scale + 3 * frac == carry * (2 * scale) + rest,
    ;
}

/// The level of a user holding `total_xp` experience (none, if negative).
pub fn compute_level_from_total_xp(total_xp: i64) -> (r: u32)
    ensures
        r == level_of(total_xp as int),
        r as int <= 114,
{
    let x: u128 = if total_xp < 0 {
        0
    } else {
        total_xp as u128
    };
    let cap: u128 = x + 200;
    // The cost of the first `n` thresholds, plus 200, is 200 * 1.5^n, held as
    // `whole + frac / scale` with `scale == 2^n`.
    let mut n: u32 = 0;
    let mut whole: u128 = 200;
    let mut frac: u128 = 0;
    let mut scale: u128 = 1;
    proof {
        lemma_level_of(total_xp as int);
        lemma_power_constants();
    }
    loop
        invariant
            x as int == xp_floor(total_xp as int),
            x <= i64::MAX,
            cap == x + 200,
            n <= 113,
            scale == power(2, n as nat),
            whole * scale + frac == 200 * power(3, n as nat),
            frac < scale,
            reaches(x as int, n as nat),
            is_level_of(total_xp as int, level_of(total_xp as int)),
            forall|level: int| is_level_of(total_xp as int, level) ==> level == level_of(total_xp as int),
            power(2, 114) == 20769187434139310514121985316880384,
        decreases 114 - n,
    {
        proof {
            lemma_power_positive(2, n as nat);
            lemma_power_monotone(2, (n + 1) as nat, 114);
            assert(whole <= cap) by (nonlinear_arith)
                requires
                    whole * scale + frac == 200 * power(3, n as nat),
                    200 * power(3, n as nat) <= (x + 200) * scale,
                    scale >= 1,
                    cap == x + 200,
            ;
        }
        let three_whole: u128 = 3 * whole;
        let half: u128 = three_whole / 2;
        let odd_part: u128 = if three_whole % 2 == 1 {
            scale
        } else {
            0
        };
        let next_scale: u128 = scale * 2;
        let g: u128 = odd_part + 3 * frac;
        let (carry, next_frac): (u128, u128) = if g >= next_scale {
            (1, g - next_scale)
        } else {
            (0, g)
        };
        let next_whole: u128 = half + carry;
        proof {
            assert(power(2, (n + 1) as nat) == 2 * power(2, n as nat));
            assert(power(3, (n + 1) as nat) == 3 * power(3, n as nat));
            lemma_step(
                whole as int,
                frac as int,
                scale as int,
                (three_whole % 2) as int,
                half as int,
                carry as int,
                next_frac as int,
            );
        }
        if next_whole < cap || (next_whole == cap && next_frac == 0) {
            proof {
                assert(next_whole * next_scale + next_frac <= cap * next_scale)
                    by (nonlinear_arith)
                    requires
                        next_whole < cap || (next_whole == cap && next_frac == 0),
                        next_frac < next_scale,
                ;
                lemma_reach_bound(x as int, (n + 1) as nat);
            }
            n = n + 1;
            whole = next_whole;
            frac = next_frac;
            scale = next_scale;
        } else {
            proof {
                assert(next_whole * next_scale + next_frac > cap * next_scale)
                    by (nonlinear_arith)
                    requires
                        !(next_whole < cap || (next_whole == cap && next_frac == 0)),
                        next_scale >= 1,
                ;
                assert(is_level_of(total_xp as int, (n + 1) as int));
            }
            return n + 1;
        }
    }
}

} // verus!
