//! The double-precision numbers that are nearest to other values.
use crate::double::{
    find_halvings, find_nearest, halvings, lemma_nearest, nearest, power, significand, Real,
    REAL_SIGN,
};
use crate::scalar::{magnitude, Scalar, INFINITE, SIGN_BIT};
use vstd::arithmetic::div_mod::lemma_truncate_middle;
use vstd::arithmetic::power2::{
    lemma2_to64, lemma_pow2_adds, lemma_pow2_pos, lemma_pow2_unfold, pow2,
};
use vstd::prelude::*;

verus! {

/// The value of a magnitude in units of the smallest number there is.
pub open spec fn in_units(magnitude: int) -> int {
    significand(magnitude) * pow2((power(magnitude) + 1074) as nat)
}

/// The number that is nearest to so many units, and the even one of two that are as near.
pub open spec fn number_near(units: int) -> Real {
    let h = halvings(units);
    Real { bits: (h * 0x10_0000_0000_0000 + nearest(units, h)) as u64 }
}

/// Doubling what is rounded doubles what it is rounded to.
pub proof fn lemma_nearest_shifts(n: int, t: nat)
    requires
        n >= 0x10_0000_0000_0000,
    ensures
        halvings(n * pow2(t)) == halvings(n) + t,
        nearest(n * pow2(t), halvings(n) + t) == nearest(n, halvings(n)),
    decreases t,
{
    lemma2_to64();
    if t == 0 {
        assert(n * pow2(0) == n);
    } else {
        let u = (t - 1) as nat;
        lemma_nearest_shifts(n, u);
        lemma_pow2_unfold(t);
        lemma_pow2_pos(u);
        let a = n * pow2(u);
        let b = n * pow2(t);
        assert(b == 2 * a) by (nonlinear_arith)
            requires
                a == n * pow2(u),
                b == n * pow2(t),
                pow2(t) == 2 * pow2(u),
        ;
        assert(a >= n) by (nonlinear_arith)
            requires
                a == n * pow2(u),
                pow2(u) >= 1,
                n >= 0,
        ;
        assert(halvings(b) == 1 + halvings(a));
        let k = halvings(a);
        lemma_pow2_unfold(k + 1);
        lemma_pow2_pos(k);
        let d = pow2(k) as int;
        lemma_truncate_middle(a, 2, d);
        vstd::arithmetic::div_mod::lemma_div_multiples_vanish_quotient(2, a, d);
        assert(b / (2 * d) == a / d);
        assert(b % (2 * d) == 2 * (a % d));
    }
}

/// A number of as many bits as a number holds is near to itself.
pub proof fn lemma_held(n: int, t: nat)
    requires
        0x10_0000_0000_0000 <= n < 0x20_0000_0000_0000,
    ensures
        halvings(n * pow2(t)) == t,
        nearest(n * pow2(t), t) == n,
{
    lemma2_to64();
    lemma_nearest_shifts(n, t);
    assert(n / 1 == n && n % 1 == 0);
}

/// The number that is nearest to a whole number divided by a power of two.
pub(crate) fn find_number_near(n: u128, k: u32) -> (r: Real)
    requires
        n < 0x8000_0000_0000_0000_0000_0000_0000_0000,
        k <= 1074,
    ensures
        r == number_near(n * pow2((1074 - k) as nat)),
        r.bits < REAL_SIGN,
{
    if n == 0 {
        proof {
            lemma2_to64();
            assert(0 * pow2((1074 - k) as nat) == 0);
            assert(0int / 1 == 0 && 0int % 1 == 0);
        }
        return Real { bits: 0 };
    }
    if n >= 0x20_0000_0000_0000 {
        let h = find_halvings(n);
        let q = find_nearest(n, h);
        let t: u64 = (1074 - k) as u64;
        proof {
            lemma_nearest_shifts(n as int, t as nat);
            lemma_nearest(n as int);
            let field = (h + t) as int;
            assert(field * 0x10_0000_0000_0000 <= 1148 * 0x10_0000_0000_0000) by (nonlinear_arith)
                requires
                    field <= 1148,
            ;
        }
        return Real { bits: (h as u64 + t) * 0x10_0000_0000_0000 + q as u64 };
    }
    let ghost units = n * pow2((1074 - k) as nat);
    let mut digits: u64 = n as u64;
    let mut left: u32 = 1074 - k;
    while digits < 0x10_0000_0000_0000 && left > 0
        invariant
            0 < digits < 0x20_0000_0000_0000,
            left <= 1074,
            digits * pow2(left as nat) == units,
        decreases left,
    {
        proof {
            lemma_pow2_unfold(left as nat);
            let p = pow2((left - 1) as nat) as int;
            assert((2 * digits) * p == digits * (2 * p)) by (nonlinear_arith);
        }
        digits = digits * 2;
        left = left - 1;
    }
    proof {
        lemma2_to64();
        if digits >= 0x10_0000_0000_0000 {
            lemma_held(digits as int, left as nat);
        } else {
            assert(digits * pow2(0) == digits);
            assert(digits as int / 1 == digits && digits as int % 1 == 0);
        }
        let l = left as int;
        assert(l * 0x10_0000_0000_0000 <= 1074 * 0x10_0000_0000_0000) by (nonlinear_arith)
            requires
                l <= 1074,
        ;
    }
    Real { bits: (left as u64) * 0x10_0000_0000_0000 + digits }
}

// ---------------------------------------------------------------------------
// Single-precision numbers
// ---------------------------------------------------------------------------

/// A number without its sign, in units of the smallest double-precision number there is.
pub open spec fn single_in_units(s: Scalar) -> int {
    Scalar { bits: magnitude(s.bits) as u32 }.scaled() * pow2(925)
}

/// A finite single-precision number as a double-precision one.
pub open spec fn widened(s: Scalar) -> Real {
    let size = number_near(single_in_units(s));
    if s.bits >= SIGN_BIT {
        Real { bits: (size.bits + REAL_SIGN) as u64 }
    } else {
        size
    }
}

/// A number that is as large as one whole power of two, and what is nearest to it.
proof fn lemma_widened(m: int)
    requires
        0x80_0000 <= m < 0x7f80_0000,
    ensures
        number_near((m % 0x80_0000 + 0x80_0000) * pow2((m / 0x80_0000 - 1) as nat) * pow2(925)).bits
            == (m / 0x80_0000 + 896) * 0x10_0000_0000_0000 + (m % 0x80_0000) * 0x2000_0000,
{
    let digits = m % 0x80_0000 + 0x80_0000;
    let e = (m / 0x80_0000 - 1) as nat;
    let n = digits * 0x2000_0000;
    let t = (e + 896) as nat;
    lemma2_to64();
    lemma_pow2_adds(e, 925);
    lemma_pow2_adds(29, t);
    assert(digits * pow2(e) * pow2(925) == digits * pow2(e + 925)) by (nonlinear_arith)
        requires
            pow2(e) * pow2(925) == pow2(e + 925),
    ;
    assert(n * pow2(t) == digits * pow2(e + 925)) by (nonlinear_arith)
        requires
            n == digits * 0x2000_0000,
            0x2000_0000 * pow2(t) == pow2(e + 925),
    ;
    lemma_held(n, t);
    assert(t * 0x10_0000_0000_0000 <= 1200 * 0x10_0000_0000_0000) by (nonlinear_arith)
        requires
            t <= 1200,
    ;
}

/// A finite single-precision number as a double-precision one.
pub fn widen(s: Scalar) -> (r: Real)
    requires
        magnitude(s.bits) < INFINITE,
    ensures
        r == widened(s),
{
    let m: u32 = if s.bits >= SIGN_BIT {
        s.bits - SIGN_BIT
    } else {
        s.bits
    };
    let size: Real = if m < 0x80_0000 {
        find_number_near(m as u128, 149)
    } else {
        proof {
            lemma_widened(m as int);
        }
        Real {
            bits: (m as u64 / 0x80_0000 + 896) * 0x10_0000_0000_0000 + (m as u64 % 0x80_0000)
                * 0x2000_0000,
        }
    };
    assert(size == number_near(single_in_units(s)));
    if s.bits >= SIGN_BIT {
        Real { bits: size.bits + REAL_SIGN }
    } else {
        size
    }
}

/// A whole number of no more bits than a number holds is near to itself, and so many seconds are
/// so many nanoseconds.
pub proof fn lemma_whole(n: int)
    requires
        1 <= n < 0x20_0000_0000_0000,
    ensures
        crate::double::nanos_in(number_near((n * pow2(1074)) as int)) == Some(n * 1_000_000_000),
{
    lemma2_to64();
    let j = lemma_fill(n, 0);
    let m = n * pow2(j);
    let t = (1074 - j) as nat;
    lemma_pow2_adds(j, t);
    assert(m * pow2(t) == n * pow2(1074)) by (nonlinear_arith)
        requires
            m == n * pow2(j),
            pow2(j) * pow2(t) == pow2(1074),
    ;
    lemma_held(m, t);
    let bits = t * 0x10_0000_0000_0000 + m;
    assert(0 <= bits < 0x8000_0000_0000_0000) by (nonlinear_arith)
        requires
            t <= 1074,
            0 <= m < 0x20_0000_0000_0000,
            bits == t * 0x10_0000_0000_0000 + m,
    ;
    assert(number_near((n * pow2(1074)) as int).bits == bits);
    assert(bits / 0x10_0000_0000_0000 == t + 1 && bits % 0x10_0000_0000_0000 == m
        - 0x10_0000_0000_0000) by (nonlinear_arith)
        requires
            bits == t * 0x10_0000_0000_0000 + m,
            0x10_0000_0000_0000 <= m < 0x20_0000_0000_0000,
    ;
    assert(significand(bits) == m);
    assert(power(bits) == t - 1074);
    assert(power(bits) == -j);
    if j == 0 {
        let one = pow2(j) as int;
        assert(one == 1);
        assert(n * one == n) by (nonlinear_arith)
            requires
                one == 1,
        ;
        assert(m * one == m) by (nonlinear_arith)
            requires
                one == 1,
        ;
    } else {
        let d = pow2(j) as int;
        vstd::arithmetic::power2::lemma_pow2_pos(j);
        assert(m * 1_000_000_000 == (n * 1_000_000_000) * d) by (nonlinear_arith)
            requires
                m == n * d,
        ;
        vstd::arithmetic::div_mod::lemma_div_multiples_vanish(n * 1_000_000_000, d);
        vstd::arithmetic::div_mod::lemma_mod_multiples_basic(n * 1_000_000_000, d);
        assert((n * 1_000_000_000) * d == d * (n * 1_000_000_000)) by (nonlinear_arith);
        assert(nearest(m * 1_000_000_000, j) == n * 1_000_000_000);
    }
}

/// How often a number is doubled until it has as many bits as a number holds.
proof fn lemma_fill(n: int, done: nat) -> (j: nat)
    requires
        1 <= n < 0x20_0000_0000_0000,
        n >= pow2(done),
        done <= 53,
    ensures
        0x10_0000_0000_0000 <= n * pow2(j) < 0x20_0000_0000_0000,
        j <= 52,
    decreases 0x20_0000_0000_0000 - n,
{
    lemma2_to64();
    lemma_pow2_adds(20, 32);
    assert(pow2(52) == 0x10_0000_0000_0000);
    if n >= 0x10_0000_0000_0000 {
        assert(n * pow2(0) == n);
        0
    } else {
        lemma_pow2_unfold((done + 1) as nat);
        if done >= 52 {
            if done > 52 {
                vstd::arithmetic::power2::lemma_pow2_strictly_increases(52, done);
            }
        }
        let k = lemma_fill(2 * n, (done + 1) as nat);
        lemma_pow2_unfold((k + 1) as nat);
        let a = pow2(k) as int;
        let b = pow2((k + 1) as nat) as int;
        assert(n * b == (2 * n) * a) by (nonlinear_arith)
            requires
                b == 2 * a,
        ;
        if k == 52 {
            assert((2 * n) * a >= 0x20_0000_0000_0000) by (nonlinear_arith)
                requires
                    n >= 1,
                    a == 0x10_0000_0000_0000,
            ;
        }
        k + 1
    }
}

} // verus!
