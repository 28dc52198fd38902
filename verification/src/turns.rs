//! Angles in degrees, as double-precision numbers, brought within a whole turn.
use crate::double::{
    halvings, nearest, power, power_of_two, real_magnitude, significand, Real, REAL_INFINITE,
    REAL_SIGN,
};
use crate::rounding::{find_number_near, in_units, number_near};
use vstd::arithmetic::div_mod::{
    lemma_fundamental_div_mod_converse, lemma_mul_mod_noop_right, lemma_truncate_middle,
};
use vstd::arithmetic::power2::{
    lemma2_to64, lemma_pow2_adds, lemma_pow2_pos, lemma_pow2_strictly_increases, lemma_pow2_unfold,
    pow2,
};
use vstd::prelude::*;

verus! {

/// The bit pattern of 360.
pub const TURN_BITS: u64 = 0x4076_8000_0000_0000;

/// A bit pattern of no number.
pub const NO_NUMBER: u64 = 0x7ff8_0000_0000_0000;

/// A whole turn in units of the smallest number there is.
pub open spec fn turn() -> int {
    (360 * pow2(1074)) as int
}

/// An angle within a whole turn: what is left of it after whole turns, and where it is below 0, the
/// rest of a turn. A whole number of turns back leaves the 0 below 0.
pub open spec fn within_turn(r: Real) -> Real {
    let m = real_magnitude(r.bits);
    let rest = in_units(m) % turn();
    if m >= REAL_INFINITE {
        Real { bits: NO_NUMBER }
    } else if r.bits < REAL_SIGN {
        number_near(rest)
    } else if rest == 0 {
        Real { bits: REAL_SIGN }
    } else {
        number_near(turn() - rest)
    }
}

/// What is left of a whole number times a power of two after whole turns.
fn rest_of_large(digits: u64, e: u32) -> (rest: u64)
    ensures
        rest == (digits * pow2(e as nat)) % 360,
        rest < 360,
{
    proof {
        lemma2_to64();
        assert(digits * pow2(0) == digits);
    }
    let mut rest: u64 = digits % 360;
    let mut i: u32 = 0;
    while i < e
        invariant
            i <= e,
            rest == (digits * pow2(i as nat)) % 360,
            rest < 360,
        decreases e - i,
    {
        proof {
            lemma_pow2_unfold((i + 1) as nat);
            let a = digits * pow2(i as nat);
            let b = digits * pow2((i + 1) as nat);
            assert(b == 2 * a) by (nonlinear_arith)
                requires
                    a == digits * pow2(i as nat),
                    b == digits * pow2((i + 1) as nat),
                    pow2((i + 1) as nat) == 2 * pow2(i as nat),
            ;
            lemma_mul_mod_noop_right(2, a, 360);
        }
        rest = (2 * rest) % 360;
        i += 1;
    }
    rest
}

/// Multiples of the same have the same rest, so many times.
proof fn lemma_rest_shifts(n: int, turns: int, t: nat)
    requires
        0 <= n,
        0 < turns,
    ensures
        (n * pow2(t)) % (turns * pow2(t)) == (n % turns) * pow2(t),
{
    lemma_pow2_pos(t);
    let p = pow2(t) as int;
    lemma_truncate_middle(n, p, turns);
    assert(n * p == p * n) by (nonlinear_arith);
    assert(turns * p == p * turns) by (nonlinear_arith);
    assert((n % turns) * p == p * (n % turns)) by (nonlinear_arith);
}

/// How often a number of so many bits is halved.
proof fn lemma_halvings_of(n: int, h: nat)
    requires
        0x10_0000_0000_0000 * pow2(h) <= n < 0x20_0000_0000_0000 * pow2(h),
    ensures
        halvings(n) == h,
    decreases h,
{
    lemma2_to64();
    if h > 0 {
        lemma_pow2_unfold(h);
        lemma_pow2_pos((h - 1) as nat);
        lemma_halvings_of(n / 2, (h - 1) as nat);
    }
}

/// Hardly less than a whole turn is nearest to a whole turn.
proof fn lemma_near_turn(y: int)
    requires
        0 < y <= pow2(1008),
    ensures
        number_near(turn() - y) == (Real { bits: TURN_BITS }),
{
    lemma2_to64();
    lemma_pow2_adds(1030, 44);
    lemma_pow2_adds(32, 12);
    let d = pow2(1030) as int;
    let v = turn() - y;
    assert(pow2(44) == 0x1000_0000_0000);
    assert(turn() == 0x16_8000_0000_0000 * d) by (nonlinear_arith)
        requires
            turn() == 360 * pow2(1074),
            pow2(1074) == pow2(1030) * 0x1000_0000_0000,
            d == pow2(1030),
    ;
    lemma_pow2_adds(1008, 22);
    assert(4 * y <= d) by (nonlinear_arith)
        requires
            y <= pow2(1008),
            d == pow2(1008) * pow2(22),
            pow2(22) == 0x40_0000,
            pow2(1008) >= 0,
    ;
    lemma_halvings_of(v, 1030);
    let q = 0x16_7fff_ffff_ffff;
    lemma_fundamental_div_mod_converse(v, d, q, d - y);
}

/// Brings an angle within a whole turn.
pub fn bring_within_turn(r: Real) -> (angle: Real)
    ensures
        angle == within_turn(r),
{
    let negative = r.bits >= REAL_SIGN;
    let m: u64 = if negative {
        r.bits - REAL_SIGN
    } else {
        r.bits
    };
    if m >= REAL_INFINITE {
        return Real { bits: NO_NUMBER };
    }
    let (digits, e): (u64, i32) = if m < 0x10_0000_0000_0000 {
        (m, -1074)
    } else {
        (m % 0x10_0000_0000_0000 + 0x10_0000_0000_0000, (m / 0x10_0000_0000_0000) as i32 - 1075)
    };
    assert(digits < 0x20_0000_0000_0000);
    assert(digits == significand(m as int) && e == power(m as int));
    let ghost rest = in_units(m as int) % turn();
    if e < -118 {
        let k: u32 = (-e) as u32;
        proof {
            lemma_small_rest(digits as int, k as nat);
        }
        if !negative {
            return find_number_near(digits as u128, k);
        }
        if digits == 0 {
            assert(0 * pow2((1074 - k) as nat) == 0);
            return Real { bits: REAL_SIGN };
        }
        proof {
            lemma_near_turn(rest);
        }
        return Real { bits: TURN_BITS };
    }
    let (left, k): (u128, u32) = if e >= 0 {
        let left = rest_of_large(digits, e as u32);
        proof {
            lemma_pow2_adds(e as nat, 1074);
            let p = pow2(e as nat) as int;
            let u = pow2(1074) as int;
            assert(digits * (p * u) == (digits * p) * u) by (nonlinear_arith);
            assert(digits * p >= 0) by (nonlinear_arith)
                requires
                    digits >= 0,
                    p >= 0,
            ;
            lemma_rest_shifts(digits * p, 360, 1074);
        }
        (left as u128, 0)
    } else {
        let k: u32 = (-e) as u32;
        let d = power_of_two(k);
        proof {
            lemma_pow2_pos(k as nat);
            lemma_bound(k as nat);
            let t = (1074 - k) as nat;
            lemma_pow2_adds(k as nat, t);
            let p = pow2(k as nat) as int;
            let u = pow2(t) as int;
            assert(360 * (p * u) == (360 * p) * u) by (nonlinear_arith);
            lemma_rest_shifts(digits as int, 360 * p, t);
        }
        ((digits as u128) % (360 * d), k)
    };
    let ghost t = (1074 - k) as nat;
    assert(rest == left * pow2(t));
    if !negative {
        return find_number_near(left, k);
    }
    if left == 0 {
        assert(0 * pow2(t) == 0);
        return Real { bits: REAL_SIGN };
    }
    let d = power_of_two(k);
    proof {
        lemma_pow2_pos(t);
        lemma_bound(k as nat);
        lemma_pow2_adds(k as nat, t);
        let u = pow2(t) as int;
        assert(left * u > 0) by (nonlinear_arith)
            requires
                left > 0,
                u > 0,
        ;
        assert((360 * d - left) * u == 360 * (d * u) - left * u) by (nonlinear_arith);
        assert(left < 360 * d);
    }
    find_number_near(360 * d - left, k)
}

/// Turns in so small a unit can be counted.
proof fn lemma_bound(k: nat)
    requires
        k <= 118,
    ensures
        360 * pow2(k) < 0x8000_0000_0000_0000_0000_0000_0000_0000,
{
    lemma2_to64();
    lemma_pow2_adds(54, 64);
    lemma_pow2_adds(22, 32);
    assert(pow2(118) == 0x40_0000_0000_0000_0000_0000_0000_0000);
    if k < 118 {
        lemma_pow2_strictly_increases(k, 118);
    }
}

/// A number that is far below a turn is left as it is.
proof fn lemma_small_rest(digits: int, k: nat)
    requires
        0 <= digits < 0x20_0000_0000_0000,
        118 < k <= 1074,
    ensures
        ({
            let units = digits * pow2((1074 - k) as nat);
            &&& units % turn() == units
            &&& 0 <= units <= pow2(1008)
            &&& digits > 0 ==> units > 0
        }),
{
    lemma2_to64();
    let t = (1074 - k) as nat;
    lemma_pow2_pos(t);
    lemma_pow2_adds(21, 32);
    lemma_pow2_adds(53, 955);
    if t < 955 {
        lemma_pow2_strictly_increases(t, 955);
    }
    let u = pow2(t) as int;
    let most = pow2(955) as int;
    assert(pow2(53) == 0x20_0000_0000_0000);
    assert(0 <= digits * u <= 0x20_0000_0000_0000 * most) by (nonlinear_arith)
        requires
            0 <= digits < 0x20_0000_0000_0000,
            1 <= u <= most,
    ;
    assert(digits > 0 ==> digits * u > 0) by (nonlinear_arith)
        requires
            u >= 1,
    ;
    lemma_pow2_strictly_increases(1008, 1074);
    vstd::arithmetic::div_mod::lemma_small_mod((digits * u) as nat, turn() as nat);
}

} // verus!
