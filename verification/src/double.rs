//! Double-precision numbers as bit patterns.
use crate::time::{least, Duration, MAX_NANOS};
use vstd::arithmetic::div_mod::lemma_div_denominator;
use vstd::arithmetic::power2::{
    lemma2_to64, lemma_pow2_adds, lemma_pow2_pos, lemma_pow2_strictly_increases, lemma_pow2_unfold,
    pow2,
};
use vstd::prelude::*;

verus! {

/// The sign bit.
pub const REAL_SIGN: u64 = 0x8000_0000_0000_0000;

/// The magnitude of infinity. A larger magnitude is not a number.
pub const REAL_INFINITE: u64 = 0x7ff0_0000_0000_0000;

/// The bit pattern of 0.
pub const REAL_ZERO: u64 = 0;

/// The bit pattern of 1.
pub const REAL_ONE: u64 = 0x3ff0_0000_0000_0000;

/// The bit pattern of 2.
pub const REAL_TWO: u64 = 0x4000_0000_0000_0000;

/// The bit pattern of 7.
pub const REAL_SEVEN: u64 = 0x401c_0000_0000_0000;

/// The bit pattern of 64.
pub const REAL_SIXTY_FOUR: u64 = 0x4050_0000_0000_0000;

/// The bit pattern of a thousandth.
pub const REAL_THOUSANDTH: u64 = 0x3f50_624d_d2f1_a9fc;

/// A double-precision number as its bit pattern.
#[derive(Clone, Copy, Debug, PartialEq, Eq, Hash, Structural)]
pub struct Real {
    pub bits: u64,
}

/// The bit pattern without its sign.
pub open spec fn real_magnitude(bits: u64) -> int {
    if bits >= REAL_SIGN {
        bits - REAL_SIGN
    } else {
        bits as int
    }
}

impl Real {
    /// Whether the pattern is that of no number.
    pub open spec fn nan(self) -> bool {
        real_magnitude(self.bits) > REAL_INFINITE
    }

    /// An integer that orders the numbers; both zeros have the same.
    pub open spec fn key(self) -> int {
        if self.bits >= REAL_SIGN {
            -real_magnitude(self.bits)
        } else {
            real_magnitude(self.bits)
        }
    }

    /// Whether this number is less than the other.
    pub open spec fn below(self, other: Real) -> bool {
        !self.nan() && !other.nan() && self.key() < other.key()
    }

    /// This number brought into the range from `low` to `high`. What is no number
    /// stays as it is.
    pub open spec fn clamped(self, low: Real, high: Real) -> Real {
        if self.below(low) {
            low
        } else if high.below(self) {
            high
        } else {
            self
        }
    }

    /// The larger of two; the other where one is no number.
    pub open spec fn larger(self, other: Real) -> Real {
        if self.nan() || self.below(other) {
            other
        } else {
            self
        }
    }

    /// The smaller of two; the other where one is no number.
    pub open spec fn smaller(self, other: Real) -> Real {
        if self.nan() || other.below(self) {
            other
        } else {
            self
        }
    }

    fn magnitude_bits(self) -> (m: u64)
        ensures
            m == real_magnitude(self.bits),
    {
        if self.bits >= REAL_SIGN {
            self.bits - REAL_SIGN
        } else {
            self.bits
        }
    }

    /// Whether the pattern is that of no number.
    pub fn is_nan(self) -> (yes: bool)
        ensures
            yes == self.nan(),
    {
        self.magnitude_bits() > REAL_INFINITE
    }

    fn order_key(self) -> (k: i128)
        ensures
            k == self.key(),
    {
        let m: i128 = self.magnitude_bits() as i128;
        if self.bits >= REAL_SIGN {
            -m
        } else {
            m
        }
    }

    /// Whether this number is less than the other.
    pub fn lt(self, other: Real) -> (yes: bool)
        ensures
            yes == self.below(other),
    {
        !self.is_nan() && !other.is_nan() && self.order_key() < other.order_key()
    }

    /// This number brought into the range from `low` to `high`.
    pub fn clamp(self, low: Real, high: Real) -> (r: Real)
        ensures
            r == self.clamped(low, high),
    {
        if self.lt(low) {
            low
        } else if high.lt(self) {
            high
        } else {
            self
        }
    }

    /// The larger of two.
    pub fn max(self, other: Real) -> (r: Real)
        ensures
            r == self.larger(other),
    {
        if self.is_nan() || self.lt(other) {
            other
        } else {
            self
        }
    }

    /// The smaller of two.
    pub fn min(self, other: Real) -> (r: Real)
        ensures
            r == self.smaller(other),
    {
        if self.is_nan() || other.lt(self) {
            other
        } else {
            self
        }
    }
}

// ---------------------------------------------------------------------------
// Seconds
// ---------------------------------------------------------------------------

/// The bit pattern of a length of time in seconds, as a double-precision number.
pub uninterp spec fn double_seconds_bits(nanos: nat) -> u64;

/// `Duration::as_secs_f64`: the length of time in seconds as a double-precision number. It
/// depends on the length alone.
#[verifier::external_body]
fn as_double_seconds(whole: u64, nanos: u32) -> (bits: u64)
    requires
        nanos < 1_000_000_000,
    ensures
        bits == double_seconds_bits((whole * 1_000_000_000 + nanos) as nat),
{
    std::time::Duration::new(whole, nanos).as_secs_f64().to_bits()
}

/// The length in seconds. One past the longest counts as the longest.
pub open spec fn real_seconds(nanos: int) -> Real {
    Real { bits: double_seconds_bits(least(nanos, MAX_NANOS as int) as nat) }
}

/// The length in seconds.
pub fn seconds_of_length(d: Duration) -> (r: Real)
    ensures
        r == real_seconds(d@),
{
    let nanos: u128 = if d.nanos <= MAX_NANOS {
        d.nanos
    } else {
        MAX_NANOS
    };
    let whole: u64 = (nanos / 1_000_000_000) as u64;
    let part: u32 = (nanos % 1_000_000_000) as u32;
    assert(whole * 1_000_000_000 + part == nanos);
    Real { bits: as_double_seconds(whole, part) }
}

// ---------------------------------------------------------------------------
// Products
// ---------------------------------------------------------------------------

/// The bits that a number has in front of its power of two. The number is them times that power.
pub open spec fn significand(magnitude: int) -> int {
    if magnitude < 0x10_0000_0000_0000 {
        magnitude
    } else {
        magnitude % 0x10_0000_0000_0000 + 0x10_0000_0000_0000
    }
}

/// The power of two of a number.
pub open spec fn power(magnitude: int) -> int {
    if magnitude < 0x10_0000_0000_0000 {
        -1074
    } else {
        magnitude / 0x10_0000_0000_0000 - 1075
    }
}

/// How often a whole number is halved until it has no more bits than a number can hold.
pub open spec fn halvings(n: int) -> nat
    decreases n,
{
    if n < 0x20_0000_0000_0000 {
        0
    } else {
        1 + halvings(n / 2)
    }
}

/// A whole number divided by a power of two, to the nearest whole number, and to the even one of
/// two that are as near.
pub open spec fn nearest(n: int, k: nat) -> int {
    let q = n / pow2(k) as int;
    let rest = n % pow2(k) as int;
    if 2 * rest > pow2(k) || (2 * rest == pow2(k) && q % 2 == 1) {
        q + 1
    } else {
        q
    }
}

/// A whole number times a power of two, rounded up to a whole number.
pub open spec fn rounded_up(n: int, e: int) -> int {
    if e >= 0 {
        n * pow2(e as nat)
    } else {
        (n + pow2((-e) as nat) - 1) / pow2((-e) as nat) as int
    }
}

impl Real {
    /// This number, which is none below 0, times a whole one, brought to the nearest number as
    /// every product is, and then rounded up to a whole number.
    pub open spec fn times_rounded_up(self, n: int) -> int {
        let m = real_magnitude(self.bits);
        let product = significand(m) * n;
        let k = halvings(product);
        rounded_up(nearest(product, k), power(m) + k)
    }
}

/// How many pictures are shown in so many seconds at so many in one: at least one, and at most as
/// many as can be counted.
pub open spec fn pictures_in(seconds: Real, rate: int) -> int {
    if seconds.nan() || seconds.bits >= REAL_SIGN {
        1
    } else if seconds.bits == REAL_INFINITE && rate > 0 {
        u64::MAX as int
    } else {
        let n = seconds.times_rounded_up(rate);
        if n < 1 {
            1
        } else {
            least(n, u64::MAX as int)
        }
    }
}

pub(crate) fn power_of_two(n: u32) -> (p: u128)
    requires
        n <= 126,
    ensures
        p == pow2(n as nat),
        p <= 0x4000_0000_0000_0000_0000_0000_0000_0000,
{
    proof {
        lemma2_to64();
        lemma_large_power();
    }
    let mut p: u128 = 1;
    let mut i: u32 = 0;
    while i < n
        invariant
            i <= n,
            n <= 126,
            p == pow2(i as nat),
            pow2(126) == 0x4000_0000_0000_0000_0000_0000_0000_0000,
        decreases n - i,
    {
        proof {
            lemma_pow2_unfold((i + 1) as nat);
            lemma_pow2_strictly_increases(i as nat, 126);
        }
        p = p * 2;
        i += 1;
    }
    proof {
        if n < 126 {
            lemma_pow2_strictly_increases(n as nat, 126);
        }
    }
    p
}

proof fn lemma_large_power()
    ensures
        pow2(126) == 0x4000_0000_0000_0000_0000_0000_0000_0000,
{
    lemma2_to64();
    lemma_pow2_adds(62, 64);
    lemma_pow2_adds(30, 32);
    assert(pow2(62) == 0x4000_0000_0000_0000);
}

proof fn lemma_halvings(n: int, j: nat)
    requires
        n < 0x20_0000_0000_0000 * pow2(j),
    ensures
        halvings(n) <= j,
    decreases n,
{
    lemma2_to64();
    if n >= 0x20_0000_0000_0000 {
        assert(j > 0);
        lemma_pow2_unfold(j);
        lemma_halvings(n / 2, (j - 1) as nat);
    }
}

pub(crate) fn find_halvings(n: u128) -> (k: u32)
    requires
        n < 0x8000_0000_0000_0000_0000_0000_0000_0000,
    ensures
        k == halvings(n as int),
        k <= 74,
        n < 0x20_0000_0000_0000_0000_0000 ==> k <= 32,
{
    proof {
        lemma2_to64();
        lemma_large_power();
        lemma_pow2_unfold(127);
        lemma_pow2_adds(53, 74);
        lemma_pow2_adds(21, 32);
        assert(pow2(53) == 0x20_0000_0000_0000);
        assert(0x20_0000_0000_0000 * pow2(74) == 0x8000_0000_0000_0000_0000_0000_0000_0000);
        lemma_halvings(n as int, 74);
        assert(0x20_0000_0000_0000 * pow2(32) == 0x20_0000_0000_0000_0000_0000);
        if n < 0x20_0000_0000_0000_0000_0000 {
            lemma_halvings(n as int, 32);
        }
    }
    let mut rest: u128 = n;
    let mut k: u32 = 0;
    while rest >= 0x20_0000_0000_0000
        invariant
            k + halvings(rest as int) == halvings(n as int),
            halvings(n as int) <= 74,
        decreases rest,
    {
        rest = rest / 2;
        k += 1;
    }
    k
}

pub(crate) fn find_nearest(n: u128, k: u32) -> (q: u128)
    requires
        k <= 126,
        n < 0x8000_0000_0000_0000_0000_0000_0000_0000,
    ensures
        q == nearest(n as int, k as nat),
        q <= n + 1,
{
    let d = power_of_two(k);
    proof {
        lemma_pow2_pos(k as nat);
        assert(n / d <= n) by (nonlinear_arith)
            requires
                d >= 1,
        ;
    }
    let q: u128 = n / d;
    let rest: u128 = n % d;
    if 2 * rest > d || (2 * rest == d && q % 2 == 1) {
        q + 1
    } else {
        q
    }
}

/// A product that is not nothing stays so, and within as many bits as a number can hold.
pub proof fn lemma_nearest(n: int)
    requires
        0 < n,
    ensures
        1 <= nearest(n, halvings(n)) <= 0x20_0000_0000_0000,
{
    lemma_halved(n, halvings(n));
    lemma_pow2_pos(halvings(n));
    lemma2_to64();
    if n < 0x20_0000_0000_0000 {
        assert(n / 1 == n);
        assert(n % 1 == 0);
    } else {
        lemma_halved_large(n);
    }
}

/// Halving so often leaves less than the limit.
proof fn lemma_halved(n: int, k: nat)
    requires
        0 <= n,
        k == halvings(n),
    ensures
        n / (pow2(k) as int) < 0x20_0000_0000_0000,
    decreases n,
{
    lemma2_to64();
    if n >= 0x20_0000_0000_0000 {
        lemma_halved(n / 2, (k - 1) as nat);
        lemma_pow2_unfold(k);
        lemma_pow2_pos((k - 1) as nat);
        lemma_div_denominator(n, 2, pow2((k - 1) as nat) as int);
    }
}

/// And no less than half of it, where there was as much.
proof fn lemma_halved_large(n: int)
    requires
        n >= 0x20_0000_0000_0000,
    ensures
        n / (pow2(halvings(n)) as int) >= 0x10_0000_0000_0000,
    decreases n,
{
    lemma2_to64();
    let k = halvings(n);
    lemma_pow2_unfold(k);
    lemma_pow2_pos((k - 1) as nat);
    lemma_div_denominator(n, 2, pow2((k - 1) as nat) as int);
    if n / 2 >= 0x20_0000_0000_0000 {
        lemma_halved_large(n / 2);
    } else {
        assert(halvings(n / 2) == 0);
        assert((n / 2) / 1 == n / 2);
    }
}

/// How many pictures are shown in so many seconds at so many in one.
pub fn count_pictures(seconds: Real, rate: u32) -> (n: u64)
    ensures
        n == pictures_in(seconds, rate as int),
{
    if seconds.is_nan() || seconds.bits >= REAL_SIGN {
        return 1;
    }
    if seconds.bits == REAL_INFINITE && rate > 0 {
        return u64::MAX;
    }
    let m: u64 = seconds.bits;
    let (digits, e): (u64, i32) = if m < 0x10_0000_0000_0000 {
        (m, -1074)
    } else {
        (m % 0x10_0000_0000_0000 + 0x10_0000_0000_0000, (m / 0x10_0000_0000_0000) as i32 - 1075)
    };
    assert(digits < 0x20_0000_0000_0000);
    assert(digits == significand(m as int) && e == power(m as int));
    assert(digits * rate < 0x20_0000_0000_0000_0000_0000) by (nonlinear_arith)
        requires
            digits < 0x20_0000_0000_0000,
            rate <= 0xffff_ffff,
    ;
    let product: u128 = (digits as u128) * (rate as u128);
    let k = find_halvings(product);
    let q = find_nearest(product, k);
    let e: i32 = e + k as i32;
    let ghost all = rounded_up(q as int, e as int);
    assert(all == seconds.times_rounded_up(rate as int));
    proof {
        lemma2_to64();
        if product > 0 {
            lemma_nearest(product as int);
        } else {
            assert(0int / 1 == 0);
            assert(q == 0);
        }
    }
    if q == 0 {
        proof {
            lemma_nothing_up(e as int);
        }
        return 1;
    }
    if e >= 64 {
        proof {
            if e > 64 {
                lemma_pow2_strictly_increases(64, e as nat);
            }
            assert(q * pow2(e as nat) >= 0x1_0000_0000_0000_0000) by (nonlinear_arith)
                requires
                    q >= 1,
                    pow2(e as nat) >= 0x1_0000_0000_0000_0000,
            ;
        }
        return u64::MAX;
    }
    if e >= 0 {
        let d = power_of_two(e as u32);
        proof {
            if e < 64 {
                lemma_pow2_strictly_increases(e as nat, 64);
            }
            lemma_pow2_pos(e as nat);
            assert(1 <= q * d <= 0x20_0000_0000_0000 * 0x1_0000_0000_0000_0000) by (nonlinear_arith)
                requires
                    1 <= q <= 0x20_0000_0000_0000,
                    1 <= d <= 0x1_0000_0000_0000_0000,
            ;
        }
        let n: u128 = q * d;
        return if n <= u64::MAX as u128 {
            n as u64
        } else {
            u64::MAX
        };
    }
    if e <= -64 {
        proof {
            let down = (-e) as nat;
            if down > 64 {
                lemma_pow2_strictly_increases(64, down);
            }
            let d = pow2(down) as int;
            assert((q + d - 1) / d == 1) by (nonlinear_arith)
                requires
                    1 <= q <= 0x20_0000_0000_0000,
                    d >= 0x1_0000_0000_0000_0000,
            ;
        }
        return 1;
    }
    let d = power_of_two((-e) as u32);
    proof {
        lemma_pow2_pos((-e) as nat);
        lemma_pow2_strictly_increases((-e) as nat, 64);
        assert(1 <= (q + d - 1) / (d as int) <= q) by (nonlinear_arith)
            requires
                1 <= q,
                1 <= d,
        ;
    }
    ((q + d - 1) / d) as u64
}

proof fn lemma_nothing_up(e: int)
    ensures
        rounded_up(0, e) == 0,
{
    if e < 0 {
        let d = pow2((-e) as nat) as int;
        lemma_pow2_pos((-e) as nat);
        assert((d - 1) / d == 0) by (nonlinear_arith)
            requires
                d >= 1,
        ;
    }
}

// ---------------------------------------------------------------------------
// Lengths
// ---------------------------------------------------------------------------

/// The length of so many seconds in nanoseconds, to the nearest one and to the even one of two
/// that are as near; none where it is longer than the longest. The seconds are none below 0.
pub open spec fn nanos_in(seconds: Real) -> Option<int> {
    let m = seconds.bits as int;
    let e = power(m);
    if e < 0 {
        Some(nearest(significand(m) * 1_000_000_000, (-e) as nat))
    } else if significand(m) * pow2(e as nat) <= u64::MAX {
        Some(significand(m) * pow2(e as nat) * 1_000_000_000)
    } else {
        None
    }
}

/// The length of so many seconds.
pub fn length_in(seconds: Real) -> (d: Option<Duration>)
    ensures
        match nanos_in(seconds) {
            Some(n) => d matches Some(length) && length@ == n,
            None => d is None,
        },
{
    let m: u64 = seconds.bits;
    let (digits, e): (u64, i32) = if m < 0x10_0000_0000_0000 {
        (m, -1074)
    } else {
        (m % 0x10_0000_0000_0000 + 0x10_0000_0000_0000, (m / 0x10_0000_0000_0000) as i32 - 1075)
    };
    assert(digits == significand(m as int) && e == power(m as int));
    proof {
        lemma2_to64();
        lemma_large_power();
    }
    if e > 11 {
        proof {
            if e > 12 {
                lemma_pow2_strictly_increases(12, e as nat);
            }
            assert(digits * pow2(e as nat) > u64::MAX) by (nonlinear_arith)
                requires
                    digits >= 0x10_0000_0000_0000,
                    pow2(e as nat) >= 0x1000,
            ;
        }
        return None;
    }
    if e >= 0 {
        let d = power_of_two(e as u32);
        proof {
            if e < 11 {
                lemma_pow2_strictly_increases(e as nat, 11);
            }
            assert(digits * d <= u64::MAX) by (nonlinear_arith)
                requires
                    digits < 0x20_0000_0000_0000,
                    d <= 0x800,
            ;
        }
        return Some(Duration { nanos: digits as u128 * d * 1_000_000_000 });
    }
    let n: u128 = digits as u128 * 1_000_000_000;
    if e < -126 {
        proof {
            lemma_pow2_strictly_increases(126, (-e) as nat);
            let d = pow2((-e) as nat) as int;
            assert(n as int / d == 0 && n as int % d == n) by (nonlinear_arith)
                requires
                    0 <= n < d,
            ;
        }
        return Some(Duration { nanos: 0 });
    }
    Some(Duration { nanos: find_nearest(n, (-e) as u32) })
}

} // verus!
