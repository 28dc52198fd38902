//! Single-precision numbers, carried by their bit pattern.
//!
//! The library stores, compares and clamps such numbers and never computes with
//! them. A bit pattern is a sign bit over a magnitude, and the magnitude grows
//! with the number, so all of that is work on integers.
use vstd::arithmetic::power2::{lemma_pow2_adds, lemma_pow2_pos, lemma_pow2_strictly_increases, pow2};
use vstd::prelude::*;

verus! {

/// The sign bit.
pub const SIGN_BIT: u32 = 0x8000_0000;

/// The magnitude of infinity. A larger magnitude is not a number.
pub const INFINITE: u32 = 0x7f80_0000;

/// A single-precision number as its bit pattern.
#[derive(Clone, Copy, Debug, PartialEq, Eq, Hash, Structural)]
pub struct Scalar {
    pub bits: u32,
}

/// The bit pattern without its sign.
pub open spec fn magnitude(bits: u32) -> int {
    if bits >= SIGN_BIT {
        bits - SIGN_BIT
    } else {
        bits as int
    }
}

impl Scalar {
    /// Whether the bit pattern stands for no number.
    pub open spec fn nan(self) -> bool {
        magnitude(self.bits) > INFINITE
    }

    /// An integer that orders the numbers; both zeros have the same.
    pub open spec fn key(self) -> int {
        if self.bits >= SIGN_BIT {
            -magnitude(self.bits)
        } else {
            magnitude(self.bits)
        }
    }

    /// Whether this number is below the other. Of what is no number nothing is.
    pub open spec fn below(self, other: Scalar) -> bool {
        !self.nan() && !other.nan() && self.key() < other.key()
    }

    /// This number brought into the range from `low` to `high`. What is no number
    /// stays as it is.
    pub open spec fn clamped(self, low: Scalar, high: Scalar) -> Scalar {
        if self.below(low) {
            low
        } else if high.below(self) {
            high
        } else {
            self
        }
    }

    /// The number times 2^149, which is whole for every finite number.
    pub open spec fn scaled(self) -> int {
        let m = magnitude(self.bits);
        let size = if m < 0x80_0000 {
            m
        } else {
            (m % 0x80_0000 + 0x80_0000) * pow2((m / 0x80_0000 - 1) as nat)
        };
        if self.bits >= SIGN_BIT {
            -size
        } else {
            size
        }
    }

    /// The number with the given bit pattern.
    pub fn from_bits(bits: u32) -> (s: Scalar)
        ensures
            s == (Scalar { bits }),
    {
        Scalar { bits }
    }

    /// Whether this is no number.
    pub fn is_nan(self) -> (yes: bool)
        ensures
            yes == self.nan(),
    {
        self.magnitude_bits() > INFINITE
    }

    /// Whether this is a number and not an infinity.
    pub fn is_finite(self) -> (yes: bool)
        ensures
            yes == (magnitude(self.bits) < INFINITE),
    {
        self.magnitude_bits() < INFINITE
    }

    fn magnitude_bits(self) -> (m: u32)
        ensures
            m == magnitude(self.bits),
    {
        if self.bits >= SIGN_BIT {
            self.bits - SIGN_BIT
        } else {
            self.bits
        }
    }

    fn order_key(self) -> (key: i64)
        ensures
            key == self.key(),
    {
        if self.bits >= SIGN_BIT {
            -(self.magnitude_bits() as i64)
        } else {
            self.bits as i64
        }
    }

    /// Whether this number is below the other.
    pub fn lt(self, other: Scalar) -> (yes: bool)
        ensures
            yes == self.below(other),
    {
        !self.is_nan() && !other.is_nan() && self.order_key() < other.order_key()
    }

    /// Whether this number is at most the other.
    pub fn le(self, other: Scalar) -> (yes: bool)
        ensures
            yes == (!self.nan() && !other.nan() && self.key() <= other.key()),
    {
        !self.is_nan() && !other.is_nan() && self.order_key() <= other.order_key()
    }

    /// This number without its sign.
    pub fn abs(self) -> (s: Scalar)
        ensures
            s.bits == magnitude(self.bits),
    {
        Scalar { bits: self.magnitude_bits() }
    }

    /// This number brought into the range from `low` to `high`.
    pub fn clamp(self, low: Scalar, high: Scalar) -> (s: Scalar)
        ensures
            s == self.clamped(low, high),
    {
        if self.lt(low) {
            low
        } else if high.lt(self) {
            high
        } else {
            self
        }
    }

    /// The larger number; the other one where one is no number.
    pub fn max(self, other: Scalar) -> (s: Scalar)
        ensures
            s == self.larger(other),
    {
        if self.is_nan() || self.lt(other) {
            other
        } else {
            self
        }
    }

    /// The smaller number; the other one where one is no number.
    pub fn min(self, other: Scalar) -> (s: Scalar)
        ensures
            s == self.smaller(other),
    {
        if self.is_nan() || other.lt(self) {
            other
        } else {
            self
        }
    }

    /// The smaller number; the other one where one is no number.
    pub open spec fn smaller(self, other: Scalar) -> Scalar {
        if self.nan() || other.below(self) {
            other
        } else {
            self
        }
    }

    /// Twice the number. Past the largest number lies infinity; what is no number stays
    /// as it is.
    pub open spec fn doubled(self) -> Scalar {
        let m = magnitude(self.bits);
        let twice = if m < 0x80_0000 {
            m + m
        } else if m >= INFINITE {
            m
        } else if m >= 0x7f00_0000 {
            INFINITE as int
        } else {
            m + 0x80_0000
        };
        Scalar {
            bits: if self.bits >= SIGN_BIT {
                (twice + SIGN_BIT) as u32
            } else {
                twice as u32
            },
        }
    }

    /// Twice the number.
    pub fn double(self) -> (s: Scalar)
        ensures
            s == self.doubled(),
    {
        let m: u32 = self.magnitude_bits();
        let twice: u32 = if m < 0x80_0000 {
            m + m
        } else if m >= INFINITE {
            m
        } else if m >= 0x7f00_0000 {
            INFINITE
        } else {
            m + 0x80_0000
        };
        if self.bits >= SIGN_BIT {
            Scalar { bits: twice + SIGN_BIT }
        } else {
            Scalar { bits: twice }
        }
    }

    /// The larger number; the other one where one is no number.
    pub open spec fn larger(self, other: Scalar) -> Scalar {
        if self.nan() || self.below(other) {
            other
        } else {
            self
        }
    }
}

proof fn lemma_scaled_magnitude(a: int, b: int)
    requires
        0 <= a < b <= INFINITE,
    ensures
        ({
            let size = |m: int|
                if m < 0x80_0000 {
                    m
                } else {
                    (m % 0x80_0000 + 0x80_0000) * pow2((m / 0x80_0000 - 1) as nat)
                };
            size(a) < size(b)
        }),
{
    if b >= 0x80_0000 {
        let eb = (b / 0x80_0000 - 1) as nat;
        let mb = b % 0x80_0000 + 0x80_0000;
        lemma_pow2_pos(eb);
        if a < 0x80_0000 {
            assert(mb * pow2(eb) >= 0x80_0000) by (nonlinear_arith)
                requires
                    mb >= 0x80_0000,
                    pow2(eb) >= 1,
            ;
        } else {
            let ea = (a / 0x80_0000 - 1) as nat;
            let ma = a % 0x80_0000 + 0x80_0000;
            lemma_pow2_pos(ea);
            if ea == eb {
                assert(ma < mb);
                assert(ma * pow2(ea) < mb * pow2(ea)) by (nonlinear_arith)
                    requires
                        ma < mb,
                        pow2(ea) >= 1,
                ;
            } else {
                assert(ea < eb);
                let gap = (eb - ea) as nat;
                lemma_pow2_adds(ea, gap);
                assert(pow2(gap) >= 2) by {
                    vstd::arithmetic::power2::lemma2_to64();
                    if gap > 1 {
                        lemma_pow2_strictly_increases(1, gap);
                    }
                }
                let p = pow2(ea) as int;
                let g = pow2(gap) as int;
                assert(ma * p < mb * (p * g)) by (nonlinear_arith)
                    requires
                        0 < ma < 2 * 0x80_0000,
                        mb >= 0x80_0000,
                        p >= 1,
                        g >= 2,
                ;
                assert(p * g == pow2(eb));
            }
        }
    }
}

/// The order of the keys is the order of the numbers: of two numbers one is below
/// the other exactly if its value is.
pub proof fn order_is_numeric(a: Scalar, b: Scalar)
    requires
        !a.nan(),
        !b.nan(),
    ensures
        a.below(b) <==> a.scaled() < b.scaled(),
{
    let ma = magnitude(a.bits);
    let mb = magnitude(b.bits);
    if ma < mb {
        lemma_scaled_magnitude(ma, mb);
    }
    if mb < ma {
        lemma_scaled_magnitude(mb, ma);
    }
    if 0 < ma {
        lemma_scaled_magnitude(0, ma);
    }
    if 0 < mb {
        lemma_scaled_magnitude(0, mb);
    }
}

/// Doubling doubles the value, unless that is too large.
pub proof fn doubling_doubles(s: Scalar)
    requires
        magnitude(s.doubled().bits) < INFINITE,
    ensures
        s.doubled().scaled() == 2 * s.scaled(),
{
    let m = magnitude(s.bits);
    let d = magnitude(s.doubled().bits);
    vstd::arithmetic::power2::lemma2_to64();
    if m >= 0x80_0000 {
        let e = (m / 0x80_0000 - 1) as nat;
        assert(d == m + 0x80_0000);
        assert(d / 0x80_0000 == m / 0x80_0000 + 1);
        assert(d % 0x80_0000 == m % 0x80_0000);
        lemma_pow2_adds(1, e);
        let a = m % 0x80_0000 + 0x80_0000;
        let p = pow2(e) as int;
        assert(a * (2 * p) == 2 * (a * p)) by (nonlinear_arith);
        assert(pow2((d / 0x80_0000 - 1) as nat) == 2 * p);
    } else if d >= 0x80_0000 {
        assert(d / 0x80_0000 == 1);
        assert(d % 0x80_0000 + 0x80_0000 == d);
        assert(d * pow2(0) == d);
    }
}

/// Clamping a number into a range gives a number in that range, and leaves one
/// that is in it already.
pub proof fn clamp_lands_in_range(s: Scalar, low: Scalar, high: Scalar)
    requires
        !s.nan(),
        !low.nan(),
        !high.nan(),
        low.key() <= high.key(),
    ensures
        low.key() <= s.clamped(low, high).key() <= high.key(),
        low.key() <= s.key() <= high.key() ==> s.clamped(low, high) == s,
        s.clamped(low, high).clamped(low, high) == s.clamped(low, high),
{
}

} // verus!
