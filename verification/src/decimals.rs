//! Double-precision numbers as exact decimals.
use crate::double::{power, real_magnitude, significand, REAL_SIGN};
use crate::text::{decimal, decimal_text, owned};
use vstd::arithmetic::power2::{lemma2_to64, lemma_pow2_unfold, pow2};
use vstd::prelude::*;

verus! {

/// A power of 5.
pub open spec fn fives(k: nat) -> int
    decreases k,
{
    if k == 0 {
        1
    } else {
        5 * fives((k - 1) as nat)
    }
}

/// A finite number in decimal, with all its digits. Dividing by a power of two is multiplying by
/// that of 5 and dividing by that of 10.
pub open spec fn exact_decimal(bits: u64) -> Seq<char> {
    let m = real_magnitude(bits);
    let e = power(m);
    let sign = if bits >= REAL_SIGN {
        "-"@
    } else {
        ""@
    };
    if e >= 0 {
        sign + decimal(significand(m) * pow2(e as nat))
    } else {
        sign + decimal(significand(m) * fives((-e) as nat)) + "e-"@ + decimal(-e)
    }
}

// ---------------------------------------------------------------------------
// Rows of digits, the last in front
// ---------------------------------------------------------------------------

spec fn tens(k: nat) -> int
    decreases k,
{
    if k == 0 {
        1
    } else {
        10 * tens((k - 1) as nat)
    }
}

spec fn value(digits: Seq<u8>) -> int
    decreases digits.len(),
{
    if digits.len() == 0 {
        0
    } else {
        digits[0] + 10 * value(digits.drop_first())
    }
}

/// Digits, of which there is one, or the first of the number is not 0.
spec fn is_number(digits: Seq<u8>) -> bool {
    &&& digits.len() > 0
    &&& digits.len() > 1 ==> digits.last() > 0
    &&& forall|i: int| 0 <= i < digits.len() ==> #[trigger] digits[i] < 10
}

proof fn lemma_value_push(digits: Seq<u8>, d: u8)
    ensures
        value(digits.push(d)) == value(digits) + tens(digits.len()) * d,
    decreases digits.len(),
{
    if digits.len() == 0 {
        assert(digits.push(d).drop_first() =~= digits);
        assert(value(digits) == 0);
        assert(tens(0) * d == d);
    } else {
        let rest = digits.drop_first();
        lemma_value_push(rest, d);
        assert(digits.push(d).drop_first() =~= rest.push(d));
        let p = tens(rest.len());
        assert(10 * (value(rest) + p * d) == 10 * value(rest) + (10 * p) * d) by (nonlinear_arith);
    }
}

proof fn lemma_value_skip(digits: Seq<u8>, i: int)
    requires
        0 <= i < digits.len(),
    ensures
        value(digits.skip(i)) == digits[i] + 10 * value(digits.skip(i + 1)),
{
    assert(digits.skip(i).drop_first() =~= digits.skip(i + 1));
}

fn digits_of(n: u64) -> (digits: Vec<u8>)
    ensures
        is_number(digits@),
        value(digits@) == n,
{
    let mut digits: Vec<u8> = Vec::new();
    let mut rest: u64 = n;
    assert(tens(0) * rest == rest);
    while rest >= 10
        invariant
            rest > 0 || n == 0,
            rest == 0 ==> digits.len() == 0,
            forall|i: int| 0 <= i < digits.len() ==> #[trigger] digits[i] < 10,
            value(digits@) + tens(digits@.len()) * rest == n,
        decreases rest,
    {
        let d: u8 = (rest % 10) as u8;
        proof {
            lemma_value_push(digits@, d);
            let p = tens(digits@.len());
            let q = (rest / 10) as int;
            assert(p * d + (10 * p) * q == p * (d + 10 * q)) by (nonlinear_arith);
            assert(d + 10 * q == rest);
        }
        digits.push(d);
        rest = rest / 10;
    }
    proof {
        lemma_value_push(digits@, rest as u8);
    }
    digits.push(rest as u8);
    digits
}

fn multiply(digits: &Vec<u8>, by: u8) -> (product: Vec<u8>)
    requires
        is_number(digits@),
        1 <= by <= 5,
    ensures
        is_number(product@),
        value(product@) == by * value(digits@),
{
    let mut product: Vec<u8> = Vec::new();
    let mut carry: u8 = 0;
    let mut i: usize = 0;
    proof {
        assert(digits@.skip(0) =~= digits@);
        assert(tens(0) * (by * value(digits@)) == by * value(digits@));
    }
    while i < digits.len()
        invariant
            i <= digits.len(),
            is_number(digits@),
            1 <= by <= 5,
            product.len() == i,
            carry <= 4,
            forall|j: int| 0 <= j < i ==> #[trigger] product[j] < 10,
            i > 1 && i == digits.len() && carry == 0 ==> product@.last() > 0,
            value(product@) + tens(i as nat) * (by * value(digits@.skip(i as int)) + carry) == by
                * value(digits@),
        decreases digits.len() - i,
    {
        let d: u8 = digits[i];
        assert(by * d <= 45) by (nonlinear_arith)
            requires
                by <= 5,
                d <= 9,
        ;
        assert(d > 0 ==> by * d > 0) by (nonlinear_arith)
            requires
                by >= 1,
        ;
        let t: u8 = by * d + carry;
        let low: u8 = t % 10;
        let high: u8 = t / 10;
        proof {
            lemma_value_skip(digits@, i as int);
            lemma_value_push(product@, low);
            let p = tens(i as nat);
            let rest = value(digits@.skip(i + 1));
            let b = by as int;
            assert(b * (d + 10 * rest) == b * d + 10 * (b * rest)) by (nonlinear_arith);
            assert(p * (b * d + 10 * (b * rest) + carry) == p * low + (10 * p) * (b * rest + high))
                by (nonlinear_arith)
                requires
                    b * d + carry == low + 10 * high,
            ;
        }
        product.push(low);
        carry = high;
        i += 1;
    }
    proof {
        assert(digits@.skip(i as int).len() == 0);
        assert(by * value(digits@.skip(i as int)) == 0) by (nonlinear_arith)
            requires
                value(digits@.skip(i as int)) == 0,
        ;
        lemma_value_push(product@, carry);
        assert(tens(i as nat) * 0 == 0);
    }
    if carry > 0 {
        product.push(carry);
    }
    product
}

fn write_digits(digits: &Vec<u8>) -> (text: String)
    requires
        is_number(digits@),
    ensures
        text@ == decimal(value(digits@)),
{
    let n: usize = digits.len();
    let mut text = String::new();
    let mut i: usize = n - 1;
    proof {
        lemma_value_skip(digits@, n - 1);
        assert(value(digits@.skip(n as int)) == 0);
    }
    text.push((48u8 + digits[i]) as char);
    assert(text@ =~= decimal(value(digits@.skip(i as int))));
    while i > 0
        invariant
            i < n,
            n == digits.len(),
            is_number(digits@),
            n > 1 ==> value(digits@.skip(i as int)) > 0,
            text@ == decimal(value(digits@.skip(i as int))),
        decreases i,
    {
        proof {
            lemma_value_skip(digits@, i - 1);
        }
        i = i - 1;
        let d: u8 = digits[i];
        text.push((48u8 + d) as char);
    }
    assert(digits@.skip(0) =~= digits@);
    text
}

/// A finite number in decimal, with all its digits.
pub fn write_exact(bits: u64) -> (text: String)
    ensures
        text@ == exact_decimal(bits),
{
    let (m, mut text): (u64, String) = if bits >= REAL_SIGN {
        (bits - REAL_SIGN, owned("-"))
    } else {
        (bits, owned(""))
    };
    let (first, e): (u64, i32) = if m < 0x10_0000_0000_0000 {
        (m, -1074)
    } else {
        (m % 0x10_0000_0000_0000 + 0x10_0000_0000_0000, (m / 0x10_0000_0000_0000) as i32 - 1075)
    };
    assert(first == significand(m as int) && e == power(m as int));
    let mut digits = digits_of(first);
    let mut i: i32 = 0;
    if e >= 0 {
        proof {
            lemma2_to64();
            assert(first * pow2(0) == first);
        }
        while i < e
            invariant
                0 <= i <= e,
                is_number(digits@),
                value(digits@) == first * pow2(i as nat),
            decreases e - i,
        {
            proof {
                lemma_pow2_unfold((i + 1) as nat);
                let p = pow2(i as nat);
                assert(2 * (first * p) == first * (2 * p)) by (nonlinear_arith);
            }
            digits = multiply(&digits, 2);
            i += 1;
        }
        text.append(write_digits(&digits).as_str());
    } else {
        assert(first * fives(0) == first);
        while i < -e
            invariant
                0 <= i <= -e,
                -1074 <= e < 0,
                is_number(digits@),
                value(digits@) == first * fives(i as nat),
            decreases -e - i,
        {
            proof {
                let p = fives(i as nat);
                assert(5 * (first * p) == first * (5 * p)) by (nonlinear_arith);
            }
            digits = multiply(&digits, 5);
            i += 1;
        }
        text.append(write_digits(&digits).as_str());
        text.append("e-");
        text.append(decimal_text((-e) as u64).as_str());
    }
    text
}

} // verus!
