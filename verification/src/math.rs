//! Fixed-point helpers on amounts scaled by a decimal factor.
//!
//! Every scaled product is formed first and divided once, so that no precision
//! is lost before the single truncating division. Amounts are 128 bits wide
//! and their products are formed at twice that width, so that no product
//! overflows before it is divided; only a quotient that does not fit in an
//! amount is a failure.

use vstd::prelude::*;
use vstd::arithmetic::div_mod::{
    lemma_div_is_ordered,
    lemma_div_multiples_vanish,
    lemma_fundamental_div_mod,
    lemma_fundamental_div_mod_converse,
    lemma_mod_bound,
    lemma_mod_multiples_vanish,
};
use vstd::arithmetic::power2::{lemma2_to64, lemma_pow2_adds, lemma_pow2_unfold, pow2};
use crate::error::ContractError;

verus! {

/// Two to the power of 64: one half of an amount.
const LIMB: u128 = 0x1_0000_0000_0000_0000;

/// Two to the power of 127: the top bit of an amount.
const TOP: u128 = 0x8000_0000_0000_0000_0000_0000_0000_0000;

/// Two to the power of 128: one more than the largest amount.
spec fn spec_width() -> int {
    0x1_0000_0000_0000_0000_0000_0000_0000_0000int
}

/// The number whose upper half is `high` and whose lower half is `low`.
spec fn spec_wide(high: u128, low: u128) -> int {
    high * spec_width() + low
}

/// `a * b / c`, truncated. The divisor must not be zero and the quotient must
/// fit in an amount; the product may be as large as it likes.
pub open spec fn spec_mul_div(a: u128, b: u128, c: u128) -> Result<u128, ContractError> {
    if c == 0 {
        Err(ContractError::DivideByZero)
    } else if a * b / (c as int) > u128::MAX {
        Err(ContractError::Overflow)
    } else {
        Ok((a * b / (c as int)) as u128)
    }
}

/// The remainder that the division `a * scale / b` leaves. It is zero exactly
/// when that division is exact.
pub open spec fn spec_scaled_remainder(
    a: u128,
    scale: u128,
    b: u128,
) -> Result<u128, ContractError> {
    if b == 0 {
        Err(ContractError::DivideByZero)
    } else {
        Ok(((a * scale) % (b as int)) as u128)
    }
}

/// The scale at which `modulo` takes remainders: nine decimal places.
pub const PRECISION: u128 = 1_000_000_000;

/// The remainder that the division `a * PRECISION / b` leaves.
pub open spec fn spec_modulo(a: u128, b: u128) -> Result<u128, ContractError> {
    spec_scaled_remainder(a, PRECISION, b)
}

/// A product of two halves of an amount fits in an amount.
proof fn lemma_limb_product(x: u128, y: u128)
    requires
        x < LIMB,
        y < LIMB,
    ensures
        x * y <= (LIMB - 1) * (LIMB - 1),
        (LIMB - 1) * (LIMB - 1) == 0xffff_ffff_ffff_fffe_0000_0000_0000_0001,
{
    assert(x * y <= (LIMB - 1) * (LIMB - 1)) by (nonlinear_arith)
        requires
            0 <= x <= LIMB - 1,
            0 <= y <= LIMB - 1,
    ;
}

/// Adding up the four partial products of a multiplication, column by column
/// with carries, gives the same number as adding them up at once.
proof fn lemma_columns(
    limb: int,
    p00: int,
    p01: int,
    p10: int,
    p11: int,
    column1: int,
    column2: int,
    column3: int,
)
    requires
        0 < limb,
        column1 == p00 / limb + p01 % limb + p10 % limb,
        column2 == p01 / limb + p10 / limb + p11 % limb + column1 / limb,
        column3 == p11 / limb + column2 / limb,
    ensures
        p11 * (limb * limb) + (p01 + p10) * limb + p00 == (column3 * limb + column2 % limb) * (limb
            * limb) + (column1 % limb) * limb + p00 % limb,
{
    lemma_fundamental_div_mod(p00, limb);
    lemma_fundamental_div_mod(p01, limb);
    lemma_fundamental_div_mod(p10, limb);
    lemma_fundamental_div_mod(p11, limb);
    lemma_fundamental_div_mod(column1, limb);
    lemma_fundamental_div_mod(column2, limb);
    let (q00, r00) = (p00 / limb, p00 % limb);
    let (q01, r01) = (p01 / limb, p01 % limb);
    let (q10, r10) = (p10 / limb, p10 % limb);
    let (q11, r11) = (p11 / limb, p11 % limb);
    let (q1, r1) = (column1 / limb, column1 % limb);
    let (q2, r2) = (column2 / limb, column2 % limb);
    assert(p11 * (limb * limb) + (p01 + p10) * limb + p00 == (column3 * limb + r2) * (limb * limb)
        + r1 * limb + r00) by (nonlinear_arith)
        requires
            p00 == limb * q00 + r00,
            p01 == limb * q01 + r01,
            p10 == limb * q10 + r10,
            p11 == limb * q11 + r11,
            column1 == limb * q1 + r1,
            column2 == limb * q2 + r2,
            column1 == q00 + r01 + r10,
            column2 == q01 + q10 + r11 + q1,
            column3 == q11 + q2,
    ;
}

/// The product of two amounts, at full width.
fn full_mul(a: u128, b: u128) -> (product: (u128, u128))
    ensures
        spec_wide(product.0, product.1) == a * b,
{
    let a0 = a % LIMB;
    let a1 = a / LIMB;
    let b0 = b % LIMB;
    let b1 = b / LIMB;
    proof {
        lemma_limb_product(a0, b0);
        lemma_limb_product(a0, b1);
        lemma_limb_product(a1, b0);
        lemma_limb_product(a1, b1);
    }
    let p00 = a0 * b0;
    let p01 = a0 * b1;
    let p10 = a1 * b0;
    let p11 = a1 * b1;
    let column1 = p00 / LIMB + p01 % LIMB + p10 % LIMB;
    let column2 = p01 / LIMB + p10 / LIMB + p11 % LIMB + column1 / LIMB;
    let column3 = p11 / LIMB + column2 / LIMB;
    let low = (column1 % LIMB) * LIMB + p00 % LIMB;
    proof {
        let limb = LIMB as int;
        let full = a as int * b as int;
        assert(full == p11 * (limb * limb) + (p01 + p10) * limb + p00) by (nonlinear_arith)
            requires
                a == a1 * limb + a0,
                b == b1 * limb + b0,
                p00 == a0 * b0,
                p01 == a0 * b1,
                p10 == a1 * b0,
                p11 == a1 * b1,
                full == a as int * b as int,
        ;
        assert(limb * limb == spec_width());
        let high = column3 * limb + column2 % LIMB;
        lemma_columns(
            limb,
            p00 as int,
            p01 as int,
            p10 as int,
            p11 as int,
            column1 as int,
            column2 as int,
            column3 as int,
        );
        assert(full == high * spec_width() + low);
        assert(full < spec_width() * spec_width()) by (nonlinear_arith)
            requires
                0 <= a < spec_width(),
                0 <= b < spec_width(),
                full == a as int * b as int,
        ;
        assert(high < spec_width()) by (nonlinear_arith)
            requires
                full == high * spec_width() + low,
                full < spec_width() * spec_width(),
                0 <= low,
                0 < spec_width(),
        ;
    }
    let high = column3 * LIMB + column2 % LIMB;
    (high, low)
}

/// Conditions under which the long division below keeps its books: the part
/// of the dividend read so far, `scale` times over, is the quotient so far
/// times the divisor, plus the remainder, followed by what is left to read.
spec fn spec_divided(
    dividend: int,
    scale: int,
    divisor: int,
    quotient: int,
    remainder: int,
    rest: int,
) -> bool {
    &&& dividend * scale == (quotient * divisor + remainder) * spec_width() + rest
    &&& 0 <= remainder < divisor
    &&& 0 <= rest < spec_width()
    &&& 0 <= quotient < scale
}

/// One step of the long division: the next bit of the dividend is brought
/// down, and the divisor is taken off the remainder where it fits.
proof fn lemma_division_step(
    dividend: int,
    scale: int,
    divisor: int,
    quotient: int,
    remainder: int,
    rest: int,
    bit: int,
    fits: bool,
)
    requires
        spec_divided(dividend, scale, divisor, quotient, remainder, rest),
        bit == if rest >= TOP {
            1int
        } else {
            0int
        },
        fits == (2 * remainder + bit >= divisor),
    ensures
        spec_divided(
            dividend,
            2 * scale,
            divisor,
            if fits {
                2 * quotient + 1
            } else {
                2 * quotient
            },
            if fits {
                2 * remainder + bit - divisor
            } else {
                2 * remainder + bit
            },
            2 * rest - bit * spec_width(),
        ),
{
    let next_quotient = if fits {
        2 * quotient + 1
    } else {
        2 * quotient
    };
    let next_remainder = if fits {
        2 * remainder + bit - divisor
    } else {
        2 * remainder + bit
    };
    assert(dividend * (2 * scale) == 2 * (dividend * scale)) by (nonlinear_arith);
    assert((next_quotient * divisor + next_remainder) == 2 * (quotient * divisor + remainder) + bit)
        by (nonlinear_arith)
        requires
            next_quotient == if fits {
                2 * quotient + 1
            } else {
                2 * quotient
            },
            next_remainder == if fits {
                2 * remainder + bit - divisor
            } else {
                2 * remainder + bit
            },
    ;
    assert((2 * (quotient * divisor + remainder) + bit) * spec_width() == 2 * ((quotient * divisor
        + remainder) * spec_width()) + bit * spec_width()) by (nonlinear_arith);
}

/// Quotient and remainder of the number `high * 2^128 + low` on division by
/// `divisor`, where the quotient fits in an amount because `high` is less
/// than the divisor.
fn wide_div_rem(high: u128, low: u128, divisor: u128) -> (result: (u128, u128))
    requires
        high < divisor,
    ensures
        result.0 == spec_wide(high, low) / (divisor as int),
        result.1 == spec_wide(high, low) % (divisor as int),
{
    let ghost dividend = spec_wide(high, low);
    let mut quotient: u128 = 0;
    let mut remainder: u128 = high;
    let mut rest: u128 = low;
    let mut done: u32 = 0;
    proof {
        lemma2_to64();
        assert(dividend * 1 == dividend) by (nonlinear_arith);
        assert((0 * divisor + remainder) * spec_width() == remainder * spec_width())
            by (nonlinear_arith);
    }
    while done < 128
        invariant
            done <= 128,
            spec_divided(
                dividend,
                pow2(done as nat) as int,
                divisor as int,
                quotient as int,
                remainder as int,
                rest as int,
            ),
            pow2(done as nat) <= spec_width(),
            done < 128 ==> 2 * pow2(done as nat) <= spec_width(),
        decreases 128 - done,
    {
        let bit: u128 = if rest >= TOP {
            1
        } else {
            0
        };
        // whether the divisor fits in twice the remainder plus the bit,
        // told without leaving the range of an amount
        let fits = remainder + bit >= divisor - remainder;
        proof {
            lemma_division_step(
                dividend,
                pow2(done as nat) as int,
                divisor as int,
                quotient as int,
                remainder as int,
                rest as int,
                bit as int,
                fits,
            );
            lemma_pow2_unfold((done + 1) as nat);
            if done + 1 < 128 {
                lemma_pow2_below_width((done + 1) as nat);
            }
        }
        if fits {
            quotient = 2 * quotient + 1;
            remainder = remainder + bit - (divisor - remainder);
        } else {
            quotient = 2 * quotient;
            remainder = 2 * remainder + bit;
        }
        rest = if bit == 1 {
            2 * (rest - TOP)
        } else {
            2 * rest
        };
        done += 1;
    }
    proof {
        lemma_pow2_adds(64, 64);
        lemma2_to64();
        assert(pow2(128) == spec_width());
        // the whole dividend has been read: nothing is left of it
        let total = quotient as int * divisor as int + remainder as int;
        assert(rest == 0 && dividend == total) by (nonlinear_arith)
            requires
                dividend * spec_width() == total * spec_width() + rest,
                0 <= rest < spec_width(),
        ;
        lemma_fundamental_div_mod_converse(
            dividend,
            divisor as int,
            quotient as int,
            remainder as int,
        );
    }
    (quotient, remainder)
}

/// Twice a power of two whose exponent is below 128 is at most two to the
/// power of 128.
proof fn lemma_pow2_below_width(e: nat)
    requires
        e < 128,
    ensures
        2 * pow2(e) <= spec_width(),
{
    lemma_pow2_adds(64, 64);
    lemma2_to64();
    lemma_pow2_unfold(e + 1);
    if e + 1 < 128 {
        vstd::arithmetic::power2::lemma_pow2_strictly_increases(e + 1, 128);
    }
}

/// Multiplies, then divides once.
pub fn mul_div(a: u128, b: u128, c: u128) -> (result: Result<u128, ContractError>)
    ensures
        result == spec_mul_div(a, b, c),
{
    if c == 0 {
        return Err(ContractError::DivideByZero);
    }
    let (high, low) = full_mul(a, b);
    proof {
        let product = a as int * b as int;
        if high >= c {
            // the quotient is at least two to the power of 128
            assert(product >= c * spec_width()) by (nonlinear_arith)
                requires
                    product == high * spec_width() + low,
                    high >= c,
                    0 <= low,
            ;
            lemma_div_is_ordered(c * spec_width(), product, c as int);
            lemma_div_multiples_vanish(spec_width(), c as int);
        } else {
            assert(product < c * spec_width()) by (nonlinear_arith)
                requires
                    product == high * spec_width() + low,
                    high + 1 <= c,
                    low < spec_width(),
            ;
            lemma_fundamental_div_mod(product, c as int);
            lemma_mod_bound(product, c as int);
            assert(product / (c as int) < spec_width()) by (nonlinear_arith)
                requires
                    product == c * (product / (c as int)) + product % (c as int),
                    0 <= product % (c as int),
                    product < c * spec_width(),
                    0 < c,
            ;
        }
    }
    if high >= c {
        return Err(ContractError::Overflow);
    }
    let (quotient, _) = wide_div_rem(high, low, c);
    Ok(quotient)
}

/// Remainder of the scaled value `a * scale` on division by `b`.
pub fn scaled_remainder(a: u128, scale: u128, b: u128) -> (result: Result<u128, ContractError>)
    ensures
        result == spec_scaled_remainder(a, scale, b),
{
    if b == 0 {
        return Err(ContractError::DivideByZero);
    }
    let (high, low) = full_mul(a, scale);
    let reduced = high % b;
    proof {
        // multiples of the divisor in the upper half leave no remainder
        let product = a as int * scale as int;
        lemma_fundamental_div_mod(high as int, b as int);
        assert(product == (b * ((high / b) * spec_width())) + spec_wide(reduced, low))
            by (nonlinear_arith)
            requires
                product == high * spec_width() + low,
                high == b * (high / b) + reduced,
                spec_wide(reduced, low) == reduced * spec_width() + low,
        ;
        lemma_mod_multiples_vanish((high / b) * spec_width(), spec_wide(reduced, low), b as int);
    }
    let (_, remainder) = wide_div_rem(reduced, low, b);
    Ok(remainder)
}

/// Remainder of `a`, scaled by nine decimal places, on division by `b`.
pub fn modulo(a: u128, b: u128) -> (result: Result<u128, ContractError>)
    ensures
        result == spec_modulo(a, b),
{
    scaled_remainder(a, PRECISION, b)
}

} // verus!
