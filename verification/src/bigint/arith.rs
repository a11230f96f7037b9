//! Signed addition, subtraction and multiplication.

use super::compare::compare_magnitude;
use super::limbs::lemma_canonical_zero;
use super::magnitude::{magnitude_add, magnitude_mul, magnitude_sub};
use super::number::BigInt;
use core::cmp::Ordering;
use vstd::prelude::*;

verus! {

/// The sign rule of multiplication on magnitudes `x` and `y`.
pub proof fn lemma_signed_product(x: int, y: int)
    ensures
        (-x) * y == -(x * y),
        x * (-y) == -(x * y),
        (-x) * (-y) == x * y,
{
    assert((-x) * y == -(x * y)) by (nonlinear_arith);
    assert(x * (-y) == -(x * y)) by (nonlinear_arith);
    assert((-x) * (-y) == x * y) by (nonlinear_arith);
}

impl BigInt {
    /// The sum of `self` and `rhs`, or their difference where `subtract`
    /// is set.
    ///
    /// Subtracting is adding the operand with its sign flipped. Operands of
    /// one sign have their magnitudes added, and the sum keeps that sign.
    /// With different signs the smaller magnitude is taken from the larger
    /// one, and the result has the sign of the operand whose magnitude is
    /// the larger; equal magnitudes give zero.
    pub fn add_sub(&self, rhs: &BigInt, subtract: bool) -> (r: BigInt)
        requires
            self.wf(),
            rhs.wf(),
        ensures
            r.wf(),
            r@ == if subtract {
                self@ - rhs@
            } else {
                self@ + rhs@
            },
    {
        proof {
            lemma_canonical_zero(self.limbs());
            lemma_canonical_zero(rhs.limbs());
        }
        let rhs_positive = if subtract {
            !rhs.is_positive()
        } else {
            rhs.is_positive()
        };
        if self.is_positive() == rhs_positive {
            let sum = magnitude_add(self.digits(), rhs.digits());
            BigInt::from_canonical(sum, rhs_positive)
        } else {
            match compare_magnitude(self.digits(), rhs.digits()) {
                Ordering::Equal => BigInt::zero(),
                Ordering::Greater => {
                    let difference = magnitude_sub(self.digits(), rhs.digits());
                    BigInt::from_canonical(difference, self.is_positive())
                },
                Ordering::Less => {
                    let difference = magnitude_sub(rhs.digits(), self.digits());
                    BigInt::from_canonical(difference, rhs_positive)
                },
            }
        }
    }

    /// `self + rhs`.
    pub fn plus(&self, rhs: &BigInt) -> (r: BigInt)
        requires
            self.wf(),
            rhs.wf(),
        ensures
            r.wf(),
            r@ == self@ + rhs@,
    {
        self.add_sub(rhs, false)
    }

    /// `self - rhs`.
    pub fn minus(&self, rhs: &BigInt) -> (r: BigInt)
        requires
            self.wf(),
            rhs.wf(),
        ensures
            r.wf(),
            r@ == self@ - rhs@,
    {
        self.add_sub(rhs, true)
    }

    /// `self * rhs`: the product of the magnitudes, negative where exactly
    /// one operand is negative. Long operands are multiplied by splitting
    /// in three, others by the schoolbook method.
    pub fn times(&self, rhs: &BigInt) -> (r: BigInt)
        requires
            self.wf(),
            rhs.wf(),
        ensures
            r.wf(),
            r@ == self@ * rhs@,
    {
        self.times_toom3(rhs)
    }

    /// `self * rhs` by the schoolbook method, whatever the length of the
    /// operands.
    pub fn times_schoolbook(&self, rhs: &BigInt) -> (r: BigInt)
        requires
            self.wf(),
            rhs.wf(),
        ensures
            r.wf(),
            r@ == self@ * rhs@,
    {
        proof {
            lemma_signed_product(self.magnitude(), rhs.magnitude());
        }
        let product = magnitude_mul(self.digits(), rhs.digits());
        BigInt::from_canonical(product, self.is_positive() == rhs.is_positive())
    }
}

impl core::ops::Add for BigInt {
    type Output = BigInt;

    /// `self + rhs` on well-formed operands.
    fn add(self, rhs: BigInt) -> (r: BigInt)
        ensures
            r.wf(),
            r@ == self@ + rhs@,
    {
        self.plus(&rhs)
    }
}

impl vstd::std_specs::ops::AddSpecImpl for BigInt {
    /// The contract of `add` fixes the sum as an integer. Which value of
    /// the type stands for it, an equation between values cannot say, so
    /// none is claimed here.
    open spec fn obeys_add_spec() -> bool {
        false
    }

    open spec fn add_req(self, rhs: BigInt) -> bool {
        self.wf() && rhs.wf()
    }

    open spec fn add_spec(self, rhs: BigInt) -> BigInt {
        arbitrary()
    }
}

impl core::ops::AddAssign for BigInt {
    /// Replaces `self` by `self + rhs`.
    fn add_assign(&mut self, rhs: BigInt)
        requires
            old(self).wf(),
            rhs.wf(),
        ensures
            final(self).wf(),
            final(self)@ == old(self)@ + rhs@,
    {
        let r = self.plus(&rhs);
        *self = r;
    }
}

impl core::ops::Sub for BigInt {
    type Output = BigInt;

    /// `self - rhs` on well-formed operands.
    fn sub(self, rhs: BigInt) -> (r: BigInt)
        ensures
            r.wf(),
            r@ == self@ - rhs@,
    {
        self.minus(&rhs)
    }
}

impl vstd::std_specs::ops::SubSpecImpl for BigInt {
    /// The contract of `sub` fixes the difference as an integer. Which value of
    /// the type stands for it, an equation between values cannot say, so
    /// none is claimed here.
    open spec fn obeys_sub_spec() -> bool {
        false
    }

    open spec fn sub_req(self, rhs: BigInt) -> bool {
        self.wf() && rhs.wf()
    }

    open spec fn sub_spec(self, rhs: BigInt) -> BigInt {
        arbitrary()
    }
}

impl core::ops::SubAssign for BigInt {
    /// Replaces `self` by `self - rhs`.
    fn sub_assign(&mut self, rhs: BigInt)
        requires
            old(self).wf(),
            rhs.wf(),
        ensures
            final(self).wf(),
            final(self)@ == old(self)@ - rhs@,
    {
        let r = self.minus(&rhs);
        *self = r;
    }
}

impl core::ops::Mul for BigInt {
    type Output = BigInt;

    /// `self * rhs` on well-formed operands.
    fn mul(self, rhs: BigInt) -> (r: BigInt)
        ensures
            r.wf(),
            r@ == self@ * rhs@,
    {
        self.times(&rhs)
    }
}

impl vstd::std_specs::ops::MulSpecImpl for BigInt {
    /// The contract of `mul` fixes the product as an integer. Which value of
    /// the type stands for it, an equation between values cannot say, so
    /// none is claimed here.
    open spec fn obeys_mul_spec() -> bool {
        false
    }

    open spec fn mul_req(self, rhs: BigInt) -> bool {
        self.wf() && rhs.wf()
    }

    open spec fn mul_spec(self, rhs: BigInt) -> BigInt {
        arbitrary()
    }
}

impl core::ops::MulAssign for BigInt {
    /// Replaces `self` by `self * rhs`.
    fn mul_assign(&mut self, rhs: BigInt)
        requires
            old(self).wf(),
            rhs.wf(),
        ensures
            final(self).wf(),
            final(self)@ == old(self)@ * rhs@,
    {
        let r = self.times(&rhs);
        *self = r;
    }
}

impl core::ops::Neg for BigInt {
    type Output = BigInt;

    /// `-self`: the number with its sign flipped.
    fn neg(self) -> (r: BigInt)
        ensures
            r.wf(),
            r@ == -self@,
    {
        self.negated()
    }
}

impl vstd::std_specs::ops::NegSpecImpl for BigInt {
    /// The contract of `neg` fixes the result as an integer; no equation
    /// between values of the type is claimed.
    open spec fn obeys_neg_spec() -> bool {
        false
    }

    open spec fn neg_req(self) -> bool {
        self.wf()
    }

    open spec fn neg_spec(self) -> BigInt {
        arbitrary()
    }
}

} // verus!
