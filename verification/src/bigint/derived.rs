//! Operations built on the arithmetic: powers, factorials, and shifts by
//! whole limbs.

use super::limbs::{
    base_pow, lemma_base_pow_positive, lemma_canonical_zero, lemma_value_bounds,
    lemma_value_concat, lemma_value_zeros, limbs_canonical, limbs_in_range, limbs_value, BASE,
};
use super::magnitude::magnitude_div_small;
use super::number::{signed_value, BigInt};
use vstd::arithmetic::div_mod::lemma_fundamental_div_mod_converse;
use vstd::arithmetic::power::{lemma_pow0, lemma_pow1, lemma_pow_adds, pow};
use vstd::prelude::*;

verus! {

/// The product of the numbers from 1 to `n`.
pub open spec fn factorial(n: nat) -> nat
    decreases n,
{
    if n == 0 {
        1
    } else {
        n * factorial((n - 1) as nat)
    }
}

impl BigInt {
    /// `self` raised to the power `exp`, by repeated multiplication.
    pub fn pow(self, exp: usize) -> (r: BigInt)
        requires
            self.wf(),
        ensures
            r.wf(),
            r@ == pow(self@, exp as nat),
    {
        let mut res = BigInt::one();
        let mut i: usize = 0;
        proof {
            lemma_pow0(self@);
        }
        while i < exp
            invariant
                i <= exp,
                self.wf(),
                res.wf(),
                res@ == pow(self@, i as nat),
            decreases exp - i,
        {
            proof {
                lemma_pow_adds(self@, i as nat, 1);
                lemma_pow1(self@);
            }
            res = res.times(&self);
            i += 1;
        }
        res
    }

    /// The factorial of `self`, which must not be negative: the running
    /// product of the numbers from 1 up to `self`.
    pub fn fact(self) -> (r: BigInt)
        requires
            self.wf(),
            self@ >= 0,
        ensures
            r.wf(),
            r@ == factorial(self@ as nat),
    {
        let one = BigInt::one();
        let mut i = BigInt::zero();
        let mut res = BigInt::one();
        while i.is_less_than(&self)
            invariant
                self.wf(),
                one.wf(),
                one@ == 1,
                i.wf(),
                res.wf(),
                0 <= i@ <= self@,
                res@ == factorial(i@ as nat),
            decreases self@ - i@,
        {
            let ghost before = res@;
            i = i.plus(&one);
            res = res.times(&i);
            proof {
                vstd::arithmetic::mul::lemma_mul_is_commutative(before, i@);
            }
        }
        res
    }

    /// Half of `self`, rounded towards zero.
    pub fn div_by_two(&self) -> (r: BigInt)
        requires
            self.wf(),
        ensures
            r.wf(),
            r@ == signed_value(self.magnitude() / 2, self.non_negative()),
    {
        BigInt::from_canonical(magnitude_div_small(self.digits(), 2), self.is_positive())
    }

    /// A third of `self`, rounded towards zero.
    pub fn div_by_three(&self) -> (r: BigInt)
        requires
            self.wf(),
        ensures
            r.wf(),
            r@ == signed_value(self.magnitude() / 3, self.non_negative()),
    {
        BigInt::from_canonical(magnitude_div_small(self.digits(), 3), self.is_positive())
    }

    /// `self * BASE^k`: the magnitude moved up by `k` limbs, zero limbs
    /// filling the low end.
    pub fn shift_left(&self, k: usize) -> (r: BigInt)
        requires
            self.wf(),
        ensures
            r.wf(),
            r@ == self@ * base_pow(k as nat),
    {
        let digits = self.digits();
        if self.is_zero() {
            assert(0 * base_pow(k as nat) == 0);
            return BigInt::zero();
        }
        let mut res: Vec<u32> = Vec::new();
        let mut i: usize = 0;
        while i < k
            invariant
                i <= k,
                res.len() == i,
                forall|j: int| 0 <= j < res.len() ==> res@[j] == 0,
            decreases k - i,
        {
            res.push(0);
            i += 1;
        }
        let ghost zeros = res@;
        let n = digits.len();
        let mut j: usize = 0;
        while j < n
            invariant
                j <= n,
                n == digits.len(),
                res@ == zeros + digits@.take(j as int),
            decreases n - j,
        {
            res.push(digits[j]);
            proof {
                assert(res@ =~= zeros + digits@.take(j + 1));
            }
            j += 1;
        }
        proof {
            assert(digits@.take(n as int) =~= digits@);
            lemma_value_zeros(zeros);
            lemma_value_concat(zeros, digits@);
            lemma_canonical_zero(digits@);
            assert(digits@ != seq![0u32]);
            assert(digits@.last() != 0) by {
                if digits@.len() == 1 {
                    assert(digits@ =~= seq![digits@[0]]);
                }
            }
            assert forall|m: int| 0 <= m < res@.len() implies #[trigger] res@[m] < BASE by {
                if m >= zeros.len() {
                    assert(res@[m] == digits@[m - zeros.len()]);
                }
            }
            assert(res@.last() == digits@.last());
            lemma_negated_product(limbs_value(digits@), base_pow(k as nat));
        }
        BigInt::from_canonical(res, self.is_positive())
    }

    /// `self / BASE^k`, rounded towards zero: the magnitude moved down by
    /// `k` limbs, the `k` lowest limbs being dropped.
    pub fn shift_right(&self, k: usize) -> (r: BigInt)
        requires
            self.wf(),
        ensures
            r.wf(),
            r@ == signed_value(self.magnitude() / base_pow(k as nat), self.non_negative()),
    {
        let digits = self.digits();
        let n = digits.len();
        proof {
            lemma_base_pow_positive(k as nat);
        }
        if k >= n {
            proof {
                lemma_value_bounds(digits@);
                super::limbs::lemma_base_pow_monotonic(n as nat, k as nat);
                lemma_fundamental_div_mod_converse(
                    limbs_value(digits@),
                    base_pow(k as nat),
                    0,
                    limbs_value(digits@),
                );
            }
            return BigInt::zero();
        }
        let mut res: Vec<u32> = Vec::new();
        let mut j: usize = k;
        while j < n
            invariant
                k <= j <= n,
                n == digits.len(),
                res@ == digits@.subrange(k as int, j as int),
            decreases n - j,
        {
            res.push(digits[j]);
            proof {
                assert(res@ =~= digits@.subrange(k as int, j + 1));
            }
            j += 1;
        }
        proof {
            let low = digits@.take(k as int);
            assert(digits@ =~= low + res@);
            lemma_value_concat(low, res@);
            assert(limbs_in_range(low));
            lemma_value_bounds(low);
            assert(limbs_in_range(res@));
            assert(res@.last() == digits@.last());
            assert(limbs_canonical(res@));
            lemma_fundamental_div_mod_converse(
                limbs_value(digits@),
                base_pow(k as nat),
                limbs_value(res@),
                limbs_value(low),
            );
        }
        BigInt::from_canonical(res, self.is_positive())
    }
}

/// A minus sign may be moved out of a product.
proof fn lemma_negated_product(x: int, p: int)
    ensures
        (-x) * p == -(x * p),
{
    assert((-x) * p == -(x * p)) by (nonlinear_arith);
}

impl core::ops::Shl<usize> for BigInt {
    type Output = BigInt;

    /// `self << k` is `self * BASE^k`.
    fn shl(self, k: usize) -> (r: BigInt)
        ensures
            r.wf(),
            r@ == self@ * base_pow(k as nat),
    {
        self.shift_left(k)
    }
}

impl vstd::std_specs::ops::ShlSpecImpl<usize> for BigInt {
    /// The contract of `shl` fixes the result as an integer; no equation
    /// between values of the type is claimed.
    open spec fn obeys_shl_spec() -> bool {
        false
    }

    open spec fn shl_req(self, k: usize) -> bool {
        self.wf()
    }

    open spec fn shl_spec(self, k: usize) -> BigInt {
        arbitrary()
    }
}

impl core::ops::Shr<usize> for BigInt {
    type Output = BigInt;

    /// `self >> k` is `self / BASE^k`, rounded towards zero.
    fn shr(self, k: usize) -> (r: BigInt)
        ensures
            r.wf(),
            r@ == signed_value(self.magnitude() / base_pow(k as nat), self.non_negative()),
    {
        self.shift_right(k)
    }
}

impl vstd::std_specs::ops::ShrSpecImpl<usize> for BigInt {
    /// The contract of `shr` fixes the result as an integer; no equation
    /// between values of the type is claimed.
    open spec fn obeys_shr_spec() -> bool {
        false
    }

    open spec fn shr_req(self, k: usize) -> bool {
        self.wf()
    }

    open spec fn shr_spec(self, k: usize) -> BigInt {
        arbitrary()
    }
}

} // verus!
