//! The number type: a sign and a canonical magnitude.

use super::limbs::{
    lemma_canonical_unique, lemma_canonical_zero, lemma_value_single, limbs_canonical,
    limbs_in_range, limbs_value, trim, BASE,
};
use super::magnitude::normalize_limbs;
use vstd::prelude::*;

verus! {

/// An arbitrary-precision signed integer.
///
/// The magnitude is a sequence of limbs in base `BASE`, least-significant
/// limb first; the sign is kept apart from it.
#[derive(Debug)]
pub struct BigInt {
    digits: Vec<u32>,
    positive: bool,
}

/// The integer worth `magnitude`, taken with a minus sign unless `non_negative`.
pub open spec fn signed_value(magnitude: int, non_negative: bool) -> int {
    if non_negative {
        magnitude
    } else {
        -magnitude
    }
}

impl BigInt {
    /// The limbs of the magnitude, least-significant first.
    pub closed spec fn limbs(&self) -> Seq<u32> {
        self.digits@
    }

    /// `true` for a value that is not negative.
    pub closed spec fn non_negative(&self) -> bool {
        self.positive
    }

    /// What the type promises of a value: the magnitude is canonical (limbs
    /// in range, no most-significant zero limb but in the single limb of
    /// zero), and zero carries no minus sign.
    pub open spec fn wf(&self) -> bool {
        &&& limbs_canonical(self.limbs())
        &&& (limbs_value(self.limbs()) == 0 ==> self.non_negative())
    }

    /// The magnitude as a mathematical integer.
    pub open spec fn magnitude(&self) -> int {
        limbs_value(self.limbs())
    }

    /// The mathematical integer that the value denotes.
    pub open spec fn view(&self) -> int {
        signed_value(self.magnitude(), self.non_negative())
    }

    /// A well-formed value is fixed by the integer it denotes: no two
    /// different pairs of sign and magnitude denote one integer.
    pub proof fn lemma_view_injective(&self, other: &BigInt)
        requires
            self.wf(),
            other.wf(),
            self@ == other@,
        ensures
            self.limbs() == other.limbs(),
            self.non_negative() == other.non_negative(),
    {
        lemma_canonical_zero(self.limbs());
        lemma_canonical_zero(other.limbs());
        lemma_canonical_unique(self.limbs(), other.limbs());
    }

    /// Builds the value from limbs that are canonical already.
    pub fn from_canonical(digits: Vec<u32>, positive: bool) -> (r: BigInt)
        requires
            limbs_canonical(digits@),
        ensures
            r.wf(),
            r.limbs() == digits@,
            r.non_negative() == (positive || limbs_value(digits@) == 0),
            r@ == signed_value(limbs_value(digits@), positive),
    {
        proof {
            lemma_canonical_zero(digits@);
        }
        let is_zero = digits.len() == 1 && digits[0] == 0;
        assert(is_zero <==> digits@ =~= seq![0u32]);
        BigInt { digits, positive: positive || is_zero }
    }

    /// The value whose magnitude is the one limb `limb`.
    pub fn from_limb(limb: u32, positive: bool) -> (r: BigInt)
        requires
            limb < BASE,
        ensures
            r.wf(),
            r@ == signed_value(limb as int, positive),
    {
        let mut digits: Vec<u32> = Vec::new();
        digits.push(limb);
        proof {
            assert(digits@ =~= seq![limb]);
            lemma_value_single(limb);
        }
        BigInt::from_canonical(digits, positive)
    }

    /// Builds the value from limbs and a sign.
    ///
    /// The limbs are brought to canonical form: most-significant zero limbs
    /// are dropped, an empty sequence stands for zero, and a limb that is not
    /// below `BASE` is reduced with the excess carried upwards. Zero is
    /// stored without a minus sign whatever `positive` says.
    pub fn new(vec: Vec<u32>, positive: bool) -> (r: BigInt)
        ensures
            r.wf(),
            r@ == signed_value(limbs_value(vec@), positive),
            limbs_in_range(vec@) ==> r.limbs() == trim(vec@),
    {
        let digits = normalize_limbs(&vec);
        BigInt::from_canonical(digits, positive)
    }

    /// The number 0.
    pub fn zero() -> (r: BigInt)
        ensures
            r.wf(),
            r@ == 0,
    {
        BigInt::from_limb(0, true)
    }

    /// The number 1.
    pub fn one() -> (r: BigInt)
        ensures
            r.wf(),
            r@ == 1,
    {
        BigInt::from_limb(1, true)
    }

    /// The number -1.
    pub fn neg_one() -> (r: BigInt)
        ensures
            r.wf(),
            r@ == -1,
    {
        BigInt::from_limb(1, false)
    }

    /// The number 2.
    pub fn two() -> (r: BigInt)
        ensures
            r.wf(),
            r@ == 2,
    {
        BigInt::from_limb(2, true)
    }

    /// The number 3.
    pub fn three() -> (r: BigInt)
        ensures
            r.wf(),
            r@ == 3,
    {
        BigInt::from_limb(3, true)
    }

    /// The limb at `index`, counted from the least significant one.
    pub fn get_digit(&self, index: usize) -> (r: Option<&u32>)
        ensures
            r == if index < self.limbs().len() {
                Some(&self.limbs()[index as int])
            } else {
                None
            },
    {
        if index < self.digits.len() {
            Some(&self.digits[index])
        } else {
            None
        }
    }

    /// Write access to the limb at `index`. What is written there is the
    /// caller's to keep in range and canonical: the number is the old one
    /// with that limb replaced.
    pub fn get_digit_mut(&mut self, index: usize) -> (r: Option<&mut u32>)
        ensures
            match r {
                Some(d) => index < old(self).limbs().len() && *d == old(self).limbs()[index as int]
                    && final(self).limbs() == old(self).limbs().update(index as int, *final(d))
                    && final(self).non_negative() == old(self).non_negative(),
                None => index >= old(self).limbs().len() && *final(self) == *old(self),
            },
    {
        if index < self.digits.len() {
            Some(&mut self.digits[index])
        } else {
            None
        }
    }

    /// The limbs, least-significant first.
    pub fn digits(&self) -> (r: &Vec<u32>)
        ensures
            r@ == self.limbs(),
    {
        &self.digits
    }

    /// `true` unless the number is negative.
    pub fn is_positive(&self) -> (r: bool)
        ensures
            r == self.non_negative(),
    {
        self.positive
    }

    /// `true` for the number 0.
    pub fn is_zero(&self) -> (r: bool)
        requires
            self.wf(),
        ensures
            r == (self@ == 0),
    {
        proof {
            lemma_canonical_zero(self.limbs());
        }
        let r = self.digits.len() == 1 && self.digits[0] == 0;
        assert(r <==> self.digits@ =~= seq![0u32]);
        r
    }

    /// The number with its sign flipped.
    pub fn negated(&self) -> (r: BigInt)
        requires
            self.wf(),
        ensures
            r.wf(),
            r@ == -self@,
    {
        BigInt::from_canonical(self.digits.clone(), !self.positive)
    }
}

impl Clone for BigInt {
    fn clone(&self) -> (r: Self)
        ensures
            r.limbs() == self.limbs(),
            r.non_negative() == self.non_negative(),
    {
        BigInt { digits: self.digits.clone(), positive: self.positive }
    }
}

} // verus!
