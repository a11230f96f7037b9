//! The total order: of magnitudes, and of signed values.

use super::limbs::{
    lemma_canonical_zero, lemma_less_by_top_difference_at, lemma_less_irreflexive,
    lemma_less_is_value_order, limbs_canonical, limbs_value, magnitude_less,
};
use super::magnitude::top_difference;
use super::number::BigInt;
use core::cmp::Ordering;
use vstd::prelude::*;

verus! {

/// How the integer `x` stands to the integer `y`.
pub open spec fn int_order(x: int, y: int) -> Ordering {
    if x < y {
        Ordering::Less
    } else if x == y {
        Ordering::Equal
    } else {
        Ordering::Greater
    }
}

/// How the magnitude `a` stands to the magnitude `b`, as their limbs show
/// it: by length first, then by the highest limb in which they differ.
pub open spec fn magnitude_order(a: Seq<u32>, b: Seq<u32>) -> Ordering {
    if magnitude_less(a, b) {
        Ordering::Less
    } else if magnitude_less(b, a) {
        Ordering::Greater
    } else {
        Ordering::Equal
    }
}

/// Compares two magnitudes: the longer one is the greater; two of one
/// length are compared limb by limb from the most significant one down, and
/// the first limbs that differ decide. On canonical magnitudes this is the
/// order of their values.
pub fn compare_magnitude(lhs: &Vec<u32>, rhs: &Vec<u32>) -> (r: Ordering)
    ensures
        r == magnitude_order(lhs@, rhs@),
        limbs_canonical(lhs@) && limbs_canonical(rhs@) ==> r == int_order(
            limbs_value(lhs@),
            limbs_value(rhs@),
        ),
{
    proof {
        if limbs_canonical(lhs@) && limbs_canonical(rhs@) {
            lemma_less_is_value_order(lhs@, rhs@);
            lemma_less_is_value_order(rhs@, lhs@);
        }
    }
    if lhs.len() > rhs.len() {
        Ordering::Greater
    } else if lhs.len() < rhs.len() {
        Ordering::Less
    } else {
        match top_difference(lhs, rhs) {
            None => {
                proof {
                    lemma_less_irreflexive(lhs@);
                }
                Ordering::Equal
            },
            Some(k) => {
                proof {
                    lemma_less_by_top_difference_at(lhs@, rhs@, k);
                }
                if lhs[k] > rhs[k] {
                    Ordering::Greater
                } else {
                    Ordering::Less
                }
            },
        }
    }
}

impl BigInt {
    /// How `self` stands to `other`, read off signs and limbs: a value that
    /// is not negative is greater than a negative one; two that are not
    /// negative stand as their magnitudes do, two negative ones the other
    /// way round.
    pub open spec fn order(&self, other: &BigInt) -> Ordering {
        if self.non_negative() && other.non_negative() {
            magnitude_order(self.limbs(), other.limbs())
        } else if self.non_negative() {
            Ordering::Greater
        } else if other.non_negative() {
            Ordering::Less
        } else {
            magnitude_order(other.limbs(), self.limbs())
        }
    }

    /// On well-formed values the order read off signs and limbs is the
    /// order of the integers denoted.
    pub proof fn lemma_order_is_int_order(&self, other: &BigInt)
        requires
            self.wf(),
            other.wf(),
        ensures
            self.order(other) == int_order(self@, other@),
    {
        lemma_canonical_zero(self.limbs());
        lemma_canonical_zero(other.limbs());
        lemma_less_is_value_order(self.limbs(), other.limbs());
        lemma_less_is_value_order(other.limbs(), self.limbs());
    }

    /// Compares two numbers.
    pub fn compare(&self, other: &BigInt) -> (r: Ordering)
        ensures
            r == self.order(other),
            self.wf() && other.wf() ==> r == int_order(self@, other@),
    {
        proof {
            if self.wf() && other.wf() {
                self.lemma_order_is_int_order(other);
            }
        }
        if self.is_positive() {
            if other.is_positive() {
                compare_magnitude(self.digits(), other.digits())
            } else {
                Ordering::Greater
            }
        } else {
            if other.is_positive() {
                Ordering::Less
            } else {
                compare_magnitude(other.digits(), self.digits())
            }
        }
    }
}

impl BigInt {
    /// `self < other`.
    pub fn is_less_than(&self, other: &BigInt) -> (r: bool)
        requires
            self.wf(),
            other.wf(),
        ensures
            r == (self@ < other@),
    {
        match self.compare(other) {
            Ordering::Less => true,
            _ => false,
        }
    }
}

impl PartialEq for BigInt {
    /// Equality of sign and of every limb.
    fn eq(&self, other: &Self) -> (r: bool) {
        if self.is_positive() != other.is_positive() {
            false
        } else if self.digits().len() != other.digits().len() {
            false
        } else {
            top_difference(self.digits(), other.digits()).is_none()
        }
    }
}

impl vstd::std_specs::cmp::PartialEqSpecImpl for BigInt {
    open spec fn obeys_eq_spec() -> bool {
        true
    }

    open spec fn eq_spec(&self, other: &Self) -> bool {
        self.limbs() == other.limbs() && self.non_negative() == other.non_negative()
    }
}

impl Eq for BigInt {

}

impl PartialOrd for BigInt {
    fn partial_cmp(&self, other: &Self) -> (r: Option<Ordering>) {
        Some(self.compare(other))
    }
}

impl vstd::std_specs::cmp::PartialOrdSpecImpl for BigInt {
    open spec fn obeys_partial_cmp_spec() -> bool {
        true
    }

    open spec fn partial_cmp_spec(&self, other: &Self) -> Option<Ordering> {
        Some(self.order(other))
    }
}

} // verus!
