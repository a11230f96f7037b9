//! Comparing slices up to rotation.

use vstd::prelude::*;
use vstd::std_specs::cmp::PartialEqSpec;

verus! {

/// The place in `x` of the element that stands at place `i` once `x` has
/// been turned `k` places to the right.
pub open spec fn turned_index(len: int, k: int, i: int) -> int {
    if i >= k {
        i - k
    } else {
        len - k + i
    }
}

/// `y` is `x` turned `k` places to the right, elements taken as equal
/// where `==` says so.
pub open spec fn is_turn_of<T: PartialEq>(x: Seq<T>, y: Seq<T>, k: int) -> bool {
    &&& x.len() == y.len()
    &&& 0 <= k < x.len()
    &&& forall|i: int|
        0 <= i < x.len() ==> (#[trigger] x[turned_index(x.len() as int, k, i)]).eq_spec(&y[i])
}

/// `x` and `y` are one ring of elements, read from different places:
/// they have one length, and `y` is some turn of `x`. Slices of fewer than
/// two elements are rings of one kind apiece, whatever they hold.
pub open spec fn circular_eq<T: PartialEq>(x: Seq<T>, y: Seq<T>) -> bool {
    x.len() == y.len() && (x.len() < 2 || exists|k: int| is_turn_of(x, y, k))
}

/// `true` when `y` is `x` turned `k` places to the right.
fn is_turned_by<T: PartialEq>(x: &[T], y: &[T], k: usize) -> (r: bool)
    requires
        x.len() == y.len(),
        k < x.len(),
    ensures
        T::obeys_eq_spec() ==> r == is_turn_of(x@, y@, k as int),
{
    let len = x.len();
    let mut i: usize = 0;
    while i < len
        invariant
            i <= len,
            len == x.len(),
            len == y.len(),
            k < len,
            T::obeys_eq_spec() ==> forall|j: int|
                0 <= j < i ==> (#[trigger] x@[turned_index(len as int, k as int, j)]).eq_spec(
                    &y@[j],
                ),
        decreases len - i,
    {
        let from = if i >= k {
            i - k
        } else {
            len - k + i
        };
        if !(x[from] == y[i]) {
            proof {
                if T::obeys_eq_spec() {
                    assert(!x@[turned_index(len as int, k as int, i as int)].eq_spec(&y@[i as int]));
                }
            }
            return false;
        }
        i += 1;
    }
    true
}

/// Tells whether two slices are equal up to rotation.
pub fn circular_slice_eq<T: PartialEq>(x: &[T], y: &[T]) -> (r: bool)
    ensures
        T::obeys_eq_spec() ==> r == circular_eq(x@, y@),
{
    let len = x.len();
    if len != y.len() {
        return false;
    }
    if len < 2 {
        return true;
    }
    let mut k: usize = 0;
    while k < len
        invariant
            k <= len,
            len == x.len(),
            len == y.len(),
            T::obeys_eq_spec() ==> forall|j: int| 0 <= j < k ==> !is_turn_of(x@, y@, j),
        decreases len - k,
    {
        if is_turned_by(x, y, k) {
            return true;
        }
        k += 1;
    }
    false
}

} // verus!
