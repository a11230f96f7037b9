//! The positional model of a magnitude: what a sequence of limbs denotes,
//! and the arithmetic facts about that denotation which the algorithms rest on.

use vstd::arithmetic::mul::*;
use vstd::arithmetic::power::*;
use vstd::prelude::*;

verus! {

/// The limb base. Its square fits a `u64`, the width of the accumulator
/// that multiplication uses.
pub const BASE: u32 = 1_000_000_000;

/// Number of decimal digits that one limb holds: `BASE == 10^BASE_WIDTH`.
pub const BASE_WIDTH: usize = 9;

/// `BASE` raised to the power `n`.
pub open spec fn base_pow(n: nat) -> int {
    pow(BASE as int, n)
}

/// Every limb of `s` lies in `[0, BASE)`.
pub open spec fn limbs_in_range(s: Seq<u32>) -> bool {
    forall|i: int| 0 <= i < s.len() ==> #[trigger] s[i] < BASE
}

/// The natural number that the limbs denote, least-significant limb first:
/// the sum of `s[i] * BASE^i`.
pub open spec fn limbs_value(s: Seq<u32>) -> int
    decreases s.len(),
{
    if s.len() == 0 {
        0
    } else {
        limbs_value(s.drop_last()) + s.last() * base_pow((s.len() - 1) as nat)
    }
}

/// No most-significant zero limb, save for the single limb that writes zero.
pub open spec fn limbs_trimmed(s: Seq<u32>) -> bool {
    s.len() >= 1 && (s.len() == 1 || s.last() != 0)
}

/// A magnitude in canonical form: limbs in range and trimmed.
pub open spec fn limbs_canonical(s: Seq<u32>) -> bool {
    limbs_in_range(s) && limbs_trimmed(s)
}

/// Powers of the base are positive.
pub proof fn lemma_base_pow_positive(n: nat)
    ensures
        base_pow(n) > 0,
{
    lemma_pow_positive(BASE as int, n);
}

/// The next power of the base is `BASE` times this one.
pub proof fn lemma_base_pow_succ(n: nat)
    ensures
        base_pow(n + 1) == base_pow(n) * BASE,
        base_pow(n + 1) == BASE * base_pow(n),
        base_pow(0) == 1,
        base_pow(1) == BASE,
{
    reveal(pow);
    lemma_pow0(BASE as int);
    lemma_pow1(BASE as int);
    lemma_mul_is_commutative(base_pow(n), BASE as int);
}

/// Exponents add where powers of the base are multiplied.
pub proof fn lemma_base_pow_adds(a: nat, b: nat)
    ensures
        base_pow(a + b) == base_pow(a) * base_pow(b),
{
    lemma_pow_adds(BASE as int, a, b);
}

/// Appending a limb adds that limb at the next position.
pub proof fn lemma_value_push(s: Seq<u32>, d: u32)
    ensures
        limbs_value(s.push(d)) == limbs_value(s) + d * base_pow(s.len()),
{
    assert(s.push(d).drop_last() =~= s);
}

/// One limb is worth itself.
pub proof fn lemma_value_single(d: u32)
    ensures
        limbs_value(seq![d]) == d,
{
    lemma_base_pow_succ(0);
    assert(seq![d].drop_last() =~= Seq::<u32>::empty());
    assert(limbs_value(seq![d]) == limbs_value(seq![d].drop_last()) + seq![d].last() * base_pow(0));
}

/// A magnitude with limbs in range is below `BASE^len`.
pub proof fn lemma_value_bounds(s: Seq<u32>)
    requires
        limbs_in_range(s),
    ensures
        0 <= limbs_value(s) < base_pow(s.len()),
    decreases s.len(),
{
    if s.len() == 0 {
        lemma_base_pow_succ(0);
    } else {
        let n = (s.len() - 1) as nat;
        lemma_value_bounds(s.drop_last());
        lemma_base_pow_succ(n);
        lemma_base_pow_positive(n);
        let p = base_pow(n);
        let d = s.last() as int;
        assert(0 <= d * p <= (BASE - 1) * p) by (nonlinear_arith)
            requires
                0 <= d <= BASE - 1,
                p > 0,
        ;
        assert((BASE - 1) * p + p == BASE * p) by (nonlinear_arith);
    }
}

/// One more limb of a prefix adds that limb at its position.
pub proof fn lemma_value_take_step(s: Seq<u32>, i: int)
    requires
        0 <= i < s.len(),
    ensures
        limbs_value(s.take(i + 1)) == limbs_value(s.take(i)) + s[i] * base_pow(i as nat),
{
    assert(s.take(i + 1) =~= s.take(i).push(s[i]));
    lemma_value_push(s.take(i), s[i]);
}

/// Replacing one limb changes the value by the difference at that position.
pub proof fn lemma_value_update(s: Seq<u32>, k: int, v: u32)
    requires
        0 <= k < s.len(),
    ensures
        limbs_value(s.update(k, v)) == limbs_value(s) + (v - s[k]) * base_pow(k as nat),
    decreases s.len(),
{
    let t = s.update(k, v);
    let n = (s.len() - 1) as nat;
    if k == s.len() - 1 {
        assert(t.drop_last() =~= s.drop_last());
        let p = base_pow(n);
        let a = v as int;
        let b = s[k] as int;
        assert(a * p == b * p + (a - b) * p) by (nonlinear_arith);
    } else {
        assert(t.drop_last() =~= s.drop_last().update(k, v));
        lemma_value_update(s.drop_last(), k, v);
    }
}

/// A sequence of zero limbs denotes zero.
pub proof fn lemma_value_zeros(s: Seq<u32>)
    requires
        forall|i: int| 0 <= i < s.len() ==> s[i] == 0,
    ensures
        limbs_value(s) == 0,
    decreases s.len(),
{
    if s.len() > 0 {
        lemma_value_zeros(s.drop_last());
        assert(s.last() == 0);
        assert(0 * base_pow((s.len() - 1) as nat) == 0);
    }
}

/// A most-significant zero limb adds nothing.
pub proof fn lemma_value_drop_zero(s: Seq<u32>)
    requires
        s.len() > 0,
        s.last() == 0,
    ensures
        limbs_value(s) == limbs_value(s.drop_last()),
{
    assert(0 * base_pow((s.len() - 1) as nat) == 0);
}

/// A magnitude whose top limb is not zero is at least `BASE^(len - 1)`.
pub proof fn lemma_value_lower_bound(s: Seq<u32>)
    requires
        limbs_in_range(s),
        s.len() > 0,
        s.last() != 0,
    ensures
        limbs_value(s) >= base_pow((s.len() - 1) as nat),
{
    let p = base_pow((s.len() - 1) as nat);
    let d = s.last() as int;
    assert(limbs_in_range(s.drop_last()));
    lemma_value_bounds(s.drop_last());
    lemma_base_pow_positive((s.len() - 1) as nat);
    assert(d * p >= p) by (nonlinear_arith)
        requires
            d >= 1,
            p > 0,
    ;
}

/// `BASE^m <= BASE^n` for `m <= n`.
pub proof fn lemma_base_pow_monotonic(m: nat, n: nat)
    requires
        m <= n,
    ensures
        base_pow(m) <= base_pow(n),
{
    lemma_pow_increases(BASE as nat, m, n);
}

/// Of two canonical magnitudes the longer one is the larger.
pub proof fn lemma_longer_is_larger(a: Seq<u32>, b: Seq<u32>)
    requires
        limbs_canonical(a),
        limbs_in_range(b),
        a.len() > b.len() >= 1,
    ensures
        limbs_value(a) > limbs_value(b),
{
    lemma_value_bounds(b);
    lemma_value_lower_bound(a);
    lemma_base_pow_monotonic(b.len(), (a.len() - 1) as nat);
}

/// Two magnitudes of one length that agree above position `k` are ordered
/// as their limbs at `k` are.
pub proof fn lemma_top_difference_decides(a: Seq<u32>, b: Seq<u32>, k: int)
    requires
        limbs_in_range(a),
        limbs_in_range(b),
        a.len() == b.len(),
        0 <= k < a.len(),
        forall|j: int| k < j < a.len() ==> a[j] == b[j],
        a[k] > b[k],
    ensures
        limbs_value(a) > limbs_value(b),
    decreases a.len(),
{
    let n = (a.len() - 1) as nat;
    let p = base_pow(n);
    assert(limbs_in_range(a.drop_last()));
    assert(limbs_in_range(b.drop_last()));
    if k == a.len() - 1 {
        lemma_value_bounds(a.drop_last());
        lemma_value_bounds(b.drop_last());
        let x = a.last() as int;
        let y = b.last() as int;
        assert(x * p >= y * p + p) by (nonlinear_arith)
            requires
                x >= y + 1,
                p >= 0,
        ;
    } else {
        assert(a.last() == b.last());
        lemma_top_difference_decides(a.drop_last(), b.drop_last(), k);
    }
}

/// The canonical form of a magnitude: its most-significant zero limbs
/// removed, and the single limb 0 in place of nothing.
pub open spec fn trim(s: Seq<u32>) -> Seq<u32>
    decreases s.len(),
{
    if s.len() == 0 {
        seq![0u32]
    } else if s.len() == 1 || s.last() != 0 {
        s
    } else {
        trim(s.drop_last())
    }
}

/// Trimming keeps the value and the limbs' range, and yields a trimmed
/// sequence; a trimmed sequence is left as it is.
pub proof fn lemma_trim(s: Seq<u32>)
    ensures
        limbs_value(trim(s)) == limbs_value(s),
        limbs_trimmed(trim(s)),
        limbs_in_range(s) ==> limbs_in_range(trim(s)),
        limbs_trimmed(s) ==> trim(s) == s,
        trim(s).len() <= s.len() || s.len() == 0,
    decreases s.len(),
{
    if s.len() == 0 {
        lemma_value_single(0u32);
    } else if s.len() == 1 || s.last() != 0 {
    } else {
        lemma_trim(s.drop_last());
        lemma_value_drop_zero(s);
        if limbs_in_range(s) {
            assert(limbs_in_range(s.drop_last()));
        }
    }
}

/// Canonical magnitudes are determined by their value.
pub proof fn lemma_canonical_unique(a: Seq<u32>, b: Seq<u32>)
    requires
        limbs_canonical(a),
        limbs_canonical(b),
        limbs_value(a) == limbs_value(b),
    ensures
        a == b,
{
    if a.len() > b.len() {
        lemma_longer_is_larger(a, b);
    } else if b.len() > a.len() {
        lemma_longer_is_larger(b, a);
    } else {
        if a != b {
            assert(!(a =~= b));
            let k = first_difference_from_top(a, b, a.len() as int);
            if a[k] > b[k] {
                lemma_top_difference_decides(a, b, k);
            } else {
                lemma_top_difference_decides(b, a, k);
            }
        }
    }
}

/// The highest position below `n` at which `a` and `b` differ, given that
/// they have one length and agree from `n` upwards but not everywhere.
pub proof fn first_difference_from_top(a: Seq<u32>, b: Seq<u32>, n: int) -> (k: int)
    requires
        a.len() == b.len(),
        0 <= n <= a.len(),
        forall|j: int| n <= j < a.len() ==> a[j] == b[j],
        exists|j: int| 0 <= j < a.len() && a[j] != b[j],
    ensures
        0 <= k < n,
        a[k] != b[k],
        forall|j: int| k < j < a.len() ==> a[j] == b[j],
    decreases n,
{
    if n == 0 {
        let j = choose|j: int| 0 <= j < a.len() && a[j] != b[j];
        assert(false);
        0
    } else if a[n - 1] != b[n - 1] {
        n - 1
    } else {
        first_difference_from_top(a, b, n - 1)
    }
}

/// The single limb 0 is the one canonical magnitude worth zero.
pub proof fn lemma_canonical_zero(s: Seq<u32>)
    requires
        limbs_canonical(s),
    ensures
        limbs_value(s) == 0 <==> s == seq![0u32],
        limbs_value(s) >= 0,
{
    lemma_value_bounds(s);
    lemma_value_single(0u32);
    if s.len() > 1 {
        lemma_value_lower_bound(s);
        lemma_base_pow_positive((s.len() - 1) as nat);
        assert(s != seq![0u32]) by {
            assert(seq![0u32].len() == 1);
        }
    } else {
        assert(s =~= seq![s[0]]);
        lemma_value_single(s[0]);
        if s[0] == 0 {
            assert(s =~= seq![0u32]);
        } else {
            assert(seq![0u32][0] == 0);
        }
    }
}

/// The order of two magnitudes as their limbs show it: the shorter one is
/// the smaller, and of two of one length the one with the smaller limb at
/// the highest position where they differ.
pub open spec fn magnitude_less(a: Seq<u32>, b: Seq<u32>) -> bool {
    a.len() < b.len() || (a.len() == b.len() && exists|k: int|
        0 <= k < a.len() && #[trigger] a[k] < b[k] && forall|j: int|
            k < j < a.len() ==> a[j] == b[j])
}

/// Where two magnitudes of one length differ highest at `k`, the limbs at
/// `k` decide which one is less.
pub proof fn lemma_less_by_top_difference(a: Seq<u32>, b: Seq<u32>, ki: int)
    requires
        a.len() == b.len(),
        0 <= ki < a.len(),
        a[ki] != b[ki],
        forall|j: int| ki < j < a.len() ==> a[j] == b[j],
    ensures
        magnitude_less(a, b) <==> a[ki] < b[ki],
        magnitude_less(b, a) <==> b[ki] < a[ki],
{
    if a[ki] < b[ki] {
        assert(magnitude_less(a, b));
    } else {
        assert(b[ki] < a[ki]);
        assert(magnitude_less(b, a));
    }
    if magnitude_less(a, b) {
        let w = choose|w: int|
            0 <= w < a.len() && #[trigger] a[w] < b[w] && forall|j: int|
                w < j < a.len() ==> a[j] == b[j];
        if w < ki {
            assert(a[ki] == b[ki]);
        }
    }
    if magnitude_less(b, a) {
        let w = choose|w: int|
            0 <= w < b.len() && #[trigger] b[w] < a[w] && forall|j: int|
                w < j < b.len() ==> b[j] == a[j];
        if w < ki {
            assert(b[ki] == a[ki]);
        }
    }
}

/// The same, for a position held in a machine word.
pub proof fn lemma_less_by_top_difference_at(a: Seq<u32>, b: Seq<u32>, k: usize)
    requires
        a.len() == b.len(),
        k < a.len(),
        a[k as int] != b[k as int],
        forall|j: int| k < j < a.len() ==> a[j] == b[j],
    ensures
        magnitude_less(a, b) <==> a[k as int] < b[k as int],
        magnitude_less(b, a) <==> b[k as int] < a[k as int],
{
    lemma_less_by_top_difference(a, b, k as int);
}

/// Equal magnitudes are not less than one another.
pub proof fn lemma_less_irreflexive(a: Seq<u32>)
    ensures
        !magnitude_less(a, a),
{
}

/// On canonical magnitudes the order that the limbs show is the order of
/// the values.
pub proof fn lemma_less_is_value_order(a: Seq<u32>, b: Seq<u32>)
    requires
        limbs_canonical(a),
        limbs_canonical(b),
    ensures
        magnitude_less(a, b) <==> limbs_value(a) < limbs_value(b),
{
    if a.len() < b.len() {
        lemma_longer_is_larger(b, a);
    } else if a.len() > b.len() {
        lemma_longer_is_larger(a, b);
    } else if a == b {
    } else {
        assert(!(a =~= b));
        let k = first_difference_from_top(a, b, a.len() as int);
        lemma_less_by_top_difference(a, b, k);
        if a[k] < b[k] {
            lemma_top_difference_decides(b, a, k);
        } else {
            lemma_top_difference_decides(a, b, k);
        }
    }
}

/// The value of two sequences joined: the second one stands above the first.
pub proof fn lemma_value_concat(a: Seq<u32>, b: Seq<u32>)
    ensures
        limbs_value(a + b) == limbs_value(a) + limbs_value(b) * base_pow(a.len()),
    decreases b.len(),
{
    if b.len() == 0 {
        assert(a + b =~= a);
        assert(0 * base_pow(a.len()) == 0);
    } else {
        let c = a + b;
        assert(c.drop_last() =~= a + b.drop_last());
        lemma_value_concat(a, b.drop_last());
        let n = (b.len() - 1) as nat;
        lemma_base_pow_adds(a.len(), n);
        let pa = base_pow(a.len());
        let pn = base_pow(n);
        let vb = limbs_value(b.drop_last());
        let d = b.last() as int;
        assert((vb + d * pn) * pa == vb * pa + d * (pa * pn)) by (nonlinear_arith);
    }
}

} // verus!
