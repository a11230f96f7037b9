//! Multiplication by splitting each operand in three.
//!
//! Each operand is read as a polynomial of degree two in `X = BASE^k`, the
//! two polynomials are evaluated at 0, 1, -1, -2 and infinity, the five
//! values are multiplied pairwise, and the coefficients of the product are
//! recovered from the five products.

use super::limbs::{
    base_pow, lemma_base_pow_monotonic, lemma_base_pow_positive,
    lemma_base_pow_succ, lemma_trim, lemma_value_bounds, lemma_value_concat,
    lemma_value_lower_bound, limbs_canonical, limbs_in_range, limbs_value, BASE,
};
use super::magnitude::magnitude_mul;
use super::number::BigInt;
use vstd::prelude::*;

verus! {

/// Operands with no more limbs than this are multiplied by the schoolbook
/// method.
pub const TOOM_THRESHOLD: usize = 32;

/// The coefficients of the product of `a0 + a1 x + a2 x^2` and
/// `b0 + b1 x + b2 x^2`, from the constant one up.
pub open spec fn product_coefficients(
    a0: int,
    a1: int,
    a2: int,
    b0: int,
    b1: int,
    b2: int,
) -> (int, int, int, int, int) {
    (a0 * b0, a0 * b1 + a1 * b0, a0 * b2 + a1 * b1 + a2 * b0, a1 * b2 + a2 * b1, a2 * b2)
}

/// A product of two terms, each a coefficient times a power.
proof fn lemma_term(a: int, m: int, b: int, n: int)
    ensures
        (a * m) * (b * n) == (a * b) * (m * n),
{
    assert((a * m) * (b * n) == (a * b) * (m * n)) by (nonlinear_arith);
}

/// A factor times a sum of three.
proof fn lemma_distribute(u: int, p: int, q: int, r: int)
    ensures
        u * (p + q + r) == u * p + u * q + u * r,
        (p + q + r) * u == p * u + q * u + r * u,
{
    assert(u * (p + q + r) == u * p + u * q + u * r) by (nonlinear_arith);
    assert((p + q + r) * u == p * u + q * u + r * u) by (nonlinear_arith);
}

/// The product of two polynomials of degree two, written out.
proof fn lemma_product_expansion(a0: int, a1: int, a2: int, b0: int, b1: int, b2: int, x: int)
    ensures
        ({
            let (r0, r1, r2, r3, r4) = product_coefficients(a0, a1, a2, b0, b1, b2);
            (a0 + a1 * x + a2 * (x * x)) * (b0 + b1 * x + b2 * (x * x)) == r0 + r1 * x + r2 * (x
                * x) + r3 * (x * x * x) + r4 * (x * x * x * x)
        }),
{
    let xx = x * x;
    let q = b0 + b1 * x + b2 * xx;
    lemma_distribute(q, a0, a1 * x, a2 * xx);
    lemma_distribute(a0, b0, b1 * x, b2 * xx);
    lemma_distribute(a1 * x, b0, b1 * x, b2 * xx);
    lemma_distribute(a2 * xx, b0, b1 * x, b2 * xx);
    // The nine products of terms.
    lemma_term(a0, 1, b1, x);
    lemma_term(a0, 1, b2, xx);
    lemma_term(a1, x, b0, 1);
    lemma_term(a1, x, b1, x);
    lemma_term(a1, x, b2, xx);
    lemma_term(a2, xx, b0, 1);
    lemma_term(a2, xx, b1, x);
    lemma_term(a2, xx, b2, xx);
    assert(x * xx == x * x * x) by (nonlinear_arith)
        requires
            xx == x * x,
    ;
    assert(xx * x == x * x * x) by (nonlinear_arith)
        requires
            xx == x * x,
    ;
    assert(xx * xx == x * x * x * x) by (nonlinear_arith)
        requires
            xx == x * x,
    ;
    // Like powers gathered.
    lemma_distribute(x, a0 * b1, a1 * b0, 0);
    lemma_distribute(xx, a0 * b2, a1 * b1, a2 * b0);
    lemma_distribute(x * x * x, a1 * b2, a2 * b1, 0);
}

/// A polynomial of degree four, evaluated from the highest coefficient down.
proof fn lemma_horner(r0: int, r1: int, r2: int, r3: int, r4: int, x: int)
    ensures
        (((r4 * x + r3) * x + r2) * x + r1) * x + r0 == r0 + r1 * x + r2 * (x * x) + r3 * (x * x
            * x) + r4 * (x * x * x * x),
{
    let s3 = r4 * x + r3;
    let s2 = s3 * x + r2;
    let s1 = s2 * x + r1;
    assert(s3 * x == r4 * (x * x) + r3 * x) by (nonlinear_arith)
        requires
            s3 == r4 * x + r3,
    ;
    assert(s2 * x == r4 * (x * x * x) + r3 * (x * x) + r2 * x) by (nonlinear_arith)
        requires
            s2 == r4 * (x * x) + r3 * x + r2,
    ;
    assert(s1 * x == r4 * (x * x * x * x) + r3 * (x * x * x) + r2 * (x * x) + r1 * x)
        by (nonlinear_arith)
        requires
            s1 == r4 * (x * x * x) + r3 * (x * x) + r2 * x + r1,
    ;
}

/// A canonical magnitude below `BASE^m` has at most `m` limbs.
proof fn lemma_len_from_bound(s: Seq<u32>, m: nat)
    requires
        limbs_canonical(s),
        limbs_value(s) < base_pow(m),
        m >= 1,
    ensures
        s.len() <= m,
{
    if s.len() > m {
        lemma_value_lower_bound(s);
        lemma_base_pow_monotonic(m, (s.len() - 1) as nat);
    }
}

/// The limbs `from..to` of a magnitude, cut at its end.
pub open spec fn part_of(s: Seq<u32>, from: int, to: int) -> Seq<u32> {
    let lo = if from < s.len() {
        from
    } else {
        s.len() as int
    };
    let hi = if to < s.len() {
        to
    } else {
        s.len() as int
    };
    s.subrange(lo, hi)
}

/// A magnitude is its three parts of `k` limbs, each worth `X = BASE^k`
/// times the one below it.
proof fn lemma_three_parts(s: Seq<u32>, k: int)
    requires
        limbs_in_range(s),
        k >= 1,
        s.len() <= 3 * k,
    ensures
        ({
            let x = base_pow(k as nat);
            let v0 = limbs_value(part_of(s, 0, k));
            let v1 = limbs_value(part_of(s, k, 2 * k));
            let v2 = limbs_value(part_of(s, 2 * k, 3 * k));
            &&& limbs_value(s) == v0 + v1 * x + v2 * (x * x)
            &&& 0 <= v0 < x
            &&& 0 <= v1 < x
            &&& 0 <= v2 < x
            &&& x >= BASE
        }),
{
    let x = base_pow(k as nat);
    let low = part_of(s, 0, k);
    let mid = part_of(s, k, 2 * k);
    let high = part_of(s, 2 * k, 3 * k);
    assert(s =~= low + (mid + high));
    lemma_value_concat(low, mid + high);
    lemma_value_concat(mid, high);
    assert(limbs_in_range(low));
    assert(limbs_in_range(mid));
    assert(limbs_in_range(high));
    lemma_value_bounds(low);
    lemma_value_bounds(mid);
    lemma_value_bounds(high);
    lemma_base_pow_monotonic(low.len(), k as nat);
    lemma_base_pow_monotonic(mid.len(), k as nat);
    lemma_base_pow_monotonic(high.len(), k as nat);
    lemma_base_pow_monotonic(1, k as nat);
    lemma_base_pow_succ(0);
    let v0 = limbs_value(low);
    let v1 = limbs_value(mid);
    let v2 = limbs_value(high);
    if mid.len() == k {
        assert(low.len() == k);
        assert((v1 + v2 * x) * x == v1 * x + v2 * (x * x)) by (nonlinear_arith);
    } else {
        assert(high.len() == 0);
        assert(v2 == 0);
        assert(0 * (x * x) == 0);
        assert(v2 * base_pow(mid.len()) == 0) by (nonlinear_arith)
            requires
                v2 == 0,
        ;
        if low.len() == k {
        } else {
            assert(mid.len() == 0);
            assert(v1 == 0);
            assert(v1 * base_pow(low.len()) == 0) by (nonlinear_arith)
                requires
                    v1 == 0,
            ;
            assert(0 * x == 0);
        }
    }
}

/// The number whose magnitude is the limbs `from..to` of `digits`, cut at
/// its end.
fn part(digits: &Vec<u32>, from: usize, to: usize) -> (r: BigInt)
    requires
        limbs_in_range(digits@),
        from <= to,
    ensures
        r.wf(),
        r@ == limbs_value(part_of(digits@, from as int, to as int)),
        r.magnitude() == r@,
        r.limbs().len() <= to - from || r.limbs().len() == 1,
{
    let len = digits.len();
    let lo = if from < len {
        from
    } else {
        len
    };
    let hi = if to < len {
        to
    } else {
        len
    };
    let mut limbs: Vec<u32> = Vec::new();
    let mut i: usize = lo;
    while i < hi
        invariant
            lo <= i <= hi <= len,
            len == digits.len(),
            limbs@ == digits@.subrange(lo as int, i as int),
        decreases hi - i,
    {
        limbs.push(digits[i]);
        proof {
            assert(limbs@ =~= digits@.subrange(lo as int, i + 1));
        }
        i += 1;
    }
    proof {
        assert(limbs_in_range(limbs@));
        lemma_trim(limbs@);
        super::convert::lemma_value_nonnegative(limbs@);
    }
    let r = BigInt::new(limbs, true);
    proof {
        super::convert::lemma_value_nonnegative(r.limbs());
    }
    r
}

/// `m` with the sign that the product of `x` and `y` has.
fn signed_as_product(m: BigInt, x: &BigInt, y: &BigInt) -> (r: BigInt)
    requires
        m.wf(),
        x.wf(),
        y.wf(),
        m@ == x.magnitude() * y.magnitude(),
    ensures
        r.wf(),
        r@ == x@ * y@,
{
    proof {
        super::arith::lemma_signed_product(x.magnitude(), y.magnitude());
    }
    if x.is_positive() == y.is_positive() {
        m
    } else {
        m.negated()
    }
}

/// A number of no more than seven times `X = BASE^k` in magnitude has at
/// most `k + 1` limbs.
proof fn lemma_evaluation_is_short(v: BigInt, k: nat)
    requires
        v.wf(),
        -7 * base_pow(k) < v@ < 7 * base_pow(k),
    ensures
        v.limbs().len() <= k + 1,
{
    lemma_base_pow_succ(k);
    lemma_base_pow_positive(k);
    lemma_len_from_bound(v.limbs(), k + 1);
}

/// The products of the two polynomials at 1, -1 and -2, in terms of the
/// coefficients of the product polynomial.
proof fn lemma_products_at_points(a0: int, a1: int, a2: int, b0: int, b1: int, b2: int)
    ensures
        ({
            let (r0, r1, r2, r3, r4) = product_coefficients(a0, a1, a2, b0, b1, b2);
            &&& (a0 + a1 + a2) * (b0 + b1 + b2) == r0 + r1 + r2 + r3 + r4
            &&& (a0 - a1 + a2) * (b0 - b1 + b2) == r0 - r1 + r2 - r3 + r4
            &&& (a0 - 2 * a1 + 4 * a2) * (b0 - 2 * b1 + 4 * b2) == r0 - 2 * r1 + 4 * r2 - 8 * r3
                + 16 * r4
        }),
{
    let (r0, r1, r2, r3, r4) = product_coefficients(a0, a1, a2, b0, b1, b2);
    let x: int = 1;
    lemma_product_expansion(a0, a1, a2, b0, b1, b2, x);
    assert((a0 + a1 + a2) * (b0 + b1 + b2) == r0 + r1 + r2 + r3 + r4) by (nonlinear_arith)
        requires
            x == 1,
            (a0 + a1 * x + a2 * (x * x)) * (b0 + b1 * x + b2 * (x * x)) == r0 + r1 * x + r2 * (x
                * x) + r3 * (x * x * x) + r4 * (x * x * x * x),
    ;
    let y: int = -1;
    lemma_product_expansion(a0, a1, a2, b0, b1, b2, y);
    assert((a0 - a1 + a2) * (b0 - b1 + b2) == r0 - r1 + r2 - r3 + r4) by (nonlinear_arith)
        requires
            y == -1,
            (a0 + a1 * y + a2 * (y * y)) * (b0 + b1 * y + b2 * (y * y)) == r0 + r1 * y + r2 * (y
                * y) + r3 * (y * y * y) + r4 * (y * y * y * y),
    ;
    let z: int = -2;
    lemma_product_expansion(a0, a1, a2, b0, b1, b2, z);
    assert((a0 - 2 * a1 + 4 * a2) * (b0 - 2 * b1 + 4 * b2) == r0 - 2 * r1 + 4 * r2 - 8 * r3 + 16
        * r4) by (nonlinear_arith)
        requires
            z == -2,
            (a0 + a1 * z + a2 * (z * z)) * (b0 + b1 * z + b2 * (z * z)) == r0 + r1 * z + r2 * (z
                * z) + r3 * (z * z * z) + r4 * (z * z * z * z),
    ;
}

/// The operand with the parts `low`, `mid` and `high`, each below
/// `X = BASE^k`, evaluated at 1, -1 and -2.
fn evaluate(low: &BigInt, mid: &BigInt, high: &BigInt, Ghost(k): Ghost<nat>) -> (r: (
    BigInt,
    BigInt,
    BigInt,
))
    requires
        low.wf(),
        mid.wf(),
        high.wf(),
        0 <= low@ < base_pow(k),
        0 <= mid@ < base_pow(k),
        0 <= high@ < base_pow(k),
    ensures
        r.0.wf(),
        r.1.wf(),
        r.2.wf(),
        r.0@ == low@ + mid@ + high@,
        r.1@ == low@ - mid@ + high@,
        r.2@ == low@ - 2 * mid@ + 4 * high@,
        r.0.limbs().len() <= k + 1,
        r.1.limbs().len() <= k + 1,
        r.2.limbs().len() <= k + 1,
{
    let outer = low.plus(high);
    let at_1 = outer.plus(mid);
    let at_m1 = outer.minus(mid);
    let half = at_m1.plus(high);
    let at_m2 = half.plus(&half).minus(low);
    proof {
        lemma_evaluation_is_short(at_1, k);
        lemma_evaluation_is_short(at_m1, k);
        lemma_evaluation_is_short(at_m2, k);
    }
    (at_1, at_m1, at_m2)
}

/// The product polynomial with the coefficients `c`, at `X = BASE^k`,
/// from its values at 0, 1, -1, -2 and infinity.
fn interpolate(
    v0: &BigInt,
    v1: &BigInt,
    vm1: &BigInt,
    vm2: &BigInt,
    vinf: &BigInt,
    k: usize,
    Ghost(c): Ghost<(int, int, int, int, int)>,
) -> (r: BigInt)
    requires
        v0.wf(),
        v1.wf(),
        vm1.wf(),
        vm2.wf(),
        vinf.wf(),
        v0@ == c.0,
        v1@ == c.0 + c.1 + c.2 + c.3 + c.4,
        vm1@ == c.0 - c.1 + c.2 - c.3 + c.4,
        vm2@ == c.0 - 2 * c.1 + 4 * c.2 - 8 * c.3 + 16 * c.4,
        vinf@ == c.4,
    ensures
        r.wf(),
        ({
            let x = base_pow(k as nat);
            r@ == c.0 + c.1 * x + c.2 * (x * x) + c.3 * (x * x * x) + c.4 * (x * x * x * x)
        }),
{
    let t3 = vm2.minus(v1).div_by_three();
    let t1 = v1.minus(vm1).div_by_two();
    let t2 = vm1.minus(v0);
    proof {
        lemma_exact_quotient(vm2@ - v1@, 3, -c.1 + c.2 - 3 * c.3 + 5 * c.4);
        lemma_exact_quotient(v1@ - vm1@, 2, c.1 + c.3);
        lemma_exact_quotient(t2@ - t3@, 2, c.3 - 2 * c.4);
    }
    let c3 = t2.minus(&t3).div_by_two().plus(&vinf.plus(vinf));
    let c2 = t2.plus(&t1).minus(vinf);
    let c1 = t1.minus(&c3);
    proof {
        lemma_horner(c.0, c.1, c.2, c.3, c.4, base_pow(k as nat));
    }
    let s3 = vinf.shift_left(k).plus(&c3);
    let s2 = s3.shift_left(k).plus(&c2);
    let s1 = s2.shift_left(k).plus(&c1);
    s1.shift_left(k).plus(v0)
}

/// Dividing the magnitude of `d * q` by `d` and putting the sign back
/// gives `q`.
proof fn lemma_exact_quotient(v: int, d: int, q: int)
    requires
        d > 0,
        v == d * q,
    ensures
        v >= 0 ==> v / d == q,
        v < 0 ==> -((-v) / d) == q,
{
    if v >= 0 {
        vstd::arithmetic::div_mod::lemma_fundamental_div_mod_converse(v, d, q, 0);
    } else {
        assert(-v == d * (-q)) by (nonlinear_arith)
            requires
                v == d * q,
        ;
        vstd::arithmetic::div_mod::lemma_fundamental_div_mod_converse(-v, d, -q, 0);
    }
}

/// The product of two magnitudes, as a number.
///
/// Where one operand has no more than `TOOM_THRESHOLD` limbs, the
/// schoolbook method is used. Otherwise each operand is cut in three parts
/// of `k` limbs, `k` a third of the longer length and one more, and the
/// product is put together from five products of numbers of about `k`
/// limbs.
pub fn toom3_mul(lhs: &Vec<u32>, rhs: &Vec<u32>) -> (r: BigInt)
    requires
        limbs_canonical(lhs@),
        limbs_canonical(rhs@),
    ensures
        r.wf(),
        r@ == limbs_value(lhs@) * limbs_value(rhs@),
    decreases
            (if lhs@.len() >= rhs@.len() {
                lhs@.len()
            } else {
                rhs@.len()
            }),
{
    let la = lhs.len();
    let lb = rhs.len();
    let shorter = if la < lb {
        la
    } else {
        lb
    };
    if shorter <= TOOM_THRESHOLD {
        return BigInt::from_canonical(magnitude_mul(lhs, rhs), true);
    }
    let n = if la > lb {
        la
    } else {
        lb
    };
    let k = n / 3 + 1;
    let a0 = part(lhs, 0, k);
    let a1 = part(lhs, k, 2 * k);
    let a2 = part(lhs, 2 * k, if la > 2 * k {
        la
    } else {
        2 * k
    });
    let b0 = part(rhs, 0, k);
    let b1 = part(rhs, k, 2 * k);
    let b2 = part(rhs, 2 * k, if lb > 2 * k {
        lb
    } else {
        2 * k
    });
    let ghost c = product_coefficients(a0@, a1@, a2@, b0@, b1@, b2@);
    proof {
        lemma_three_parts(lhs@, k as int);
        lemma_three_parts(rhs@, k as int);
        assert(part_of(lhs@, 2 * k, if la > 2 * k {
            la as int
        } else {
            2 * k
        }) =~= part_of(lhs@, 2 * k, 3 * k));
        assert(part_of(rhs@, 2 * k, if lb > 2 * k {
            lb as int
        } else {
            2 * k
        }) =~= part_of(rhs@, 2 * k, 3 * k));
        lemma_products_at_points(a0@, a1@, a2@, b0@, b1@, b2@);
        lemma_product_expansion(a0@, a1@, a2@, b0@, b1@, b2@, base_pow(k as nat));
    }
    let (pa1, pam1, pam2) = evaluate(&a0, &a1, &a2, Ghost(k as nat));
    let (pb1, pbm1, pbm2) = evaluate(&b0, &b1, &b2, Ghost(k as nat));
    let v0 = toom3_mul(a0.digits(), b0.digits());
    let v1 = signed_as_product(toom3_mul(pa1.digits(), pb1.digits()), &pa1, &pb1);
    let vm1 = signed_as_product(toom3_mul(pam1.digits(), pbm1.digits()), &pam1, &pbm1);
    let vm2 = signed_as_product(toom3_mul(pam2.digits(), pbm2.digits()), &pam2, &pbm2);
    let vinf = toom3_mul(a2.digits(), b2.digits());
    interpolate(&v0, &v1, &vm1, &vm2, &vinf, k, Ghost(c))
}

impl BigInt {
    /// `self * rhs`, by splitting in three where both operands are long.
    pub fn times_toom3(&self, rhs: &BigInt) -> (r: BigInt)
        requires
            self.wf(),
            rhs.wf(),
        ensures
            r.wf(),
            r@ == self@ * rhs@,
    {
        signed_as_product(toom3_mul(self.digits(), rhs.digits()), self, rhs)
    }
}

} // verus!
