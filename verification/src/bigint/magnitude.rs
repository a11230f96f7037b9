//! Arithmetic on magnitudes: sequences of limbs taken without a sign.

use super::limbs::{
    base_pow, lemma_base_pow_adds, lemma_base_pow_succ, lemma_canonical_unique,
    lemma_longer_is_larger, lemma_trim, lemma_value_bounds, lemma_value_concat,
    lemma_value_push, lemma_value_single, lemma_value_take_step, lemma_value_update,
    lemma_value_zeros, limbs_canonical, limbs_in_range, limbs_value, trim, BASE,
};
use vstd::prelude::*;

verus! {

/// Removes the most-significant zero limbs, leaving at least one limb.
pub fn trim_end_zeros(v: &mut Vec<u32>)
    ensures
        final(v)@ == trim(old(v)@),
{
    if v.len() == 0 {
        v.push(0);
        return ;
    }
    while v.len() > 1 && v[v.len() - 1] == 0
        invariant
            v.len() >= 1,
            trim(v@) == trim(old(v)@),
        decreases v.len(),
    {
        let ghost before = v@;
        v.pop();
        assert(v@ =~= before.drop_last());
    }
}

/// The canonical magnitude worth what `limbs` is worth, whatever the size
/// of its limbs: each limb is reduced modulo `BASE` and the quotient carried
/// to the next one. Limbs that are in range are only trimmed.
pub fn normalize_limbs(limbs: &Vec<u32>) -> (res: Vec<u32>)
    ensures
        limbs_canonical(res@),
        limbs_value(res@) == limbs_value(limbs@),
        limbs_in_range(limbs@) ==> res@ == trim(limbs@),
{
    let n = limbs.len();
    let mut res: Vec<u32> = Vec::new();
    let mut carry: u32 = 0;
    let mut i: usize = 0;
    proof {
        assert(limbs@.take(0) =~= Seq::<u32>::empty());
        lemma_base_pow_succ(0);
    }
    while i < n
        invariant
            i <= n,
            n == limbs.len(),
            limbs_in_range(res@),
            res.len() == i,
            carry <= 4,
            limbs_value(res@) + carry * base_pow(i as nat) == limbs_value(limbs@.take(i as int)),
        decreases n - i,
    {
        let a: u64 = limbs[i] as u64 + carry as u64;
        let digit: u32 = (a % (BASE as u64)) as u32;
        let next: u32 = (a / (BASE as u64)) as u32;
        proof {
            lemma_value_take_step(limbs@, i as int);
            lemma_value_push(res@, digit);
            lemma_base_pow_succ(i as nat);
            lemma_carry_step(
                base_pow(i as nat),
                limbs[i as int] as int,
                0,
                carry as int,
                digit as int,
                next as int,
            );
        }
        res.push(digit);
        carry = next;
        i += 1;
    }
    proof {
        assert(limbs@.take(n as int) =~= limbs@);
        lemma_value_push(res@, carry);
        lemma_trim(res@.push(carry));
        if limbs_in_range(limbs@) {
            lemma_trim(limbs@);
            lemma_canonical_unique(trim(res@.push(carry)), trim(limbs@));
        }
    }
    res.push(carry);
    trim_end_zeros(&mut res);
    res
}

/// The highest position at which two magnitudes of one length differ.
pub fn top_difference(lhs: &Vec<u32>, rhs: &Vec<u32>) -> (r: Option<usize>)
    requires
        lhs.len() == rhs.len(),
    ensures
        match r {
            Some(k) => k < lhs.len() && lhs@[k as int] != rhs@[k as int] && forall|j: int|
                k < j < lhs.len() ==> lhs@[j] == rhs@[j],
            None => lhs@ == rhs@,
        },
{
    let mut i: usize = lhs.len();
    while i > 0
        invariant
            i <= lhs.len(),
            lhs.len() == rhs.len(),
            forall|j: int| i <= j < lhs.len() ==> lhs@[j] == rhs@[j],
        decreases i,
    {
        i -= 1;
        if lhs[i] != rhs[i] {
            return Some(i);
        }
    }
    assert(lhs@ =~= rhs@);
    None
}

/// The sum of two magnitudes.
///
/// Walks the limbs of the shorter operand adding with carry, carries on
/// through the rest of the longer one, and appends the last carry.
pub fn magnitude_add(lhs: &Vec<u32>, rhs: &Vec<u32>) -> (res: Vec<u32>)
    requires
        limbs_in_range(lhs@),
        limbs_in_range(rhs@),
    ensures
        limbs_canonical(res@),
        limbs_value(res@) == limbs_value(lhs@) + limbs_value(rhs@),
{
    let (short, long) = if lhs.len() > rhs.len() {
        (rhs, lhs)
    } else {
        (lhs, rhs)
    };
    let min = short.len();
    let max = long.len();
    let mut res: Vec<u32> = Vec::new();
    let mut carry: u32 = 0;
    let mut i: usize = 0;
    proof {
        assert(short@.take(0) =~= Seq::<u32>::empty());
        assert(long@.take(0) =~= Seq::<u32>::empty());
        lemma_base_pow_succ(0);
    }
    while i < min
        invariant
            i <= min,
            min == short.len(),
            min <= long.len(),
            limbs_in_range(short@),
            limbs_in_range(long@),
            limbs_in_range(res@),
            res.len() == i,
            carry <= 1,
            limbs_value(res@) + carry * base_pow(i as nat) == limbs_value(short@.take(i as int))
                + limbs_value(long@.take(i as int)),
        decreases min - i,
    {
        let a: u32 = short[i] + long[i] + carry;
        let digit: u32 = a % BASE;
        let next: u32 = a / BASE;
        proof {
            lemma_value_take_step(short@, i as int);
            lemma_value_take_step(long@, i as int);
            lemma_value_push(res@, digit);
            lemma_base_pow_succ(i as nat);
            lemma_carry_step(
                base_pow(i as nat),
                short[i as int] as int,
                long[i as int] as int,
                carry as int,
                digit as int,
                next as int,
            );
        }
        res.push(digit);
        carry = next;
        i += 1;
    }
    proof {
        assert(short@.take(min as int) =~= short@);
    }
    while i < max
        invariant
            min <= i <= max,
            max == long.len(),
            limbs_in_range(long@),
            limbs_in_range(res@),
            res.len() == i,
            carry <= 1,
            limbs_value(res@) + carry * base_pow(i as nat) == limbs_value(short@) + limbs_value(
                long@.take(i as int),
            ),
        decreases max - i,
    {
        let a: u32 = long[i] + carry;
        let digit: u32 = a % BASE;
        let next: u32 = a / BASE;
        proof {
            lemma_value_take_step(long@, i as int);
            lemma_value_push(res@, digit);
            lemma_base_pow_succ(i as nat);
            lemma_carry_step(
                base_pow(i as nat),
                long[i as int] as int,
                0,
                carry as int,
                digit as int,
                next as int,
            );
        }
        res.push(digit);
        carry = next;
        i += 1;
    }
    proof {
        assert(long@.take(max as int) =~= long@);
        lemma_value_push(res@, carry);
        lemma_trim(res@.push(carry));
    }
    res.push(carry);
    trim_end_zeros(&mut res);
    res
}

/// One step of carry propagation at the position worth `p`: the limbs `x`
/// and `y` with incoming carry `c`, split into digit `d` and outgoing carry `n`.
proof fn lemma_carry_step(p: int, x: int, y: int, c: int, d: int, n: int)
    requires
        d + n * BASE == x + y + c,
    ensures
        d * p + n * (p * BASE) == x * p + y * p + c * p,
{
    assert(d * p + n * (p * BASE) == (d + n * BASE) * p) by (nonlinear_arith);
    assert((x + y + c) * p == x * p + y * p + c * p) by (nonlinear_arith);
}

/// The difference of two magnitudes, the first being no smaller than the second.
///
/// Walks the limbs from the least significant one, taking `BASE` from the
/// next limb whenever a limb of `lhs` is too small.
pub fn magnitude_sub(lhs: &Vec<u32>, rhs: &Vec<u32>) -> (res: Vec<u32>)
    requires
        limbs_canonical(lhs@),
        limbs_canonical(rhs@),
        limbs_value(lhs@) >= limbs_value(rhs@),
    ensures
        limbs_canonical(res@),
        limbs_value(res@) == limbs_value(lhs@) - limbs_value(rhs@),
{
    proof {
        if rhs.len() > lhs.len() {
            lemma_longer_is_larger(rhs@, lhs@);
        }
    }
    let min = rhs.len();
    let max = lhs.len();
    let mut res: Vec<u32> = Vec::new();
    let mut borrow: u32 = 0;
    let mut i: usize = 0;
    proof {
        assert(lhs@.take(0) =~= Seq::<u32>::empty());
        assert(rhs@.take(0) =~= Seq::<u32>::empty());
        lemma_base_pow_succ(0);
    }
    while i < max
        invariant
            i <= max,
            max == lhs.len(),
            min == rhs.len(),
            min <= max,
            limbs_in_range(lhs@),
            limbs_in_range(rhs@),
            limbs_in_range(res@),
            res.len() == i,
            borrow <= 1,
            limbs_value(res@) - borrow * base_pow(i as nat) == limbs_value(lhs@.take(i as int))
                - limbs_value(rhs@.take(if i <= min { i as int } else { min as int })),
        decreases max - i,
    {
        let l: u32 = lhs[i];
        let r: u32 = if i < min { rhs[i] } else { 0 };
        let take: u32 = r + borrow;
        let digit: u32 = if l < take { BASE - take + l } else { l - take };
        let next: u32 = if l < take { 1 } else { 0 };
        proof {
            lemma_value_take_step(lhs@, i as int);
            if i < min {
                lemma_value_take_step(rhs@, i as int);
            } else {
                assert(0 * base_pow(i as nat) == 0);
            }
            lemma_value_push(res@, digit);
            lemma_base_pow_succ(i as nat);
            lemma_borrow_step(
                base_pow(i as nat),
                l as int,
                r as int,
                borrow as int,
                digit as int,
                next as int,
            );
        }
        res.push(digit);
        borrow = next;
        i += 1;
    }
    proof {
        assert(lhs@.take(max as int) =~= lhs@);
        assert(rhs@.take(min as int) =~= rhs@);
        lemma_value_bounds(res@);
        assert(1 * base_pow(max as nat) == base_pow(max as nat));
        assert(0 * base_pow(max as nat) == 0);
        lemma_trim(res@);
    }
    trim_end_zeros(&mut res);
    res
}

/// One step of borrow propagation at the position worth `p`: the limb `x`
/// less the limb `y` and the incoming borrow `c`, written as digit `d` with
/// outgoing borrow `n`.
proof fn lemma_borrow_step(p: int, x: int, y: int, c: int, d: int, n: int)
    requires
        d - n * BASE == x - y - c,
    ensures
        d * p - n * (p * BASE) == x * p - y * p - c * p,
{
    assert(d * p - n * (p * BASE) == (d - n * BASE) * p) by (nonlinear_arith);
    assert((x - y - c) * p == x * p - y * p - c * p) by (nonlinear_arith);
}

/// The product of two magnitudes, by the schoolbook method.
///
/// For every pair of limbs the product, the limb already at the target
/// position and the carry are summed in a `u64`; the sum modulo `BASE` stays
/// at the position and the quotient is carried to the next one.
pub fn magnitude_mul(lhs: &Vec<u32>, rhs: &Vec<u32>) -> (res: Vec<u32>)
    requires
        limbs_in_range(lhs@),
        limbs_in_range(rhs@),
    ensures
        limbs_canonical(res@),
        limbs_value(res@) == limbs_value(lhs@) * limbs_value(rhs@),
{
    let la = lhs.len();
    let lb = rhs.len();
    let mut res: Vec<u32> = zero_limbs(la, lb);
    let ghost vb = limbs_value(rhs@);
    proof {
        assert(lhs@.take(0) =~= Seq::<u32>::empty());
        lemma_value_zeros(res@);
        assert(0 * vb == 0);
    }
    let mut i: usize = 0;
    while i < la
        invariant
            i <= la,
            la == lhs.len(),
            lb == rhs.len(),
            res.len() == la + lb,
            vb == limbs_value(rhs@),
            limbs_in_range(lhs@),
            limbs_in_range(rhs@),
            limbs_in_range(res@),
            limbs_value(res@) == limbs_value(lhs@.take(i as int)) * vb,
            forall|k: int| i + lb <= k < la + lb ==> res@[k] == 0,
        decreases la - i,
    {
        let a: u32 = lhs[i];
        let mut carry: u32 = 0;
        let mut j: usize = 0;
        let ghost done = limbs_value(lhs@.take(i as int)) * vb;
        proof {
            assert(rhs@.take(0) =~= Seq::<u32>::empty());
            assert(a * 0 * base_pow(i as nat) == 0) by (nonlinear_arith);
            assert(0 * base_pow((i + 0) as nat) == 0);
        }
        while j < lb
            invariant
                j <= lb,
                i < la,
                la == lhs.len(),
                lb == rhs.len(),
                res.len() == la + lb,
                a == lhs@[i as int],
                a < BASE,
                carry < BASE,
                limbs_in_range(rhs@),
                limbs_in_range(res@),
                limbs_value(res@) + carry * base_pow((i + j) as nat) == done + a * limbs_value(
                    rhs@.take(j as int),
                ) * base_pow(i as nat),
                forall|k: int| i + lb <= k < la + lb ==> res@[k] == 0,
            decreases lb - j,
        {
            let b: u32 = rhs[j];
            let cur: u32 = res[i + j];
            proof {
                lemma_limb_product_bound(a as int, b as int);
            }
            let product: u64 = a as u64 * b as u64 + cur as u64 + carry as u64;
            let digit: u32 = (product % (BASE as u64)) as u32;
            let next: u32 = (product / (BASE as u64)) as u32;
            proof {
                lemma_value_update(res@, (i + j) as int, digit);
                lemma_value_take_step(rhs@, j as int);
                lemma_base_pow_adds(i as nat, j as nat);
                lemma_base_pow_succ((i + j) as nat);
                lemma_mul_step(
                    base_pow(i as nat),
                    base_pow(j as nat),
                    a as int,
                    b as int,
                    limbs_value(rhs@.take(j as int)),
                    cur as int,
                    carry as int,
                    digit as int,
                    next as int,
                );
            }
            res.set(i + j, digit);
            carry = next;
            j += 1;
        }
        proof {
            assert(rhs@.take(lb as int) =~= rhs@);
            assert(res@[i + lb] == 0);
            lemma_value_update(res@, (i + lb) as int, carry);
            lemma_value_take_step(lhs@, i as int);
            lemma_row_done(
                limbs_value(lhs@.take(i as int)),
                a as int,
                base_pow(i as nat),
                vb,
            );
        }
        res.set(i + lb, carry);
        i += 1;
    }
    proof {
        assert(lhs@.take(la as int) =~= lhs@);
        lemma_trim(res@);
    }
    trim_end_zeros(&mut res);
    res
}

/// A vector of `m + n` zero limbs.
fn zero_limbs(m: usize, n: usize) -> (res: Vec<u32>)
    ensures
        res.len() == m + n,
        forall|k: int| 0 <= k < res.len() ==> res@[k] == 0,
{
    let mut res: Vec<u32> = Vec::new();
    let mut i: usize = 0;
    while i < m
        invariant
            i <= m,
            res.len() == i,
            forall|k: int| 0 <= k < res.len() ==> res@[k] == 0,
        decreases m - i,
    {
        res.push(0);
        i += 1;
    }
    let mut j: usize = 0;
    while j < n
        invariant
            j <= n,
            res.len() == m + j,
            forall|k: int| 0 <= k < res.len() ==> res@[k] == 0,
        decreases n - j,
    {
        res.push(0);
        j += 1;
    }
    res
}

/// The product of two limbs, with a limb and a carry added, is below `BASE^2`.
proof fn lemma_limb_product_bound(a: int, b: int)
    requires
        0 <= a < BASE,
        0 <= b < BASE,
    ensures
        0 <= a * b <= (BASE - 1) * (BASE - 1),
        (BASE - 1) * (BASE - 1) + 2 * (BASE - 1) == BASE * BASE - 1,
        BASE * BASE - 1 < 0x1_0000_0000_0000_0000,
{
    assert(0 <= a * b <= (BASE - 1) * (BASE - 1)) by (nonlinear_arith)
        requires
            0 <= a <= BASE - 1,
            0 <= b <= BASE - 1,
    ;
}

/// One step of the inner loop of the schoolbook product, in terms of the
/// values involved: `pi` and `pj` are the worths of the positions of the two
/// limbs `a` and `b`, `vbj` the value of the limbs of the second operand
/// below `b`.
proof fn lemma_mul_step(
    pi: int,
    pj: int,
    a: int,
    b: int,
    vbj: int,
    cur: int,
    carry: int,
    digit: int,
    next: int,
)
    requires
        digit + next * BASE == a * b + cur + carry,
    ensures
        (digit - cur) * (pi * pj) + next * ((pi * pj) * BASE) == carry * (pi * pj) + a * (vbj + b
            * pj) * pi - a * vbj * pi,
{
    let p = pi * pj;
    assert((digit - cur) * p + next * (p * BASE) == (digit + next * BASE - cur) * p)
        by (nonlinear_arith);
    assert((a * b + carry) * p == carry * p + a * b * p) by (nonlinear_arith);
    assert(a * (vbj + b * pj) * pi == a * vbj * pi + a * b * (pi * pj)) by (nonlinear_arith);
}

/// Closing a row of the schoolbook product: the limbs of the first operand
/// below `a`, worth `va`, and `a` at the position worth `p`, times `vb`.
proof fn lemma_row_done(va: int, a: int, p: int, vb: int)
    ensures
        (va + a * p) * vb == va * vb + a * vb * p,
{
    assert((va + a * p) * vb == va * vb + a * vb * p) by (nonlinear_arith);
}

/// The quotient of a magnitude by a small divisor, by long division from
/// the most significant limb down: the remainder of each step is carried
/// into the next limb.
pub fn magnitude_div_small(limbs: &Vec<u32>, divisor: u32) -> (res: Vec<u32>)
    requires
        limbs_in_range(limbs@),
        divisor > 0,
    ensures
        limbs_canonical(res@),
        limbs_value(res@) == limbs_value(limbs@) / (divisor as int),
{
    let n = limbs.len();
    let mut res: Vec<u32> = zero_limbs(n, 0);
    let mut rem: u32 = 0;
    let mut i: usize = n;
    proof {
        assert(limbs@.subrange(n as int, n as int) =~= Seq::<u32>::empty());
        assert(res@.subrange(n as int, n as int) =~= Seq::<u32>::empty());
        assert(0 * divisor == 0);
    }
    while i > 0
        invariant
            i <= n,
            n == limbs.len(),
            n == res.len(),
            divisor > 0,
            rem < divisor,
            limbs_in_range(limbs@),
            limbs_in_range(res@),
            forall|k: int| 0 <= k < i ==> res@[k] == 0,
            limbs_value(res@.subrange(i as int, n as int)) * divisor + rem == limbs_value(
                limbs@.subrange(i as int, n as int),
            ),
        decreases i,
    {
        i -= 1;
        proof {
            assert(rem * BASE <= 0xFFFF_FFFF * 1_000_000_000) by (nonlinear_arith)
                requires
                    0 <= rem <= 0xFFFF_FFFF,
                    BASE == 1_000_000_000,
            ;
        }
        let cur: u64 = rem as u64 * (BASE as u64) + limbs[i] as u64;
        let q: u64 = cur / (divisor as u64);
        let r: u64 = cur % (divisor as u64);
        proof {
            let high = limbs@.subrange(i + 1, n as int);
            let quotients = res@.subrange(i + 1, n as int);
            lemma_div_step(
                divisor as int,
                rem as int,
                limbs@[i as int] as int,
                q as int,
                r as int,
                limbs_value(quotients),
            );
            assert(limbs@.subrange(i as int, n as int) =~= seq![limbs@[i as int]] + high);
            assert(res@.update(i as int, q as u32).subrange(i as int, n as int) =~= seq![q as u32]
                + quotients);
            lemma_value_concat(seq![limbs@[i as int]], high);
            lemma_value_concat(seq![q as u32], quotients);
            lemma_value_single(limbs@[i as int]);
            lemma_value_single(q as u32);
            lemma_base_pow_succ(0);
        }
        res.set(i, q as u32);
        rem = r as u32;
    }
    proof {
        assert(limbs@.subrange(0, n as int) =~= limbs@);
        assert(res@.subrange(0, n as int) =~= res@);
        vstd::arithmetic::div_mod::lemma_fundamental_div_mod_converse(
            limbs_value(limbs@),
            divisor as int,
            limbs_value(res@),
            rem as int,
        );
        lemma_trim(res@);
    }
    trim_end_zeros(&mut res);
    res
}

/// One step of long division by `d`: the remainder `rem` of the limbs above
/// and the limb `l` give the quotient limb `q` and the remainder `r`; `qs`
/// is what the quotient limbs above are worth.
proof fn lemma_div_step(d: int, rem: int, l: int, q: int, r: int, qs: int)
    requires
        d > 0,
        0 <= rem < d,
        0 <= l < BASE,
        q == (rem * BASE + l) / d,
        r == (rem * BASE + l) % d,
    ensures
        0 <= q < BASE,
        0 <= r < d,
        (q + qs * BASE) * d + r == l + (qs * d + rem) * BASE,
{
    let cur = rem * BASE + l;
    vstd::arithmetic::div_mod::lemma_fundamental_div_mod(cur, d);
    assert(cur == d * q + r);
    assert(0 <= r < d);
    assert(cur < d * BASE) by (nonlinear_arith)
        requires
            cur == rem * BASE + l,
            0 <= rem <= d - 1,
            0 <= l < BASE,
    ;
    assert(q < BASE) by (nonlinear_arith)
        requires
            d * q + r < d * BASE,
            r >= 0,
            d > 0,
    ;
    assert(q >= 0) by (nonlinear_arith)
        requires
            d * q + r >= 0,
            r < d,
            d > 0,
    ;
    assert((q + qs * BASE) * d + r == (d * q + r) + (qs * d) * BASE) by (nonlinear_arith);
    assert((qs * d + rem) * BASE == (qs * d) * BASE + rem * BASE) by (nonlinear_arith);
}

} // verus!
