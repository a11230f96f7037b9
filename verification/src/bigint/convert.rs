//! Conversions between numbers and the machine's integer types.

use super::limbs::{
    base_pow, lemma_base_pow_positive, lemma_base_pow_succ, lemma_value_concat, lemma_value_push,
    lemma_value_single, limbs_value, BASE,
};
use super::number::BigInt;
use super::text::BigIntError;
use vstd::prelude::*;

verus! {

/// The limbs of `v`, least-significant first.
pub fn limbs_of_u128(v: u128) -> (res: Vec<u32>)
    ensures
        limbs_value(res@) == v,
{
    let mut res: Vec<u32> = Vec::new();
    let mut rest: u128 = v;
    proof {
        lemma_base_pow_succ(0);
    }
    while rest > 0
        invariant
            limbs_value(res@) + rest * base_pow(res.len() as nat) == v,
        decreases rest,
    {
        let digit: u32 = (rest % (BASE as u128)) as u32;
        proof {
            lemma_value_push(res@, digit);
            lemma_base_pow_succ(res.len() as nat);
            lemma_split_step(base_pow(res.len() as nat), rest as int, digit as int);
        }
        res.push(digit);
        rest = rest / (BASE as u128);
    }
    proof {
        assert(0 * base_pow(res.len() as nat) == 0);
    }
    res
}

/// Taking the lowest limb `d` off `x` at the position worth `p`.
proof fn lemma_split_step(p: int, x: int, d: int)
    requires
        d == x % (BASE as int),
    ensures
        d * p + (x / (BASE as int)) * (p * BASE) == x * p,
{
    let q = x / (BASE as int);
    assert(x == q * BASE + d);
    assert(d * p + q * (p * BASE) == (q * BASE + d) * p) by (nonlinear_arith);
}

/// What the limbs are worth, where that fits a `u128`.
pub fn limbs_to_u128(limbs: &Vec<u32>) -> (r: Option<u128>)
    ensures
        match r {
            Some(v) => v == limbs_value(limbs@),
            None => limbs_value(limbs@) > u128::MAX,
        },
{
    let n = limbs.len();
    let mut acc: u128 = 0;
    let mut i: usize = n;
    proof {
        assert(limbs@.subrange(n as int, n as int) =~= Seq::<u32>::empty());
    }
    while i > 0
        invariant
            i <= n,
            n == limbs.len(),
            acc == limbs_value(limbs@.subrange(i as int, n as int)),
        decreases i,
    {
        i -= 1;
        let limb: u128 = limbs[i] as u128;
        proof {
            let high = limbs@.subrange(i + 1, n as int);
            assert(limbs@.subrange(i as int, n as int) =~= seq![limbs@[i as int]] + high);
            lemma_value_concat(seq![limbs@[i as int]], high);
            lemma_value_single(limbs@[i as int]);
            lemma_base_pow_succ(0);
            lemma_upper_part_bound(limbs@, i as int);
            assert(seq![limbs@[i as int]].len() == 1);
            assert(limbs_value(limbs@.subrange(i as int, n as int)) == limb + acc * BASE);
            lemma_fits(acc as int, limb as int, u128::MAX as int);
        }
        if acc > (u128::MAX - limb) / (BASE as u128) {
            return None;
        }
        acc = acc * (BASE as u128) + limb;
    }
    proof {
        assert(limbs@.subrange(0, n as int) =~= limbs@);
    }
    Some(acc)
}

/// `acc * BASE + limb` stays within `max` just where `acc` is within
/// `(max - limb) / BASE`.
proof fn lemma_fits(acc: int, limb: int, max: int)
    requires
        0 <= acc,
        0 <= limb <= max,
    ensures
        acc <= (max - limb) / (BASE as int) <==> acc * BASE + limb <= max,
{
}

/// The limbs from position `k` upwards are worth no more than all of them.
pub proof fn lemma_upper_part_bound(s: Seq<u32>, k: int)
    requires
        0 <= k <= s.len(),
    ensures
        0 <= limbs_value(s.subrange(k, s.len() as int)) <= limbs_value(s),
{
    let low = s.take(k);
    let high = s.subrange(k, s.len() as int);
    assert(s =~= low + high);
    lemma_value_concat(low, high);
    lemma_value_nonnegative(low);
    lemma_value_nonnegative(high);
    lemma_base_pow_positive(k as nat);
    let h = limbs_value(high);
    let p = base_pow(k as nat);
    assert(h * p >= h) by (nonlinear_arith)
        requires
            h >= 0,
            p >= 1,
    ;
}

/// Limbs are never worth less than zero.
pub proof fn lemma_value_nonnegative(s: Seq<u32>)
    ensures
        limbs_value(s) >= 0,
    decreases s.len(),
{
    if s.len() > 0 {
        lemma_value_nonnegative(s.drop_last());
        lemma_base_pow_positive((s.len() - 1) as nat);
        let d = s.last() as int;
        let p = base_pow((s.len() - 1) as nat);
        assert(d * p >= 0) by (nonlinear_arith)
            requires
                d >= 0,
                p >= 0,
        ;
    }
}

impl BigInt {
    /// The number `v`.
    pub fn from_u128(v: u128) -> (r: BigInt)
        ensures
            r.wf(),
            r@ == v,
    {
        BigInt::new(limbs_of_u128(v), true)
    }

    /// The number `v`.
    pub fn from_i128(v: i128) -> (r: BigInt)
        ensures
            r.wf(),
            r@ == v,
    {
        if v >= 0 {
            BigInt::new(limbs_of_u128(v as u128), true)
        } else {
            let magnitude: u128 = (-(v + 1)) as u128 + 1;
            BigInt::new(limbs_of_u128(magnitude), false)
        }
    }

    /// The number as a `u128`, where it is one.
    pub fn to_u128(&self) -> (r: Result<u128, BigIntError>)
        ensures
            match r {
                Ok(v) => v == self@,
                Err(e) => e == BigIntError::OutOfRange && !(0 <= self@ <= u128::MAX),
            },
    {
        proof {
            lemma_value_nonnegative(self.limbs());
        }
        match limbs_to_u128(self.digits()) {
            Some(v) => {
                if self.is_positive() || v == 0 {
                    Ok(v)
                } else {
                    Err(BigIntError::OutOfRange)
                }
            },
            None => Err(BigIntError::OutOfRange),
        }
    }

    /// The number as an `i128`, where it is one.
    pub fn to_i128(&self) -> (r: Result<i128, BigIntError>)
        ensures
            match r {
                Ok(v) => v == self@,
                Err(e) => e == BigIntError::OutOfRange && !(i128::MIN <= self@ <= i128::MAX),
            },
    {
        proof {
            lemma_value_nonnegative(self.limbs());
        }
        match limbs_to_u128(self.digits()) {
            Some(v) => {
                if self.is_positive() {
                    if v <= i128::MAX as u128 {
                        Ok(v as i128)
                    } else {
                        Err(BigIntError::OutOfRange)
                    }
                } else if v <= i128::MAX as u128 {
                    Ok(-(v as i128))
                } else if v == i128::MAX as u128 + 1 {
                    Ok(i128::MIN)
                } else {
                    Err(BigIntError::OutOfRange)
                }
            },
            None => Err(BigIntError::OutOfRange),
        }
    }

    /// The number as a `u8`, where it is one.
    pub fn to_u8(&self) -> (r: Result<u8, BigIntError>)
        ensures
            match r {
                Ok(v) => v == self@,
                Err(e) => e == BigIntError::OutOfRange && !(0 <= self@ <= u8::MAX),
            },
    {
        match self.to_u128() {
            Ok(v) => {
                if v <= u8::MAX as u128 {
                    Ok(v as u8)
                } else {
                    Err(BigIntError::OutOfRange)
                }
            },
            Err(e) => Err(e),
        }
    }

    /// The number as a `u16`, where it is one.
    pub fn to_u16(&self) -> (r: Result<u16, BigIntError>)
        ensures
            match r {
                Ok(v) => v == self@,
                Err(e) => e == BigIntError::OutOfRange && !(0 <= self@ <= u16::MAX),
            },
    {
        match self.to_u128() {
            Ok(v) => {
                if v <= u16::MAX as u128 {
                    Ok(v as u16)
                } else {
                    Err(BigIntError::OutOfRange)
                }
            },
            Err(e) => Err(e),
        }
    }

    /// The number as a `u32`, where it is one.
    pub fn to_u32(&self) -> (r: Result<u32, BigIntError>)
        ensures
            match r {
                Ok(v) => v == self@,
                Err(e) => e == BigIntError::OutOfRange && !(0 <= self@ <= u32::MAX),
            },
    {
        match self.to_u128() {
            Ok(v) => {
                if v <= u32::MAX as u128 {
                    Ok(v as u32)
                } else {
                    Err(BigIntError::OutOfRange)
                }
            },
            Err(e) => Err(e),
        }
    }

    /// The number as a `u64`, where it is one.
    pub fn to_u64(&self) -> (r: Result<u64, BigIntError>)
        ensures
            match r {
                Ok(v) => v == self@,
                Err(e) => e == BigIntError::OutOfRange && !(0 <= self@ <= u64::MAX),
            },
    {
        match self.to_u128() {
            Ok(v) => {
                if v <= u64::MAX as u128 {
                    Ok(v as u64)
                } else {
                    Err(BigIntError::OutOfRange)
                }
            },
            Err(e) => Err(e),
        }
    }

    /// The number as a `usize`, where it is one.
    pub fn to_usize(&self) -> (r: Result<usize, BigIntError>)
        ensures
            match r {
                Ok(v) => v == self@,
                Err(e) => e == BigIntError::OutOfRange && !(0 <= self@ <= usize::MAX),
            },
    {
        match self.to_u128() {
            Ok(v) => {
                if v <= usize::MAX as u128 {
                    Ok(v as usize)
                } else {
                    Err(BigIntError::OutOfRange)
                }
            },
            Err(e) => Err(e),
        }
    }

    /// The number as an `i8`, where it is one.
    pub fn to_i8(&self) -> (r: Result<i8, BigIntError>)
        ensures
            match r {
                Ok(v) => v == self@,
                Err(e) => e == BigIntError::OutOfRange && !(i8::MIN <= self@ <= i8::MAX),
            },
    {
        match self.to_i128() {
            Ok(v) => {
                if i8::MIN as i128 <= v && v <= i8::MAX as i128 {
                    Ok(v as i8)
                } else {
                    Err(BigIntError::OutOfRange)
                }
            },
            Err(e) => Err(e),
        }
    }

    /// The number as an `i16`, where it is one.
    pub fn to_i16(&self) -> (r: Result<i16, BigIntError>)
        ensures
            match r {
                Ok(v) => v == self@,
                Err(e) => e == BigIntError::OutOfRange && !(i16::MIN <= self@ <= i16::MAX),
            },
    {
        match self.to_i128() {
            Ok(v) => {
                if i16::MIN as i128 <= v && v <= i16::MAX as i128 {
                    Ok(v as i16)
                } else {
                    Err(BigIntError::OutOfRange)
                }
            },
            Err(e) => Err(e),
        }
    }

    /// The number as an `i32`, where it is one.
    pub fn to_i32(&self) -> (r: Result<i32, BigIntError>)
        ensures
            match r {
                Ok(v) => v == self@,
                Err(e) => e == BigIntError::OutOfRange && !(i32::MIN <= self@ <= i32::MAX),
            },
    {
        match self.to_i128() {
            Ok(v) => {
                if i32::MIN as i128 <= v && v <= i32::MAX as i128 {
                    Ok(v as i32)
                } else {
                    Err(BigIntError::OutOfRange)
                }
            },
            Err(e) => Err(e),
        }
    }

    /// The number as an `i64`, where it is one.
    pub fn to_i64(&self) -> (r: Result<i64, BigIntError>)
        ensures
            match r {
                Ok(v) => v == self@,
                Err(e) => e == BigIntError::OutOfRange && !(i64::MIN <= self@ <= i64::MAX),
            },
    {
        match self.to_i128() {
            Ok(v) => {
                if i64::MIN as i128 <= v && v <= i64::MAX as i128 {
                    Ok(v as i64)
                } else {
                    Err(BigIntError::OutOfRange)
                }
            },
            Err(e) => Err(e),
        }
    }

    /// The number as an `isize`, where it is one.
    pub fn to_isize(&self) -> (r: Result<isize, BigIntError>)
        ensures
            match r {
                Ok(v) => v == self@,
                Err(e) => e == BigIntError::OutOfRange && !(isize::MIN <= self@ <= isize::MAX),
            },
    {
        match self.to_i128() {
            Ok(v) => {
                if isize::MIN as i128 <= v && v <= isize::MAX as i128 {
                    Ok(v as isize)
                } else {
                    Err(BigIntError::OutOfRange)
                }
            },
            Err(e) => Err(e),
        }
    }
}

/// What narrowing the integer `n` to a machine type with the bounds `min`
/// and `max` gives: the integer itself where it lies within them.
pub open spec fn narrowed(n: int, min: int, max: int) -> Result<int, BigIntError> {
    if min <= n <= max {
        Ok(n)
    } else {
        Err(BigIntError::OutOfRange)
    }
}

} // verus!
