//! std's conversion traits between numbers and the machine's integer
//! types, and the trait of the values that can be had as a number.

use super::convert::narrowed;
use super::limbs::{limbs_in_range, limbs_value, trim};
use super::number::BigInt;
use super::text::{text_digits, text_value, BigIntError};
use vstd::prelude::*;

verus! {

/// Values that denote an integer and can be had as a [`BigInt`].
pub trait ToBigInt: Sized {
    /// The value can be converted: always so for an integer, and for text
    /// where it holds a digit.
    spec fn convertible(self) -> bool;

    /// The integer that the value denotes.
    spec fn as_int(self) -> int;

    /// The value as a `BigInt`.
    fn to_bigint(self) -> (r: BigInt)
        requires
            self.convertible(),
        ensures
            r.wf(),
            r@ == self.as_int(),
    ;
}

impl ToBigInt for u8 {
    open spec fn convertible(self) -> bool {
        true
    }

    open spec fn as_int(self) -> int {
        self as int
    }

    fn to_bigint(self) -> (r: BigInt) {
        BigInt::from_u128(self as u128)
    }
}

impl From<u8> for BigInt {
    fn from(v: u8) -> (r: BigInt)
        ensures
            r.wf(),
            r@ == v,
    {
        BigInt::from_u128(v as u128)
    }
}

impl vstd::std_specs::convert::FromSpecImpl<u8> for BigInt {
    /// The contract of `from` fixes the number as an integer; no equation
    /// between values of the type is claimed.
    open spec fn obeys_from_spec() -> bool {
        false
    }

    open spec fn from_spec(v: u8) -> BigInt {
        arbitrary()
    }
}

impl ToBigInt for u16 {
    open spec fn convertible(self) -> bool {
        true
    }

    open spec fn as_int(self) -> int {
        self as int
    }

    fn to_bigint(self) -> (r: BigInt) {
        BigInt::from_u128(self as u128)
    }
}

impl From<u16> for BigInt {
    fn from(v: u16) -> (r: BigInt)
        ensures
            r.wf(),
            r@ == v,
    {
        BigInt::from_u128(v as u128)
    }
}

impl vstd::std_specs::convert::FromSpecImpl<u16> for BigInt {
    /// The contract of `from` fixes the number as an integer; no equation
    /// between values of the type is claimed.
    open spec fn obeys_from_spec() -> bool {
        false
    }

    open spec fn from_spec(v: u16) -> BigInt {
        arbitrary()
    }
}

impl ToBigInt for u32 {
    open spec fn convertible(self) -> bool {
        true
    }

    open spec fn as_int(self) -> int {
        self as int
    }

    fn to_bigint(self) -> (r: BigInt) {
        BigInt::from_u128(self as u128)
    }
}

impl From<u32> for BigInt {
    fn from(v: u32) -> (r: BigInt)
        ensures
            r.wf(),
            r@ == v,
    {
        BigInt::from_u128(v as u128)
    }
}

impl vstd::std_specs::convert::FromSpecImpl<u32> for BigInt {
    /// The contract of `from` fixes the number as an integer; no equation
    /// between values of the type is claimed.
    open spec fn obeys_from_spec() -> bool {
        false
    }

    open spec fn from_spec(v: u32) -> BigInt {
        arbitrary()
    }
}

impl ToBigInt for u64 {
    open spec fn convertible(self) -> bool {
        true
    }

    open spec fn as_int(self) -> int {
        self as int
    }

    fn to_bigint(self) -> (r: BigInt) {
        BigInt::from_u128(self as u128)
    }
}

impl From<u64> for BigInt {
    fn from(v: u64) -> (r: BigInt)
        ensures
            r.wf(),
            r@ == v,
    {
        BigInt::from_u128(v as u128)
    }
}

impl vstd::std_specs::convert::FromSpecImpl<u64> for BigInt {
    /// The contract of `from` fixes the number as an integer; no equation
    /// between values of the type is claimed.
    open spec fn obeys_from_spec() -> bool {
        false
    }

    open spec fn from_spec(v: u64) -> BigInt {
        arbitrary()
    }
}

impl ToBigInt for u128 {
    open spec fn convertible(self) -> bool {
        true
    }

    open spec fn as_int(self) -> int {
        self as int
    }

    fn to_bigint(self) -> (r: BigInt) {
        BigInt::from_u128(self)
    }
}

impl From<u128> for BigInt {
    fn from(v: u128) -> (r: BigInt)
        ensures
            r.wf(),
            r@ == v,
    {
        BigInt::from_u128(v)
    }
}

impl vstd::std_specs::convert::FromSpecImpl<u128> for BigInt {
    /// The contract of `from` fixes the number as an integer; no equation
    /// between values of the type is claimed.
    open spec fn obeys_from_spec() -> bool {
        false
    }

    open spec fn from_spec(v: u128) -> BigInt {
        arbitrary()
    }
}

impl ToBigInt for usize {
    open spec fn convertible(self) -> bool {
        true
    }

    open spec fn as_int(self) -> int {
        self as int
    }

    fn to_bigint(self) -> (r: BigInt) {
        BigInt::from_u128(self as u128)
    }
}

impl From<usize> for BigInt {
    fn from(v: usize) -> (r: BigInt)
        ensures
            r.wf(),
            r@ == v,
    {
        BigInt::from_u128(v as u128)
    }
}

impl vstd::std_specs::convert::FromSpecImpl<usize> for BigInt {
    /// The contract of `from` fixes the number as an integer; no equation
    /// between values of the type is claimed.
    open spec fn obeys_from_spec() -> bool {
        false
    }

    open spec fn from_spec(v: usize) -> BigInt {
        arbitrary()
    }
}

impl ToBigInt for i8 {
    open spec fn convertible(self) -> bool {
        true
    }

    open spec fn as_int(self) -> int {
        self as int
    }

    fn to_bigint(self) -> (r: BigInt) {
        BigInt::from_i128(self as i128)
    }
}

impl From<i8> for BigInt {
    fn from(v: i8) -> (r: BigInt)
        ensures
            r.wf(),
            r@ == v,
    {
        BigInt::from_i128(v as i128)
    }
}

impl vstd::std_specs::convert::FromSpecImpl<i8> for BigInt {
    /// The contract of `from` fixes the number as an integer; no equation
    /// between values of the type is claimed.
    open spec fn obeys_from_spec() -> bool {
        false
    }

    open spec fn from_spec(v: i8) -> BigInt {
        arbitrary()
    }
}

impl ToBigInt for i16 {
    open spec fn convertible(self) -> bool {
        true
    }

    open spec fn as_int(self) -> int {
        self as int
    }

    fn to_bigint(self) -> (r: BigInt) {
        BigInt::from_i128(self as i128)
    }
}

impl From<i16> for BigInt {
    fn from(v: i16) -> (r: BigInt)
        ensures
            r.wf(),
            r@ == v,
    {
        BigInt::from_i128(v as i128)
    }
}

impl vstd::std_specs::convert::FromSpecImpl<i16> for BigInt {
    /// The contract of `from` fixes the number as an integer; no equation
    /// between values of the type is claimed.
    open spec fn obeys_from_spec() -> bool {
        false
    }

    open spec fn from_spec(v: i16) -> BigInt {
        arbitrary()
    }
}

impl ToBigInt for i32 {
    open spec fn convertible(self) -> bool {
        true
    }

    open spec fn as_int(self) -> int {
        self as int
    }

    fn to_bigint(self) -> (r: BigInt) {
        BigInt::from_i128(self as i128)
    }
}

impl From<i32> for BigInt {
    fn from(v: i32) -> (r: BigInt)
        ensures
            r.wf(),
            r@ == v,
    {
        BigInt::from_i128(v as i128)
    }
}

impl vstd::std_specs::convert::FromSpecImpl<i32> for BigInt {
    /// The contract of `from` fixes the number as an integer; no equation
    /// between values of the type is claimed.
    open spec fn obeys_from_spec() -> bool {
        false
    }

    open spec fn from_spec(v: i32) -> BigInt {
        arbitrary()
    }
}

impl ToBigInt for i64 {
    open spec fn convertible(self) -> bool {
        true
    }

    open spec fn as_int(self) -> int {
        self as int
    }

    fn to_bigint(self) -> (r: BigInt) {
        BigInt::from_i128(self as i128)
    }
}

impl From<i64> for BigInt {
    fn from(v: i64) -> (r: BigInt)
        ensures
            r.wf(),
            r@ == v,
    {
        BigInt::from_i128(v as i128)
    }
}

impl vstd::std_specs::convert::FromSpecImpl<i64> for BigInt {
    /// The contract of `from` fixes the number as an integer; no equation
    /// between values of the type is claimed.
    open spec fn obeys_from_spec() -> bool {
        false
    }

    open spec fn from_spec(v: i64) -> BigInt {
        arbitrary()
    }
}

impl ToBigInt for i128 {
    open spec fn convertible(self) -> bool {
        true
    }

    open spec fn as_int(self) -> int {
        self as int
    }

    fn to_bigint(self) -> (r: BigInt) {
        BigInt::from_i128(self)
    }
}

impl From<i128> for BigInt {
    fn from(v: i128) -> (r: BigInt)
        ensures
            r.wf(),
            r@ == v,
    {
        BigInt::from_i128(v)
    }
}

impl vstd::std_specs::convert::FromSpecImpl<i128> for BigInt {
    /// The contract of `from` fixes the number as an integer; no equation
    /// between values of the type is claimed.
    open spec fn obeys_from_spec() -> bool {
        false
    }

    open spec fn from_spec(v: i128) -> BigInt {
        arbitrary()
    }
}

impl ToBigInt for isize {
    open spec fn convertible(self) -> bool {
        true
    }

    open spec fn as_int(self) -> int {
        self as int
    }

    fn to_bigint(self) -> (r: BigInt) {
        BigInt::from_i128(self as i128)
    }
}

impl From<isize> for BigInt {
    fn from(v: isize) -> (r: BigInt)
        ensures
            r.wf(),
            r@ == v,
    {
        BigInt::from_i128(v as i128)
    }
}

impl vstd::std_specs::convert::FromSpecImpl<isize> for BigInt {
    /// The contract of `from` fixes the number as an integer; no equation
    /// between values of the type is claimed.
    open spec fn obeys_from_spec() -> bool {
        false
    }

    open spec fn from_spec(v: isize) -> BigInt {
        arbitrary()
    }
}

impl From<Vec<u32>> for BigInt {
    /// The number that is not negative and has the limbs `limbs`, brought
    /// to canonical form.
    fn from(limbs: Vec<u32>) -> (r: BigInt)
        ensures
            r.wf(),
            r@ == limbs_value(limbs@),
            limbs_in_range(limbs@) ==> r.limbs() == trim(limbs@),
    {
        BigInt::new(limbs, true)
    }
}

impl vstd::std_specs::convert::FromSpecImpl<Vec<u32>> for BigInt {
    /// The contract of `from` fixes the number as an integer; no equation
    /// between values of the type is claimed.
    open spec fn obeys_from_spec() -> bool {
        false
    }

    open spec fn from_spec(limbs: Vec<u32>) -> BigInt {
        arbitrary()
    }
}

impl ToBigInt for &str {
    open spec fn convertible(self) -> bool {
        text_digits(self@).len() > 0
    }

    open spec fn as_int(self) -> int {
        text_value(self@)
    }

    fn to_bigint(self) -> (r: BigInt) {
        match BigInt::from_decimal_string(self) {
            Ok(n) => n,
            Err(_) => BigInt::zero(),
        }
    }
}

impl ToBigInt for String {
    open spec fn convertible(self) -> bool {
        text_digits(self@).len() > 0
    }

    open spec fn as_int(self) -> int {
        text_value(self@)
    }

    fn to_bigint(self) -> (r: BigInt) {
        match BigInt::from_decimal_string(self.as_str()) {
            Ok(n) => n,
            Err(_) => BigInt::zero(),
        }
    }
}

impl core::str::FromStr for BigInt {
    type Err = BigIntError;

    /// Reads a number as `from_decimal_string` does.
    fn from_str(s: &str) -> (r: Result<BigInt, BigIntError>)
        ensures
            match r {
                Ok(n) => text_digits(s@).len() > 0 && n.wf() && n@ == text_value(s@),
                Err(e) => text_digits(s@).len() == 0 && e == BigIntError::InvalidFormat,
            },
    {
        BigInt::from_decimal_string(s)
    }
}

impl TryFrom<&BigInt> for u8 {
    type Error = BigIntError;

    fn try_from(n: &BigInt) -> (r: Result<u8, BigIntError>) {
        n.to_u8()
    }
}

impl vstd::std_specs::convert::TryFromSpecImpl<&BigInt> for u8 {
    open spec fn obeys_try_from_spec() -> bool {
        true
    }

    open spec fn try_from_spec(n: &BigInt) -> Result<u8, BigIntError> {
        match narrowed(n@, u8::MIN as int, u8::MAX as int) {
            Ok(v) => Ok(v as u8),
            Err(e) => Err(e),
        }
    }
}

impl TryFrom<BigInt> for u8 {
    type Error = BigIntError;

    fn try_from(n: BigInt) -> (r: Result<u8, BigIntError>) {
        n.to_u8()
    }
}

impl vstd::std_specs::convert::TryFromSpecImpl<BigInt> for u8 {
    open spec fn obeys_try_from_spec() -> bool {
        true
    }

    open spec fn try_from_spec(n: BigInt) -> Result<u8, BigIntError> {
        match narrowed(n@, u8::MIN as int, u8::MAX as int) {
            Ok(v) => Ok(v as u8),
            Err(e) => Err(e),
        }
    }
}

impl TryFrom<&BigInt> for u16 {
    type Error = BigIntError;

    fn try_from(n: &BigInt) -> (r: Result<u16, BigIntError>) {
        n.to_u16()
    }
}

impl vstd::std_specs::convert::TryFromSpecImpl<&BigInt> for u16 {
    open spec fn obeys_try_from_spec() -> bool {
        true
    }

    open spec fn try_from_spec(n: &BigInt) -> Result<u16, BigIntError> {
        match narrowed(n@, u16::MIN as int, u16::MAX as int) {
            Ok(v) => Ok(v as u16),
            Err(e) => Err(e),
        }
    }
}

impl TryFrom<BigInt> for u16 {
    type Error = BigIntError;

    fn try_from(n: BigInt) -> (r: Result<u16, BigIntError>) {
        n.to_u16()
    }
}

impl vstd::std_specs::convert::TryFromSpecImpl<BigInt> for u16 {
    open spec fn obeys_try_from_spec() -> bool {
        true
    }

    open spec fn try_from_spec(n: BigInt) -> Result<u16, BigIntError> {
        match narrowed(n@, u16::MIN as int, u16::MAX as int) {
            Ok(v) => Ok(v as u16),
            Err(e) => Err(e),
        }
    }
}

impl TryFrom<&BigInt> for u32 {
    type Error = BigIntError;

    fn try_from(n: &BigInt) -> (r: Result<u32, BigIntError>) {
        n.to_u32()
    }
}

impl vstd::std_specs::convert::TryFromSpecImpl<&BigInt> for u32 {
    open spec fn obeys_try_from_spec() -> bool {
        true
    }

    open spec fn try_from_spec(n: &BigInt) -> Result<u32, BigIntError> {
        match narrowed(n@, u32::MIN as int, u32::MAX as int) {
            Ok(v) => Ok(v as u32),
            Err(e) => Err(e),
        }
    }
}

impl TryFrom<BigInt> for u32 {
    type Error = BigIntError;

    fn try_from(n: BigInt) -> (r: Result<u32, BigIntError>) {
        n.to_u32()
    }
}

impl vstd::std_specs::convert::TryFromSpecImpl<BigInt> for u32 {
    open spec fn obeys_try_from_spec() -> bool {
        true
    }

    open spec fn try_from_spec(n: BigInt) -> Result<u32, BigIntError> {
        match narrowed(n@, u32::MIN as int, u32::MAX as int) {
            Ok(v) => Ok(v as u32),
            Err(e) => Err(e),
        }
    }
}

impl TryFrom<&BigInt> for u64 {
    type Error = BigIntError;

    fn try_from(n: &BigInt) -> (r: Result<u64, BigIntError>) {
        n.to_u64()
    }
}

impl vstd::std_specs::convert::TryFromSpecImpl<&BigInt> for u64 {
    open spec fn obeys_try_from_spec() -> bool {
        true
    }

    open spec fn try_from_spec(n: &BigInt) -> Result<u64, BigIntError> {
        match narrowed(n@, u64::MIN as int, u64::MAX as int) {
            Ok(v) => Ok(v as u64),
            Err(e) => Err(e),
        }
    }
}

impl TryFrom<BigInt> for u64 {
    type Error = BigIntError;

    fn try_from(n: BigInt) -> (r: Result<u64, BigIntError>) {
        n.to_u64()
    }
}

impl vstd::std_specs::convert::TryFromSpecImpl<BigInt> for u64 {
    open spec fn obeys_try_from_spec() -> bool {
        true
    }

    open spec fn try_from_spec(n: BigInt) -> Result<u64, BigIntError> {
        match narrowed(n@, u64::MIN as int, u64::MAX as int) {
            Ok(v) => Ok(v as u64),
            Err(e) => Err(e),
        }
    }
}

impl TryFrom<&BigInt> for u128 {
    type Error = BigIntError;

    fn try_from(n: &BigInt) -> (r: Result<u128, BigIntError>) {
        n.to_u128()
    }
}

impl vstd::std_specs::convert::TryFromSpecImpl<&BigInt> for u128 {
    open spec fn obeys_try_from_spec() -> bool {
        true
    }

    open spec fn try_from_spec(n: &BigInt) -> Result<u128, BigIntError> {
        match narrowed(n@, u128::MIN as int, u128::MAX as int) {
            Ok(v) => Ok(v as u128),
            Err(e) => Err(e),
        }
    }
}

impl TryFrom<BigInt> for u128 {
    type Error = BigIntError;

    fn try_from(n: BigInt) -> (r: Result<u128, BigIntError>) {
        n.to_u128()
    }
}

impl vstd::std_specs::convert::TryFromSpecImpl<BigInt> for u128 {
    open spec fn obeys_try_from_spec() -> bool {
        true
    }

    open spec fn try_from_spec(n: BigInt) -> Result<u128, BigIntError> {
        match narrowed(n@, u128::MIN as int, u128::MAX as int) {
            Ok(v) => Ok(v as u128),
            Err(e) => Err(e),
        }
    }
}

impl TryFrom<&BigInt> for usize {
    type Error = BigIntError;

    fn try_from(n: &BigInt) -> (r: Result<usize, BigIntError>) {
        n.to_usize()
    }
}

impl vstd::std_specs::convert::TryFromSpecImpl<&BigInt> for usize {
    open spec fn obeys_try_from_spec() -> bool {
        true
    }

    open spec fn try_from_spec(n: &BigInt) -> Result<usize, BigIntError> {
        match narrowed(n@, usize::MIN as int, usize::MAX as int) {
            Ok(v) => Ok(v as usize),
            Err(e) => Err(e),
        }
    }
}

impl TryFrom<BigInt> for usize {
    type Error = BigIntError;

    fn try_from(n: BigInt) -> (r: Result<usize, BigIntError>) {
        n.to_usize()
    }
}

impl vstd::std_specs::convert::TryFromSpecImpl<BigInt> for usize {
    open spec fn obeys_try_from_spec() -> bool {
        true
    }

    open spec fn try_from_spec(n: BigInt) -> Result<usize, BigIntError> {
        match narrowed(n@, usize::MIN as int, usize::MAX as int) {
            Ok(v) => Ok(v as usize),
            Err(e) => Err(e),
        }
    }
}

impl TryFrom<&BigInt> for i8 {
    type Error = BigIntError;

    fn try_from(n: &BigInt) -> (r: Result<i8, BigIntError>) {
        n.to_i8()
    }
}

impl vstd::std_specs::convert::TryFromSpecImpl<&BigInt> for i8 {
    open spec fn obeys_try_from_spec() -> bool {
        true
    }

    open spec fn try_from_spec(n: &BigInt) -> Result<i8, BigIntError> {
        match narrowed(n@, i8::MIN as int, i8::MAX as int) {
            Ok(v) => Ok(v as i8),
            Err(e) => Err(e),
        }
    }
}

impl TryFrom<BigInt> for i8 {
    type Error = BigIntError;

    fn try_from(n: BigInt) -> (r: Result<i8, BigIntError>) {
        n.to_i8()
    }
}

impl vstd::std_specs::convert::TryFromSpecImpl<BigInt> for i8 {
    open spec fn obeys_try_from_spec() -> bool {
        true
    }

    open spec fn try_from_spec(n: BigInt) -> Result<i8, BigIntError> {
        match narrowed(n@, i8::MIN as int, i8::MAX as int) {
            Ok(v) => Ok(v as i8),
            Err(e) => Err(e),
        }
    }
}

impl TryFrom<&BigInt> for i16 {
    type Error = BigIntError;

    fn try_from(n: &BigInt) -> (r: Result<i16, BigIntError>) {
        n.to_i16()
    }
}

impl vstd::std_specs::convert::TryFromSpecImpl<&BigInt> for i16 {
    open spec fn obeys_try_from_spec() -> bool {
        true
    }

    open spec fn try_from_spec(n: &BigInt) -> Result<i16, BigIntError> {
        match narrowed(n@, i16::MIN as int, i16::MAX as int) {
            Ok(v) => Ok(v as i16),
            Err(e) => Err(e),
        }
    }
}

impl TryFrom<BigInt> for i16 {
    type Error = BigIntError;

    fn try_from(n: BigInt) -> (r: Result<i16, BigIntError>) {
        n.to_i16()
    }
}

impl vstd::std_specs::convert::TryFromSpecImpl<BigInt> for i16 {
    open spec fn obeys_try_from_spec() -> bool {
        true
    }

    open spec fn try_from_spec(n: BigInt) -> Result<i16, BigIntError> {
        match narrowed(n@, i16::MIN as int, i16::MAX as int) {
            Ok(v) => Ok(v as i16),
            Err(e) => Err(e),
        }
    }
}

impl TryFrom<&BigInt> for i32 {
    type Error = BigIntError;

    fn try_from(n: &BigInt) -> (r: Result<i32, BigIntError>) {
        n.to_i32()
    }
}

impl vstd::std_specs::convert::TryFromSpecImpl<&BigInt> for i32 {
    open spec fn obeys_try_from_spec() -> bool {
        true
    }

    open spec fn try_from_spec(n: &BigInt) -> Result<i32, BigIntError> {
        match narrowed(n@, i32::MIN as int, i32::MAX as int) {
            Ok(v) => Ok(v as i32),
            Err(e) => Err(e),
        }
    }
}

impl TryFrom<BigInt> for i32 {
    type Error = BigIntError;

    fn try_from(n: BigInt) -> (r: Result<i32, BigIntError>) {
        n.to_i32()
    }
}

impl vstd::std_specs::convert::TryFromSpecImpl<BigInt> for i32 {
    open spec fn obeys_try_from_spec() -> bool {
        true
    }

    open spec fn try_from_spec(n: BigInt) -> Result<i32, BigIntError> {
        match narrowed(n@, i32::MIN as int, i32::MAX as int) {
            Ok(v) => Ok(v as i32),
            Err(e) => Err(e),
        }
    }
}

impl TryFrom<&BigInt> for i64 {
    type Error = BigIntError;

    fn try_from(n: &BigInt) -> (r: Result<i64, BigIntError>) {
        n.to_i64()
    }
}

impl vstd::std_specs::convert::TryFromSpecImpl<&BigInt> for i64 {
    open spec fn obeys_try_from_spec() -> bool {
        true
    }

    open spec fn try_from_spec(n: &BigInt) -> Result<i64, BigIntError> {
        match narrowed(n@, i64::MIN as int, i64::MAX as int) {
            Ok(v) => Ok(v as i64),
            Err(e) => Err(e),
        }
    }
}

impl TryFrom<BigInt> for i64 {
    type Error = BigIntError;

    fn try_from(n: BigInt) -> (r: Result<i64, BigIntError>) {
        n.to_i64()
    }
}

impl vstd::std_specs::convert::TryFromSpecImpl<BigInt> for i64 {
    open spec fn obeys_try_from_spec() -> bool {
        true
    }

    open spec fn try_from_spec(n: BigInt) -> Result<i64, BigIntError> {
        match narrowed(n@, i64::MIN as int, i64::MAX as int) {
            Ok(v) => Ok(v as i64),
            Err(e) => Err(e),
        }
    }
}

impl TryFrom<&BigInt> for i128 {
    type Error = BigIntError;

    fn try_from(n: &BigInt) -> (r: Result<i128, BigIntError>) {
        n.to_i128()
    }
}

impl vstd::std_specs::convert::TryFromSpecImpl<&BigInt> for i128 {
    open spec fn obeys_try_from_spec() -> bool {
        true
    }

    open spec fn try_from_spec(n: &BigInt) -> Result<i128, BigIntError> {
        match narrowed(n@, i128::MIN as int, i128::MAX as int) {
            Ok(v) => Ok(v as i128),
            Err(e) => Err(e),
        }
    }
}

impl TryFrom<BigInt> for i128 {
    type Error = BigIntError;

    fn try_from(n: BigInt) -> (r: Result<i128, BigIntError>) {
        n.to_i128()
    }
}

impl vstd::std_specs::convert::TryFromSpecImpl<BigInt> for i128 {
    open spec fn obeys_try_from_spec() -> bool {
        true
    }

    open spec fn try_from_spec(n: BigInt) -> Result<i128, BigIntError> {
        match narrowed(n@, i128::MIN as int, i128::MAX as int) {
            Ok(v) => Ok(v as i128),
            Err(e) => Err(e),
        }
    }
}

impl TryFrom<&BigInt> for isize {
    type Error = BigIntError;

    fn try_from(n: &BigInt) -> (r: Result<isize, BigIntError>) {
        n.to_isize()
    }
}

impl vstd::std_specs::convert::TryFromSpecImpl<&BigInt> for isize {
    open spec fn obeys_try_from_spec() -> bool {
        true
    }

    open spec fn try_from_spec(n: &BigInt) -> Result<isize, BigIntError> {
        match narrowed(n@, isize::MIN as int, isize::MAX as int) {
            Ok(v) => Ok(v as isize),
            Err(e) => Err(e),
        }
    }
}

impl TryFrom<BigInt> for isize {
    type Error = BigIntError;

    fn try_from(n: BigInt) -> (r: Result<isize, BigIntError>) {
        n.to_isize()
    }
}

impl vstd::std_specs::convert::TryFromSpecImpl<BigInt> for isize {
    open spec fn obeys_try_from_spec() -> bool {
        true
    }

    open spec fn try_from_spec(n: BigInt) -> Result<isize, BigIntError> {
        match narrowed(n@, isize::MIN as int, isize::MAX as int) {
            Ok(v) => Ok(v as isize),
            Err(e) => Err(e),
        }
    }
}

} // verus!
