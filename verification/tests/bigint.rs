use ds_rs::bigint::compare::compare_magnitude;
use ds_rs::bigint::magnitude::{magnitude_add, magnitude_div_small, magnitude_mul, magnitude_sub};
use ds_rs::bigint::{BigInt, BigIntError, ToBigInt, BASE, BASE_WIDTH};
use rand::Rng;
use std::cmp::Ordering;

fn big(text: &str) -> BigInt {
    BigInt::from_decimal_string(text).unwrap()
}

const FACT_100: &str = "93326215443944152681699238856266700490715968264381621468592963895217599993229915608941463976156518286253697920827223758251185210916864000000000000000000000000";

#[test]
fn test_add() {
    let big_n = big("9_800_999");
    let mid = big("230_420");
    let small = big("10_023");

    let nbig = big("-9_800_999");
    let nmid = big("-230_420");
    let nsmall = big("-10_023");

    assert_eq!(big_n.plus(&big_n), big("19601998"));
    assert_eq!(big_n.plus(&nbig), big("0"));
    assert_eq!(big_n.plus(&mid), big("10031419"));
    assert_eq!(big_n.plus(&nmid), big("9570579"));
    assert_eq!(small.plus(&nbig), big("-9790976"));
    assert_eq!(small.plus(&nmid), big("-220397"));
    assert_eq!(small.plus(&nsmall), big("0"));
}

#[test]
fn test_sub() {
    let big_n = big("9_800_999");
    let mid = big("230_420");
    let small = big("10_023");

    let nbig = big("-9_800_999");
    let nmid = big("-230_420");
    let nsmall = big("-10_023");

    assert_eq!(big_n.minus(&big_n), big("0"));
    assert_eq!(big_n.minus(&nbig), big("19601998"));
    assert_eq!(big_n.minus(&mid), big("9570579"));
    assert_eq!(big_n.minus(&nmid), big("10031419"));
    assert_eq!(small.minus(&nbig), big("9811022"));
    assert_eq!(small.minus(&nmid), big("240443"));
    assert_eq!(small.minus(&nsmall), big("20046"));
}

#[test]
fn test_mul() {
    let big_n = big("9_800_999");
    let mid = big("230_420");
    let small = big("10_023");

    let nbig = big("-9_800_999");
    let nmid = big("-230_420");
    let nsmall = big("-10_023");

    assert_eq!(big_n.times(&big_n), big("96_059_581_398_001"));
    assert_eq!(big_n.times(&nbig), big("-96_059_581_398_001"));
    assert_eq!(big_n.times(&mid), big("2_258_346_189_580"));
    assert_eq!(big_n.times(&nmid), big("-2_258_346_189_580"));
    assert_eq!(small.times(&nbig), big("-98_235_412_977"));
    assert_eq!(small.times(&nmid), big("-2_309_499_660"));
    assert_eq!(small.times(&nsmall), big("-100_460_529"));
}

#[test]
fn test_fact() {
    assert_eq!(big("0").fact(), big("1"));
    assert_eq!(big("4").fact(), big("24"));
    assert_eq!(big("20").fact(), big("2432902008176640000"));
    assert_eq!(big("100").fact(), big(FACT_100));
}

#[test]
fn test_try_into() {
    assert_eq!(
        TryInto::<isize>::try_into(big("123456789")).unwrap(),
        123456789isize
    );
    assert_eq!(
        TryInto::<isize>::try_into(big("-123456789")).unwrap(),
        -123456789isize
    );
}

#[test]
#[should_panic]
fn test_try_into_panic() {
    let _ = TryInto::<isize>::try_into(big("123456789123456789123456789")).unwrap();
}

#[test]
fn test_mul_random() {
    let mut rng = rand::thread_rng();
    for _ in 0..1000 {
        let x: i32 = rng.gen();
        let y: i32 = rng.gen();
        let e = x as i128 * y as i128;
        let e = BigInt::from(e);
        let x = BigInt::from(x as i128);
        let y = BigInt::from(y as i128);
        let res = x * y;
        assert_eq!(res, e);
    }
}

#[test]
fn test_add_random() {
    let mut rng = rand::thread_rng();
    for _ in 0..1000 {
        let x: i32 = rng.gen();
        let y: i32 = rng.gen();
        let e = x as i128 + y as i128;
        let e = BigInt::from(e);
        let x = BigInt::from(x);
        let y = BigInt::from(y);
        let res = x + y;
        assert_eq!(res, e);
    }
}

#[test]
fn test_sub_random() {
    let mut rng = rand::thread_rng();
    for _ in 0..1000 {
        let x: i32 = rng.gen();
        let y: i32 = rng.gen();
        let e = x as i128 - y as i128;
        let e = BigInt::from(e);
        let x = BigInt::from(x);
        let y = BigInt::from(y);
        let res = x - y;
        assert_eq!(res, e);
    }
}

#[test]
fn test_to_string() {
    let x = big(FACT_100);

    let e = FACT_100.to_string();

    assert_eq!(x.to_string(), e);
}

#[test]
fn test_big_const() {
    let x = big("3541684060098168196989198191000000000989181894981000000000000089649481000000054699999999999999999999999900000035416161200000000000000000000000");
    let y = big("6874987465132030656161861320320661811203020299919909000000000000019919199199412491249029409090949099090900000000000000000000004909409490940949094090000000000000000000000000000099999999999999999999999999999999999999940490490240000000000000000000000000000000000000000");

    let mul = x.times(&y);
    let add = x.plus(&y);
    let sub = x.minus(&y);

    let mul_e = "24349033518632823894135154533098628543238993281598648025932643066935739961545462551892500582936697736673341989210952246192679844089045094769120419529079036384042995251978680573534538619308125502461919135653186042318555194142681751142182383450929229721379401555773520885485439994655003338993178304829816128000000000000005950948868401609406866688000000000000000000000000000000000000000000000000000000000000000";
    let add_e = "6874987465132030656161861320320661811203020299919909000000000000019919199199412491249029409090949099090900000000000000000003546593469589109146083288191000000000989181894981000100000000089649481000000054699999999999940490490239900000035416161200000000000000000000000";
    let sub_e = "-6874987465132030656161861320320661811203020299919909000000000000019919199199412491249029409090949099090899999999999999999996463225349392772752104891808999999999010818105019000099999999910350518999999945299999999999940490490240099999964583838800000000000000000000000";

    assert_eq!(mul.to_string(), mul_e);
    assert_eq!(mul, big(mul_e));

    assert_eq!(add.to_string(), add_e);
    assert_eq!(add, big(add_e));

    assert_eq!(sub.to_string(), sub_e);
    assert_eq!(sub, big(sub_e));
}

#[test]
fn base_is_ten_to_the_width() {
    assert_eq!(BASE, 10u32.pow(BASE_WIDTH as u32));
    assert!((BASE as u64) * (BASE as u64) < u64::MAX);
}

#[test]
fn parse_keeps_only_digits_and_a_leading_minus() {
    assert_eq!(big("1,234,567").to_string(), "1234567");
    assert_eq!(big("  -42 ").to_string(), "-42");
    assert_eq!(big("+7").to_string(), "7");
    assert_eq!(big("12-3").to_string(), "123");
    assert_eq!(big("--5").to_string(), "-5");
    assert_eq!(big("x-y9").to_string(), "-9");
    assert_eq!(big("1é2").to_string(), "12");
}

#[test]
fn parse_rejects_text_without_digits() {
    assert_eq!(BigInt::from_decimal_string("").unwrap_err(), BigIntError::InvalidFormat);
    assert_eq!(BigInt::from_decimal_string("-").unwrap_err(), BigIntError::InvalidFormat);
    assert_eq!(BigInt::from_decimal_string("abc, --").unwrap_err(), BigIntError::InvalidFormat);
    assert!("".parse::<BigInt>().is_err());
    assert_eq!("15".parse::<BigInt>().unwrap(), BigInt::from(15u8));
}

#[test]
fn parse_is_canonical() {
    assert_eq!(big("-0"), BigInt::zero());
    assert_eq!(big("-0").to_string(), "0");
    assert_eq!(big("000000000000000000000").digits(), &vec![0u32]);
    assert_eq!(big("0000000000000000000001").digits(), &vec![1u32]);
    assert_eq!(big("-000123").to_string(), "-123");
    assert!(big("-0").is_positive());
}

#[test]
fn parse_groups_digits_into_limbs() {
    assert_eq!(big("1000000000").digits(), &vec![0u32, 1]);
    assert_eq!(big("999999999").digits(), &vec![999_999_999u32]);
    assert_eq!(big("123456789012345678901").digits(), &vec![345678901u32, 456789012, 123]);
    assert_eq!(big("1000000000000000000").digits(), &vec![0u32, 0, 1]);
}

#[test]
fn to_string_pads_inner_limbs() {
    assert_eq!(BigInt::new(vec![5, 0, 7], true).to_string(), "7000000000000000005");
    assert_eq!(BigInt::new(vec![1, 1], false).to_string(), "-1000000001");
    assert_eq!(BigInt::new(vec![0], true).to_decimal_string(), "0");
    assert_eq!(BigInt::new(vec![10], true).to_decimal_string(), "10");
}

#[test]
fn round_trip_of_text() {
    for text in ["0", "7", "-7", "1000000000", "-999999999999999999", FACT_100] {
        assert_eq!(big(text).to_decimal_string(), text);
    }
    let mut rng = rand::thread_rng();
    for _ in 0..200 {
        let v: i128 = rng.gen();
        assert_eq!(big(&v.to_string()).to_decimal_string(), v.to_string());
        assert_eq!(BigInt::from(v).to_decimal_string(), v.to_string());
    }
}

#[test]
fn new_brings_limbs_to_canonical_form() {
    assert_eq!(BigInt::new(vec![], true), BigInt::zero());
    assert_eq!(BigInt::new(vec![], false), BigInt::zero());
    assert_eq!(BigInt::new(vec![0, 0, 0], false), BigInt::zero());
    assert_eq!(BigInt::new(vec![3, 0, 0], true), BigInt::three());
    assert_eq!(BigInt::new(vec![1, 2, 0], true).digits(), &vec![1u32, 2]);
    assert_eq!(BigInt::new(vec![1_000_000_000], true).digits(), &vec![0u32, 1]);
    assert_eq!(BigInt::new(vec![u32::MAX, u32::MAX], true), big("4294967299294967295"));
    assert_eq!(BigInt::from(vec_value(&[u32::MAX, u32::MAX])), big("4294967299294967295"));
}

fn vec_value(limbs: &[u32]) -> u128 {
    let mut v: u128 = 0;
    for limb in limbs.iter().rev() {
        v = v * BASE as u128 + *limb as u128;
    }
    v
}

#[test]
fn constants() {
    assert_eq!(BigInt::zero().to_string(), "0");
    assert_eq!(BigInt::one().to_string(), "1");
    assert_eq!(BigInt::two().to_string(), "2");
    assert_eq!(BigInt::three().to_string(), "3");
    assert_eq!(BigInt::neg_one().to_string(), "-1");
    assert!(!BigInt::neg_one().is_positive());
    assert!(BigInt::zero().is_zero());
    assert!(!BigInt::one().is_zero());
}

#[test]
fn digit_access() {
    let mut n = big("123456789012345678901");
    assert_eq!(n.get_digit(0), Some(&345678901));
    assert_eq!(n.get_digit(2), Some(&123));
    assert_eq!(n.get_digit(3), None);
    assert!(n.get_digit_mut(3).is_none());
    *n.get_digit_mut(1).unwrap() = 5;
    assert_eq!(n.digits(), &vec![345678901u32, 5, 123]);
    assert_eq!(n.to_string(), "123000000005345678901");
}

#[test]
fn compare_orders_by_sign_then_magnitude() {
    let values = ["-1000000000000", "-1000000000", "-999999999", "-2", "0", "1", "999999999", "1000000000", "1000000001", "2000000000000000000000"];
    for (i, a) in values.iter().enumerate() {
        for (j, b) in values.iter().enumerate() {
            let (x, y) = (big(a), big(b));
            assert_eq!(x.compare(&y), i.cmp(&j), "{a} against {b}");
            assert_eq!(x.partial_cmp(&y), Some(i.cmp(&j)));
            assert_eq!(x == y, i == j);
            assert_eq!(x < y, i < j);
            assert_eq!(x >= y, i >= j);
            assert_eq!(x.is_less_than(&y), i < j);
        }
    }
}

#[test]
fn compare_is_a_total_order_on_random_values() {
    let mut rng = rand::thread_rng();
    for _ in 0..500 {
        let (a, b, c): (i128, i128, i128) = (rng.gen(), rng.gen::<i64>() as i128, rng.gen());
        let (x, y, z) = (BigInt::from(a), BigInt::from(b), BigInt::from(c));
        assert_eq!(x.compare(&y), a.cmp(&b));
        let outcomes = [x < y, x == y, x > y];
        assert_eq!(outcomes.iter().filter(|o| **o).count(), 1);
        if x.compare(&y) == Ordering::Less && y.compare(&z) == Ordering::Less {
            assert_eq!(x.compare(&z), Ordering::Less);
        }
    }
}

#[test]
fn compare_magnitude_by_length_then_top_limb() {
    assert_eq!(compare_magnitude(&vec![9, 9], &vec![0, 0, 1]), Ordering::Less);
    assert_eq!(compare_magnitude(&vec![0, 0, 1], &vec![9, 9]), Ordering::Greater);
    assert_eq!(compare_magnitude(&vec![9, 1], &vec![0, 2]), Ordering::Less);
    assert_eq!(compare_magnitude(&vec![1, 2], &vec![0, 2]), Ordering::Greater);
    assert_eq!(compare_magnitude(&vec![1, 2], &vec![1, 2]), Ordering::Equal);
}

#[test]
fn magnitude_primitives() {
    assert_eq!(magnitude_add(&vec![999_999_999], &vec![1]), vec![0, 1]);
    assert_eq!(magnitude_add(&vec![999_999_999, 999_999_999], &vec![1]), vec![0, 0, 1]);
    assert_eq!(magnitude_add(&vec![0], &vec![0]), vec![0]);
    assert_eq!(magnitude_sub(&vec![0, 0, 1], &vec![1]), vec![999_999_999, 999_999_999]);
    assert_eq!(magnitude_sub(&vec![5, 7], &vec![5, 7]), vec![0]);
    assert_eq!(magnitude_sub(&vec![0, 1], &vec![999_999_999]), vec![1]);
    assert_eq!(magnitude_mul(&vec![999_999_999], &vec![999_999_999]), vec![1, 999_999_998]);
    assert_eq!(magnitude_mul(&vec![0, 1], &vec![0, 1]), vec![0, 0, 1]);
    assert_eq!(magnitude_mul(&vec![123, 456], &vec![0]), vec![0]);
    assert_eq!(magnitude_div_small(&vec![1, 1], 2), vec![500_000_000]);
    assert_eq!(magnitude_div_small(&vec![0, 0, 3], 3), vec![0, 0, 1]);
    assert_eq!(magnitude_div_small(&vec![2], 3), vec![0]);
}

#[test]
fn add_sub_dispatches_on_signs() {
    let cases: [(i128, i128); 8] = [(5, 3), (3, 5), (-5, 3), (5, -3), (-5, -3), (-3, -5), (7, -7), (0, -4)];
    for (a, b) in cases {
        let (x, y) = (BigInt::from(a), BigInt::from(b));
        assert_eq!(x.add_sub(&y, false), BigInt::from(a + b));
        assert_eq!(x.add_sub(&y, true), BigInt::from(a - b));
    }
}

#[test]
fn arithmetic_laws_on_samples() {
    let samples = ["0", "1", "-1", "999999999", "-1000000000", "123456789012345678901234567890", "-98765432109876543210"];
    for a in samples {
        let x = big(a);
        assert_eq!(x.plus(&BigInt::zero()), x);
        assert_eq!(x.times(&BigInt::one()), x);
        assert_eq!(x.times(&BigInt::zero()), BigInt::zero());
        assert_eq!(x.minus(&x), BigInt::zero());
        assert_eq!(x.plus(&x.negated()), BigInt::zero());
        for b in samples {
            let y = big(b);
            assert_eq!(x.plus(&y), y.plus(&x));
            assert_eq!(x.times(&y), y.times(&x));
            for c in samples {
                let z = big(c);
                assert_eq!(x.plus(&y).plus(&z), x.plus(&y.plus(&z)));
            }
        }
    }
}

#[test]
fn operators_and_assigning_operators() {
    let mut n = big("9800999") + big("9800999");
    assert_eq!(n, big("19601998"));
    n -= big("19601998");
    assert_eq!(n, BigInt::zero());
    n += big("9800999");
    n *= big("230420");
    assert_eq!(n, big("2258346189580"));
    assert_eq!(big("9800999") - big("-9800999"), big("19601998"));
    assert_eq!(big("9800999") * big("230420"), big("2258346189580"));
}

#[test]
fn pow_is_repeated_multiplication() {
    assert_eq!(big("7").pow(0), BigInt::one());
    assert_eq!(big("0").pow(0), BigInt::one());
    assert_eq!(big("0").pow(5), BigInt::zero());
    assert_eq!(big("2").pow(100), big("1267650600228229401496703205376"));
    assert_eq!(big("-3").pow(3), big("-27"));
    assert_eq!(big("-3").pow(4), big("81"));
    assert_eq!(big("10").pow(27).digits(), &vec![0u32, 0, 0, 1]);
}

#[test]
fn factorial_recursion() {
    assert_eq!(BigInt::zero().fact(), BigInt::one());
    for n in 1u32..40 {
        let lhs = BigInt::from(n).fact();
        let rhs = BigInt::from(n).times(&BigInt::from(n - 1).fact());
        assert_eq!(lhs, rhs);
    }
    let text = big("100").fact().to_string();
    assert_eq!(text.len(), 158);
    assert!(text.ends_with("000000000000000000000000"));
    assert!(!text.ends_with("0000000000000000000000000"));
}

#[test]
fn shifts_multiply_and_divide_by_the_base() {
    let n = big("123456789012345678901");
    assert_eq!(n.shift_left(0), n);
    assert_eq!(n.shift_left(2), n.times(&BigInt::from(BASE).pow(2)));
    assert_eq!(n.shift_left(1).to_string(), "123456789012345678901000000000");
    assert_eq!(n.shift_right(0), n);
    assert_eq!(n.shift_right(1), big("123456789012"));
    assert_eq!(n.shift_right(2), big("123"));
    assert_eq!(n.shift_right(3), BigInt::zero());
    assert_eq!(n.shift_right(9), BigInt::zero());
    assert_eq!(n.negated().shift_right(1), big("-123456789012"));
    assert_eq!(n.negated().shift_right(5), BigInt::zero());
    assert!(n.negated().shift_right(5).is_positive());
    assert_eq!(n.negated().shift_left(1), big("-123456789012345678901000000000"));
    assert_eq!(BigInt::zero().shift_left(4), BigInt::zero());
    assert_eq!(n.shift_left(3).shift_right(3), n);
}

#[test]
fn halves_and_thirds() {
    assert_eq!(big("7").div_by_two(), big("3"));
    assert_eq!(big("-7").div_by_two(), big("-3"));
    assert_eq!(big("1").div_by_two(), BigInt::zero());
    assert!(big("-1").div_by_two().is_positive());
    assert_eq!(big("1000000000000000000001").div_by_three(), big("333333333333333333333"));
    assert_eq!(big("-10").div_by_three(), big("-3"));
    let mut rng = rand::thread_rng();
    for _ in 0..200 {
        let v: u128 = rng.gen();
        assert_eq!(BigInt::from(v).div_by_two(), BigInt::from(v / 2));
        assert_eq!(BigInt::from(v).div_by_three(), BigInt::from(v / 3));
    }
}

#[test]
fn native_conversions() {
    assert_eq!(BigInt::from(u128::MAX).to_string(), u128::MAX.to_string());
    assert_eq!(BigInt::from(i128::MIN).to_string(), i128::MIN.to_string());
    assert_eq!(BigInt::from(i128::MAX).to_string(), i128::MAX.to_string());
    assert_eq!(BigInt::from(0u8), BigInt::zero());
    assert_eq!(BigInt::from(-1i8), BigInt::neg_one());
    assert_eq!(BigInt::from_u128(u128::MAX).to_u128(), Ok(u128::MAX));
    assert_eq!(BigInt::from_i128(i128::MIN).to_i128(), Ok(i128::MIN));
    assert_eq!(BigInt::from_i128(i128::MAX).to_i128(), Ok(i128::MAX));
    assert_eq!(big("340282366920938463463374607431768211456").to_u128(), Err(BigIntError::OutOfRange));
    assert_eq!(big("-1").to_u128(), Err(BigIntError::OutOfRange));
    assert_eq!(big("170141183460469231731687303715884105728").to_i128(), Err(BigIntError::OutOfRange));
    assert_eq!(big("-170141183460469231731687303715884105729").to_i128(), Err(BigIntError::OutOfRange));
    assert_eq!(big("255").to_u8(), Ok(255));
    assert_eq!(big("256").to_u8(), Err(BigIntError::OutOfRange));
    assert_eq!(big("-128").to_i8(), Ok(-128));
    assert_eq!(big("-129").to_i8(), Err(BigIntError::OutOfRange));
    assert_eq!(big("65535").to_u16(), Ok(65535));
    assert_eq!(big("-32769").to_i16(), Err(BigIntError::OutOfRange));
    assert_eq!(big("4294967295").to_u32(), Ok(u32::MAX));
    assert_eq!(big("4294967296").to_u32(), Err(BigIntError::OutOfRange));
    assert_eq!(big("-2147483648").to_i32(), Ok(i32::MIN));
    assert_eq!(big("18446744073709551615").to_u64(), Ok(u64::MAX));
    assert_eq!(big("9223372036854775808").to_i64(), Err(BigIntError::OutOfRange));
    assert_eq!(big("123456789").to_usize(), Ok(123456789usize));
    assert_eq!(big("-123456789").to_usize(), Err(BigIntError::OutOfRange));
    assert_eq!(big("-123456789").to_isize(), Ok(-123456789isize));
    assert_eq!(u64::try_from(&big("77")), Ok(77u64));
    assert_eq!(i16::try_from(big("-40000")), Err(BigIntError::OutOfRange));
}

#[test]
fn to_bigint_of_integers_and_text() {
    assert_eq!(5u8.to_bigint(), big("5"));
    assert_eq!((-5i64).to_bigint(), big("-5"));
    assert_eq!(usize::MAX.to_bigint().to_string(), usize::MAX.to_string());
    assert_eq!(i128::MIN.to_bigint().to_string(), i128::MIN.to_string());
    assert_eq!("-1_000".to_bigint(), big("-1000"));
    assert_eq!(String::from("42").to_bigint(), big("42"));
}

#[test]
fn cross_check_with_native_arithmetic() {
    let mut rng = rand::thread_rng();
    for _ in 0..1000 {
        let x: i64 = rng.gen();
        let y: i64 = rng.gen();
        let (a, b) = (BigInt::from(x), BigInt::from(y));
        assert_eq!(a.plus(&b), BigInt::from(x as i128 + y as i128));
        assert_eq!(a.minus(&b), BigInt::from(x as i128 - y as i128));
        assert_eq!(a.times(&b), BigInt::from(x as i128 * y as i128));
        assert_eq!(a.times(&b).to_i128(), Ok(x as i128 * y as i128));
    }
}

#[test]
fn clone_keeps_the_number() {
    let n = big("-123456789012345678901234567890");
    assert_eq!(n.clone(), n);
    assert_eq!(n.clone().to_string(), "-123456789012345678901234567890");
}

fn random_big(rng: &mut rand::rngs::ThreadRng, limbs: usize) -> BigInt {
    let mut digits: Vec<u32> = (0..limbs).map(|_| rng.gen_range(0..BASE)).collect();
    if let Some(top) = digits.last_mut() {
        *top = rng.gen_range(1..BASE);
    }
    BigInt::new(digits, rng.gen())
}

#[test]
fn splitting_in_three_agrees_with_the_schoolbook_method() {
    let mut rng = rand::thread_rng();
    for (la, lb) in [(33, 33), (34, 35), (40, 100), (99, 33), (120, 120), (200, 67), (33, 300), (1, 50), (32, 32), (64, 3)] {
        for _ in 0..3 {
            let (x, y) = (random_big(&mut rng, la), random_big(&mut rng, lb));
            let product = x.times_toom3(&y);
            assert_eq!(product, x.times_schoolbook(&y));
            assert_eq!(product, y.times_toom3(&x));
            assert_eq!(x.times(&y), product);
        }
    }
}

#[test]
fn splitting_in_three_on_edge_operands() {
    let ones = BigInt::new(vec![BASE - 1; 100], true);
    let sparse = BigInt::one().shift_left(99);
    assert_eq!(ones.times_toom3(&ones), ones.times_schoolbook(&ones));
    assert_eq!(sparse.times_toom3(&sparse), BigInt::one().shift_left(198));
    assert_eq!(ones.times_toom3(&sparse), ones.shift_left(99));
    assert_eq!(ones.negated().times_toom3(&sparse), ones.shift_left(99).negated());
    assert_eq!(ones.times_toom3(&BigInt::zero()), BigInt::zero());
    assert_eq!(big("9800999").times_toom3(&big("230420")), big("2258346189580"));
    let n = big("12345678901234567890").pow(40);
    assert_eq!(n.times_toom3(&n), n.times_schoolbook(&n));
    assert_eq!(n.times_toom3(&n), big("12345678901234567890").pow(80));
}

#[test]
fn negation_and_shift_operators() {
    assert_eq!(-big("5"), big("-5"));
    assert_eq!(-big("-5"), big("5"));
    assert_eq!(-big("0"), BigInt::zero());
    assert!((-big("0")).is_positive());
    assert_eq!(big("7") << 2, big("7000000000000000000"));
    assert_eq!(big("-7") << 1, big("-7000000000"));
    assert_eq!(big("7000000000000000001") >> 2, big("7"));
    assert_eq!(big("-7000000000000000001") >> 1, big("-7000000000"));
    assert_eq!(big("7") >> 1, BigInt::zero());
    let n = big("123456789012345678901234567890");
    assert_eq!((n.clone() << 3) >> 3, n);
    assert_eq!(n.clone() + (-n), BigInt::zero());
}

#[test]
fn from_limbs() {
    assert_eq!(BigInt::from(vec![345678901u32, 456789012, 123]), big("123456789012345678901"));
    assert_eq!(BigInt::from(Vec::<u32>::new()), BigInt::zero());
    assert_eq!(BigInt::from(vec![7u32, 0, 0]).digits(), &vec![7u32]);
}

#[test]
fn splitting_in_three_on_long_operands() {
    let mut rng = rand::thread_rng();
    let (x, y) = (random_big(&mut rng, 1500), random_big(&mut rng, 1200));
    let product = x.times_toom3(&y);
    assert_eq!(product, x.times_schoolbook(&y));
    assert_eq!(product.digits().len() >= 2699, true);
    let text = product.to_decimal_string();
    assert_eq!(big(&text), product);
}
