use substreams::{BigDecimal, BigInt, BigIntOutOfRangeError, ParseNumError, Sign};

fn big_int(input: i64) -> BigInt {
    BigInt::from_i64(input)
}

fn dec(s: &str) -> BigDecimal {
    BigDecimal::from_str(s).unwrap()
}

#[test]
fn store_bytes_empty_is_zero() {
    assert!(BigInt::from_store_bytes(b"") == BigInt::zero());
    assert!(BigDecimal::from_store_bytes(b"") == BigDecimal::zero());
}

#[test]
fn store_bytes_parse_decimal_string() {
    assert!(BigInt::from_store_bytes(b"-420") == big_int(-420));
    assert!(BigDecimal::from_store_bytes(b"3.25") == dec("3.25"));
}

#[test]
fn from_str_plus_int_promotes() {
    assert!(BigInt::from_str("123").unwrap().add(1 as i32) == big_int(124));
}

#[test]
fn unsigned_minus_int_is_signed() {
    assert!(BigInt::from_u64(1).sub(2 as i32) == big_int(-1));
}

#[test]
fn div_rem_truncates_toward_zero() {
    assert!(BigInt::div_rem(&big_int(-20), &big_int(5)) == (big_int(-4), big_int(0)));
    assert!(BigInt::div_rem(&big_int(-7), &big_int(2)) == (big_int(-3), big_int(-1)));
    assert!(BigInt::div_rem(&big_int(7), &big_int(-2)) == (big_int(-3), big_int(1)));
    assert!(BigInt::div_rem(&big_int(-7), &big_int(-2)) == (big_int(3), big_int(-1)));
}

#[test]
fn try_to_u64_reports_negative() {
    assert!(matches!(big_int(-1).try_to_u64(), Err(BigIntOutOfRangeError::Negative)));
}

#[test]
fn try_to_u64_reports_overflow() {
    let too_big = BigInt::from_u64(u64::MAX).add(1 as u32);
    assert!(matches!(too_big.try_to_u64(), Err(BigIntOutOfRangeError::Overflow)));
}

#[test]
fn try_to_u64_in_range() {
    assert!(big_int(0).try_to_u64().unwrap() == 0);
    assert!(big_int(7).try_to_u64().unwrap() == 7);
    assert!(BigInt::from_u64(u64::MAX).try_to_u64().unwrap() == u64::MAX);
    assert!(BigInt::from_u64(0x0123_4567_89ab_cdef).try_to_u64().unwrap() == 0x0123_4567_89ab_cdef);
}

#[test]
fn int_string_round_trip() {
    for v in [0i64, 1, -1, 42, -420, 1_000_000_007, i64::MIN, i64::MAX] {
        let x = big_int(v);
        assert!(BigInt::from_str(&x.to_string()).unwrap() == x);
    }
    assert!(big_int(-420).to_string() == "-420");
    assert!(big_int(0).to_string() == "0");
}

#[test]
fn decimal_string_round_trip() {
    for s in ["0", "1", "-1.5", "3.141592", "100.0", "0.0001", "-123456789.987654321"] {
        let x = dec(s);
        assert!(BigDecimal::from_str(&x.to_string()).unwrap() == x);
    }
    assert!(dec("1.25e2").to_string() == "125");
    assert!(dec("-1.5").to_string() == "-1.5");
    assert!(dec("1e-3").to_string() == "0.001");
}

#[test]
fn parse_rejects_malformed() {
    assert!(matches!(BigInt::from_str("12x"), Err(ParseNumError::Invalid)));
    assert!(matches!(BigInt::from_str(""), Err(ParseNumError::Invalid)));
    assert!(matches!(BigInt::from_str("-"), Err(ParseNumError::Invalid)));
    assert!(matches!(BigDecimal::from_str(""), Err(ParseNumError::Invalid)));
    assert!(matches!(BigDecimal::from_str("1.2.3"), Err(ParseNumError::Invalid)));
    assert!(matches!(BigDecimal::from_str("1e"), Err(ParseNumError::Invalid)));
}

#[test]
fn unsigned_bytes_round_trip() {
    for v in [0i64, 1, 127, 128, 255, 256, 1125, 65536] {
        let x = big_int(v);
        let (_, be) = x.to_bytes_be();
        assert!(BigInt::from_unsigned_bytes_be(&be) == x.absolute());
        let (_, le) = x.to_bytes_le();
        assert!(BigInt::from_unsigned_bytes_le(&le) == x.absolute());
    }
    let x = big_int(-1125);
    let (sign, be) = x.to_bytes_be();
    assert!(sign == Sign::Minus);
    assert!(be == vec![4u8, 101]);
    assert!(BigInt::from_unsigned_bytes_be(&be) == x.absolute());
}

#[test]
fn signed_bytes_round_trip() {
    for v in [0i64, 1, -1, 127, 128, -128, -129, 255, 256, -1125, 1125] {
        let x = big_int(v);
        assert!(BigInt::from_signed_bytes_le(&x.to_signed_bytes_le()) == x);
        assert!(BigInt::from_signed_bytes_be(&x.to_signed_bytes_be()) == x);
    }
    assert!(big_int(-1125).to_signed_bytes_le() == vec![155u8, 251]);
    assert!(big_int(-1125).to_signed_bytes_be() == vec![251u8, 155]);
}

#[test]
fn bytes_sign_and_zero_form() {
    let (sign, bytes) = big_int(0).to_bytes_le();
    assert!(sign == Sign::NoSign);
    assert!(bytes == vec![0u8]);
    let (sign, _) = big_int(5).to_bytes_le();
    assert!(sign == Sign::Plus);
}

#[test]
fn new_from_u32_digits() {
    assert!(BigInt::new(Sign::Plus, vec![1, 1]) == BigInt::from_u64(4294967297));
    assert!(BigInt::new(Sign::Minus, vec![5]) == big_int(-5));
    assert!(BigInt::new(Sign::NoSign, vec![7, 9]) == BigInt::zero());
}

#[test]
fn from_bytes_le_applies_sign() {
    assert!(BigInt::from_bytes_le(Sign::Minus, &[101, 4]) == big_int(-1125));
    assert!(BigInt::from_bytes_le(Sign::NoSign, &[9]) == BigInt::zero());
    assert!(BigInt::from_bytes_le(Sign::Plus, &[101, 4]) == big_int(1125));
}

#[test]
fn additive_multiplicative_identity() {
    for v in [0i64, 7, -33] {
        assert!(big_int(v).add(BigInt::zero()) == big_int(v));
        assert!(big_int(v).mul(BigInt::one()) == big_int(v));
    }
    for s in ["0", "-7.25", "1200", "0.004"] {
        assert!(dec(s).add(BigDecimal::zero()) == dec(s));
        assert!(dec(s).mul(BigDecimal::one()) == dec(s));
    }
}

#[test]
fn float_promotion_is_commutative() {
    // An integer combined with a float-derived decimal yields a decimal,
    // whichever side the integer stands on.
    let f = BigDecimal::from_str(&format!("{:.15e}", 2.5f64)).unwrap();
    let left = big_int(2).add_dec(f.clone());
    let right = f.add(big_int(2));
    assert!(left == right);
    assert!(left == dec("4.5"));
}

#[test]
fn scale_insensitive_equality() {
    assert!(BigDecimal::new(big_int(100), 0) == BigDecimal::new(big_int(10), 1));
    assert!(dec("100") == dec("100.00"));
    assert!(dec("1e2") == dec("100"));
    assert!(dec("0.000") == BigDecimal::zero());
}

#[test]
fn decimal_digits_and_zero() {
    assert!(dec("10.01").digits() == 4);
    assert!(BigDecimal::zero().digits() == 1);
    assert!(dec("0.000").is_zero());
    assert!(!dec("0.001").is_zero());
}

#[test]
fn decimal_with_prec_rounds_and_pads() {
    let (u, s) = dec("1250").with_prec(2).as_bigint_and_exponent();
    assert!(u == big_int(13) && s == -2);
    let (u, s) = dec("1240").with_prec(2).as_bigint_and_exponent();
    assert!(u == big_int(12) && s == -2);
    let (u, s) = dec("1.5").with_prec(3).as_bigint_and_exponent();
    assert!(u == big_int(150) && s == 2);
    assert!(dec("1250").with_prec(2) == dec("1300"));
}

#[test]
fn decimal_to_bigint_truncates() {
    assert!(dec("3.7").to_bigint() == big_int(3));
    assert!(dec("-3.7").to_bigint() == big_int(-3));
    assert!(dec("42").to_bigint() == big_int(42));
    assert!(dec("0.9").to_bigint() == big_int(0));
}

#[test]
fn decimal_neg_absolute() {
    assert!(dec("1.5").neg() == dec("-1.5"));
    assert!(dec("-1.5").absolute() == dec("1.5"));
    assert!(big_int(-4).neg() == big_int(4));
    assert!(big_int(-4).absolute() == big_int(4));
}

#[test]
fn decimal_parse_bytes_option() {
    assert!(BigDecimal::parse_bytes(b"13") == Some(BigDecimal::from_i64(13)));
    assert!(BigDecimal::parse_bytes(b"1.5e1") == Some(dec("15")));
    assert!(BigDecimal::parse_bytes(b"13x") == None);
}

#[test]
fn decimal_as_bigint_and_exponent() {
    let (u, s) = dec("1.1").as_bigint_and_exponent();
    assert!(u == big_int(11));
    assert!(s == 1);
}

#[test]
fn integer_shift_and_bit_ops() {
    assert!(big_int(3).shl(2) == big_int(12));
    assert!(big_int(-3).shl(1) == big_int(-6));
    assert!(big_int(-3).shr(1) == big_int(-2));
    assert!(big_int(12).shr(2) == big_int(3));
    assert!(big_int(6).bitand(big_int(3)) == big_int(2));
    assert!(big_int(6).bitor(big_int(3)) == big_int(7));
    assert!(big_int(6).bitxor(big_int(3)) == big_int(5));
}

#[test]
fn integer_assign_ops_match_plain_ops() {
    let mut x = big_int(6);
    x.bitand_assign(&big_int(3));
    assert!(x == big_int(6).bitand(big_int(3)));
    let mut x = big_int(6);
    x.bitor_assign(&big_int(3));
    assert!(x == big_int(6).bitor(big_int(3)));
    let mut x = big_int(6);
    x.bitxor_assign(&big_int(3));
    assert!(x == big_int(6).bitxor(big_int(3)));
    let mut x = big_int(3);
    x.shl_assign(2);
    assert!(x == big_int(3).shl(2));
    let mut x = big_int(-3);
    x.shr_assign(1);
    assert!(x == big_int(-3).shr(1));
}

#[test]
fn integer_pow_and_bits() {
    assert!(big_int(2).pow(10) == big_int(1024));
    assert!(big_int(-2).pow(3) == big_int(-8));
    assert!(big_int(7).pow(0) == BigInt::one());
    assert!(big_int(0).bits() == 0);
    assert!(big_int(1).bits() == 1);
    assert!(big_int(8).bits() == 4);
    assert!(big_int(-8).bits() == 4);
}

#[test]
fn integer_narrowing_in_range() {
    assert!(BigInt::from_u64(7).to_u64() == 7);
    assert!(big_int(-7).to_i32() == -7);
    assert!(big_int(7).to_u32() == 7);
}

#[test]
fn decimal_narrowing_truncates() {
    assert!(dec("3.7").to_u64() == Some(3));
    assert!(dec("3.7").to_i64() == Some(3));
    assert!(dec("-3.7").to_i64() == Some(-3));
    assert!(dec("-0.5").to_u64() == None);
    assert!(dec("0.5").to_u64() == Some(0));
}

#[test]
fn value_based_ordering() {
    assert!(big_int(-2) < big_int(1));
    assert!(!(big_int(1) < big_int(1)));
    assert!(big_int(3) > big_int(2));
    assert!(dec("0.5") < dec("1"));
    assert!(!(dec("1.00") < dec("1")));
    assert!(dec("10.0") > dec("1"));
}

#[test]
fn defaults_are_zero() {
    let x: BigInt = Default::default();
    assert!(x == BigInt::zero());
    let d: BigDecimal = Default::default();
    assert!(d == BigDecimal::zero());
}

#[test]
fn parse_bytes_rejects_non_ascii() {
    assert!(BigDecimal::parse_bytes("é5".as_bytes()) == None);
    assert!(BigDecimal::parse_bytes(&[0xff, 0xfe]) == None);
    assert!(BigDecimal::parse_bytes(&[0xc3, 0xa9]) == None);
}

#[test]
fn parse_safety_screen() {
    assert!(BigDecimal::is_parse_safe("1.5e3"));
    assert!(BigDecimal::is_parse_safe("-120.25"));
    assert!(BigDecimal::is_parse_safe("totally not a number"));
    assert!(BigDecimal::is_parse_safe("1e99999999999999999999999"));
    assert!(!BigDecimal::is_parse_safe("1e-9223372036854775808"));
    let text = "12.5e-2";
    if BigDecimal::is_parse_safe(text) {
        assert!(BigDecimal::from_str(text).unwrap() == dec("0.125"));
    } else {
        unreachable!();
    }
}

#[test]
fn division_exact_when_terminating() {
    assert!(dec("4").div(dec("2")) == dec("2"));
    assert!(dec("1").div(dec("8")) == dec("0.125"));
    assert!(dec("-7.5").div(dec("2.5")) == dec("-3"));
}

#[test]
fn underscores_and_signs_in_literals() {
    assert!(BigInt::from_str("1_000").unwrap() == big_int(1000));
    assert!(BigInt::from_str("+42").unwrap() == big_int(42));
    assert!(BigInt::from_str("-0").unwrap() == BigInt::zero());
}

#[test]
fn integer_is_zero_is_one() {
    assert!(BigInt::zero().is_zero());
    assert!(!BigInt::one().is_zero());
    assert!(BigInt::one().is_one());
    assert!(!big_int(2).is_one());
}

#[test]
fn store_round_trip_through_text() {
    for v in [0i64, 17, -93000] {
        let x = big_int(v);
        assert!(BigInt::from_store_bytes(x.to_string().as_bytes()) == x);
    }
    let d = dec("-12.5");
    assert!(BigDecimal::from_store_bytes(d.to_string().as_bytes()) == d);
}
