use substreams::{BigDecimal, BigInt, IntOperand};

fn big_decimal(input: f64) -> BigDecimal {
    BigDecimal::from_str(&format!("{:.15e}", input)).unwrap()
}

fn big_decimal_f32(input: f32) -> BigDecimal {
    BigDecimal::from_str(&format!("{:.6e}", input)).unwrap()
}

fn big_uint(input: u64) -> BigInt {
    BigInt::from_u64(input)
}

fn big_int(input: i64) -> BigInt {
    BigInt::from_i64(input)
}

#[test]
fn bigint_op_int() {
    assert!(big_int(1).add(1 as i32) == big_int(2));
    assert!(big_int(1).add(1 as i64) == big_int(2));
    assert!(big_int(1).add(1 as u32) == big_int(2));
    assert!(big_int(1).add(1 as u64) == big_int(2));
    assert!(big_int(1).add(1 as isize) == big_int(2));
    assert!(big_int(1).add(1 as usize) == big_int(2));
    assert!(big_int(1).add(1) == big_int(2));
    assert!(big_int(1).sub(1 as i32) == big_int(0));
    assert!(big_int(1).sub(1 as i64) == big_int(0));
    assert!(big_int(1).sub(1 as u32) == big_int(0));
    assert!(big_int(1).sub(1 as u64) == big_int(0));
    assert!(big_int(1).sub(1 as isize) == big_int(0));
    assert!(big_int(1).sub(1 as usize) == big_int(0));
    assert!(big_int(1).sub(1) == big_int(0));
    assert!(big_int(2).mul(2 as i32) == big_int(4));
    assert!(big_int(2).mul(2 as i64) == big_int(4));
    assert!(big_int(2).mul(2 as u32) == big_int(4));
    assert!(big_int(2).mul(2 as u64) == big_int(4));
    assert!(big_int(2).mul(2 as isize) == big_int(4));
    assert!(big_int(2).mul(2 as usize) == big_int(4));
    assert!(big_int(2).mul(2) == big_int(4));
    assert!(big_int(4).div(2 as i32) == big_int(2));
    assert!(big_int(4).div(2 as i64) == big_int(2));
    assert!(big_int(4).div(2 as u32) == big_int(2));
    assert!(big_int(4).div(2 as u64) == big_int(2));
    assert!(big_int(4).div(2 as isize) == big_int(2));
    assert!(big_int(4).div(2 as usize) == big_int(2));
    assert!(big_int(4).div(2) == big_int(2));
    assert!(big_int(3).div(2 as i32) == big_int(1));
    assert!(big_int(3).div(2 as i64) == big_int(1));
    assert!(big_int(3).div(2 as u32) == big_int(1));
    assert!(big_int(3).div(2 as u64) == big_int(1));
    assert!(big_int(3).div(2 as isize) == big_int(1));
    assert!(big_int(3).div(2 as usize) == big_int(1));
    assert!(big_int(3).div(2) == big_int(1));
}

#[test]
fn big_uint_minus_int_is_signed() {
    assert!(big_uint(1).sub(2 as i32) == big_int(-1));
    assert!(big_uint(1).sub(2 as i64) == big_int(-1));
    assert!(big_uint(1).sub(2 as u32) == big_int(-1));
    assert!(big_uint(1).sub(2 as u64) == big_int(-1));
    assert!(big_uint(1).sub(2 as isize) == big_int(-1));
    assert!(big_uint(1).sub(2 as usize) == big_int(-1));
    assert!(big_uint(1).sub(2) == big_int(-1));
}

#[test]
fn int_op_bigint() {
    // BitAnd
    assert!((1 as i32).to_big_int().bitand(big_int(1)) == big_int(1));
    assert!((1 as i64).to_big_int().bitand(big_int(1)) == big_int(1));
    assert!((1 as u32).to_big_int().bitand(big_int(1)) == big_int(1));
    assert!((1 as u64).to_big_int().bitand(big_int(1)) == big_int(1));
    assert!((1 as isize).to_big_int().bitand(big_int(1)) == big_int(1));
    assert!((1 as usize).to_big_int().bitand(big_int(1)) == big_int(1));
    assert!(big_int(1).bitand(1 as i32) == big_int(1));
    assert!(big_int(1).bitand(1 as i64) == big_int(1));
    assert!(big_int(1).bitand(1 as u32) == big_int(1));
    assert!(big_int(1).bitand(1 as u64) == big_int(1));
    assert!(big_int(1).bitand(1 as isize) == big_int(1));
    assert!(big_int(1).bitand(1 as usize) == big_int(1));
    assert!(big_int(1).bitand(big_int(1)) == big_int(1));
    assert!(big_int(1).bitand(big_int(1).clone()) == big_int(1));
    assert!(big_int(1).clone().bitand(big_int(1)) == big_int(1));
    assert!(big_int(1).clone().bitand(big_int(1).clone()) == big_int(1));

    // BitOr
    assert!((1 as i32).to_big_int().bitor(big_int(1)) == big_int(1));
    assert!((1 as i64).to_big_int().bitor(big_int(1)) == big_int(1));
    assert!((1 as u32).to_big_int().bitor(big_int(1)) == big_int(1));
    assert!((1 as u64).to_big_int().bitor(big_int(1)) == big_int(1));
    assert!((1 as isize).to_big_int().bitor(big_int(1)) == big_int(1));
    assert!((1 as usize).to_big_int().bitor(big_int(1)) == big_int(1));
    assert!(big_int(1).bitor(1 as i32) == big_int(1));
    assert!(big_int(1).bitor(1 as i64) == big_int(1));
    assert!(big_int(1).bitor(1 as u32) == big_int(1));
    assert!(big_int(1).bitor(1 as u64) == big_int(1));
    assert!(big_int(1).bitor(1 as isize) == big_int(1));
    assert!(big_int(1).bitor(1 as usize) == big_int(1));
    assert!(big_int(1).bitor(big_int(1)) == big_int(1));
    assert!(big_int(1).bitor(big_int(1).clone()) == big_int(1));
    assert!(big_int(1).clone().bitor(big_int(1)) == big_int(1));
    assert!(big_int(1).clone().bitor(big_int(1).clone()) == big_int(1));

    // BitXor
    assert!((1 as i32).to_big_int().bitxor(big_int(1)) == big_int(0));
    assert!((1 as i64).to_big_int().bitxor(big_int(1)) == big_int(0));
    assert!((1 as u32).to_big_int().bitxor(big_int(1)) == big_int(0));
    assert!((1 as u64).to_big_int().bitxor(big_int(1)) == big_int(0));
    assert!((1 as isize).to_big_int().bitxor(big_int(1)) == big_int(0));
    assert!((1 as usize).to_big_int().bitxor(big_int(1)) == big_int(0));
    assert!(big_int(1).bitxor(1 as i32) == big_int(0));
    assert!(big_int(1).bitxor(1 as i64) == big_int(0));
    assert!(big_int(1).bitxor(1 as u32) == big_int(0));
    assert!(big_int(1).bitxor(1 as u64) == big_int(0));
    assert!(big_int(1).bitxor(1 as isize) == big_int(0));
    assert!(big_int(1).bitxor(1 as usize) == big_int(0));
    assert!(big_int(1).bitxor(big_int(1)) == big_int(0));
    assert!(big_int(1).bitxor(big_int(1).clone()) == big_int(0));
    assert!(big_int(1).clone().bitxor(big_int(1)) == big_int(0));
    assert!(big_int(1).clone().bitxor(big_int(1).clone()) == big_int(0));

    // Shr
    assert!(big_int(1).shr(1) == big_int(0));
    assert!(big_int(1).clone().shr(1) == big_int(0));

    // Shl
    assert!(big_int(1).shl(1) == big_int(2));
    assert!(big_int(1).clone().shl(1) == big_int(2));

    assert!((1 as i32).to_big_int().add(big_int(1)) == big_int(2));
    assert!((1 as i64).to_big_int().add(big_int(1)) == big_int(2));
    assert!((1 as u32).to_big_int().add(big_int(1)) == big_int(2));
    assert!((1 as u64).to_big_int().add(big_int(1)) == big_int(2));
    assert!((1 as isize).to_big_int().add(big_int(1)) == big_int(2));
    assert!((1 as usize).to_big_int().add(big_int(1)) == big_int(2));
    assert!((1 as i32).to_big_int().sub(big_int(1)) == big_int(0));
    assert!((1 as i64).to_big_int().sub(big_int(1)) == big_int(0));
    assert!((1 as u32).to_big_int().sub(big_int(1)) == big_int(0));
    assert!((1 as u64).to_big_int().sub(big_int(1)) == big_int(0));
    assert!((1 as isize).to_big_int().sub(big_int(1)) == big_int(0));
    assert!((1 as usize).to_big_int().sub(big_int(1)) == big_int(0));
    assert!((2 as i32).to_big_int().mul(big_int(2)) == big_int(4));
    assert!((2 as i64).to_big_int().mul(big_int(2)) == big_int(4));
    assert!((2 as u32).to_big_int().mul(big_int(2)) == big_int(4));
    assert!((2 as u64).to_big_int().mul(big_int(2)) == big_int(4));
    assert!((2 as isize).to_big_int().mul(big_int(2)) == big_int(4));
    assert!((2 as usize).to_big_int().mul(big_int(2)) == big_int(4));
    assert!((4 as i32).to_big_int().div(big_int(2)) == big_int(2));
    assert!((4 as i64).to_big_int().div(big_int(2)) == big_int(2));
    assert!((4 as u32).to_big_int().div(big_int(2)) == big_int(2));
    assert!((4 as u64).to_big_int().div(big_int(2)) == big_int(2));
    assert!((4 as isize).to_big_int().div(big_int(2)) == big_int(2));
    assert!((4 as usize).to_big_int().div(big_int(2)) == big_int(2));
    assert!((3 as i32).to_big_int().div(big_int(2)) == big_int(1));
    assert!((3 as i64).to_big_int().div(big_int(2)) == big_int(1));
    assert!((3 as u32).to_big_int().div(big_int(2)) == big_int(1));
    assert!((3 as u64).to_big_int().div(big_int(2)) == big_int(1));
    assert!((3 as isize).to_big_int().div(big_int(2)) == big_int(1));
    assert!((3 as usize).to_big_int().div(big_int(2)) == big_int(1));
}

#[test]
fn bigint_div_rem_by_bigint() {
    assert!(BigInt::div_rem(&big_int(3), &big_int(2)) == (big_int(1), big_int(1)));
    assert!(BigInt::div_rem(&big_int(10), &big_int(3)) == (big_int(3), big_int(1)));
    assert!(BigInt::div_rem(&big_int(7), &big_int(15)) == (big_int(0), big_int(7)));
    assert!(BigInt::div_rem(&big_int(8), &big_int(8)) == (big_int(1), big_int(0)));
    assert!(BigInt::div_rem(&big_int(-20), &big_int(5)) == (big_int(-4), big_int(0)));
    assert!(BigInt::div_rem(&big_int(0), &big_int(2)) == (big_int(0), big_int(0)));
}

#[test]
fn bigint_op_float() {
    assert!(big_int(1).add_dec(big_decimal(1.0)) == big_decimal(2.0));
    assert!(big_int(1).add_dec(big_decimal_f32(1.0)) == big_decimal(2.0));
    assert!(big_int(1).sub_dec(big_decimal(1.0)) == big_decimal(0.0));
    assert!(big_int(1).sub_dec(big_decimal_f32(1.0)) == big_decimal(0.0));
    assert!(big_int(2).mul_dec(big_decimal(2.0)) == big_decimal(4.0));
    assert!(big_int(2).mul_dec(big_decimal_f32(2.0)) == big_decimal(4.0));
    assert!(big_int(4).div_dec(big_decimal(2.0)) == big_decimal(2.0));
    assert!(big_int(4).div_dec(big_decimal_f32(2.0)) == big_decimal(2.0));
}

#[test]
fn float_op_bigint() {
    assert!(big_decimal(1.0).add(big_int(1)) == big_decimal(2.0));
    assert!(big_decimal_f32(1.0).add(big_int(1)) == big_decimal(2.0));
    assert!(big_decimal(1.0).sub(big_int(1)) == big_decimal(0.0));
    assert!(big_decimal_f32(1.0).sub(big_int(1)) == big_decimal(0.0));
    assert!(big_decimal(2.0).mul(big_int(2)) == big_decimal(4.0));
    assert!(big_decimal_f32(2.0).mul(big_int(2)) == big_decimal(4.0));
    assert!(big_decimal(4.0).div(big_int(2)) == big_decimal(2.0));
    assert!(big_decimal_f32(4.0).div(big_int(2)) == big_decimal(2.0));
}

#[test]
fn bigint_op_bigdecimal() {
    assert!(big_int(1).add_dec(big_decimal(1.0)) == big_decimal(2.0));
    assert!(big_int(1).sub_dec(big_decimal(1.0)) == big_decimal(0.0));
    assert!(big_int(2).mul_dec(big_decimal(2.0)) == big_decimal(4.0));
    assert!(big_int(4).div_dec(big_decimal(2.0)) == big_decimal(2.0));
}

#[test]
fn bigdecimal_op_bigint() {
    assert!(big_decimal(1.0).add(big_int(1)) == big_decimal(2.0));
    assert!(big_decimal(1.0).sub(big_int(1)) == big_decimal(0.0));
    assert!(big_decimal(2.0).mul(big_int(2)) == big_decimal(4.0));
    assert!(big_decimal(4.0).div(big_int(2)) == big_decimal(2.0));
}

#[test]
fn bigint_bitshift() {
    let x = big_uint(0).bitand(big_uint(1));
    assert!(big_uint(0) == x);
}

#[test]
fn bigint_divide_by_decimals() {
    assert!(big_uint(50000).to_decimal(3) == big_decimal(50.0));

    assert!(big_uint(112000000).to_decimal(5) == big_decimal(1120.0));

    assert!(big_uint(11205450180000000000).to_decimal(18) == big_decimal(11.20545018));

    assert!(big_uint(112054501800000000).to_decimal(18) == big_decimal(0.1120545018));

    assert!(big_uint(11205450180000000000).to_decimal(20) == big_decimal(0.1120545018));
}

#[test]
fn bigdecimal_divide_by_decimals() {
    assert!(BigDecimal::divide_by_decimals(big_decimal(50000.0), 3) == big_decimal(50.0));

    assert!(BigDecimal::divide_by_decimals(big_decimal(112000000.5), 5) == big_decimal(1120.000005));

    assert!(
        BigDecimal::divide_by_decimals(big_decimal(11205450180000000000.51), 18)
            == big_decimal(11.20545018)
    );

    assert!(
        BigDecimal::divide_by_decimals(big_decimal(112054501800000000.51), 18)
            == big_decimal(0.1120545018)
    );

    assert!(
        BigDecimal::divide_by_decimals(big_decimal(11205450180000000000.51), 20)
            == big_decimal(0.1120545018)
    );
}
