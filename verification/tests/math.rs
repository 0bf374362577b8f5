use wolf3d_rs::math::fixed::Fixed;
use wolf3d_rs::math::tables::{TrigTables, FINEANGLES};

#[test]
fn round_trip_int() {
    assert_eq!(Fixed::from_int(5).to_int(), 5);
    assert_eq!(Fixed::from_int(-3).to_int(), -3);
}

#[test]
fn mul_fixed() {
    let a = Fixed::from_int(2);
    let b = Fixed((1.5f32 * 65536.0) as i32);
    let result = (a * b).0 as f32 / 65536.0;
    assert!((result - 3.0).abs() < 0.001);
}

#[test]
fn add_fixed() {
    let a = Fixed::from_int(1);
    let b = Fixed::from_int(2);
    assert_eq!((a + b).to_int(), 3);
}

#[test]
fn fixed_constants_and_conversions() {
    assert_eq!(Fixed::one(), Fixed(65536));
    assert_eq!(Fixed::zero(), Fixed(0));
    assert_eq!(Fixed::default(), Fixed(0));
    assert_eq!(Fixed::from(7), Fixed(7 * 65536));
    assert_eq!(Fixed::from_int(-1), Fixed(-65536));
}

#[test]
fn fixed_floor_and_fraction() {
    // to_int rounds toward negative infinity, frac keeps the low 16 bits.
    assert_eq!(Fixed(-1).to_int(), -1);
    assert_eq!(Fixed(-1).frac(), 0xFFFF);
    assert_eq!(Fixed(0x0003_8000).to_int(), 3);
    assert_eq!(Fixed(0x0003_8000).frac(), 0x8000);
}

#[test]
fn fixed_sub_neg_abs() {
    assert_eq!(Fixed::from_int(5) - Fixed::from_int(7), Fixed::from_int(-2));
    assert_eq!(-Fixed::from_int(4), Fixed::from_int(-4));
    assert_eq!(Fixed(-12345).abs(), Fixed(12345));
    assert_eq!(Fixed(12345).abs(), Fixed(12345));
}

#[test]
fn fixed_mul_and_div_exact_values() {
    // 2.5 * -1.5 = -3.75; the 64-bit product is shifted right (floor).
    assert_eq!(Fixed(163840) * Fixed(-98304), Fixed(-245760));
    // 1 / 3 truncates toward zero.
    assert_eq!(Fixed::from_int(1) / Fixed::from_int(3), Fixed(21845));
    assert_eq!(Fixed::from_int(-1) / Fixed::from_int(3), Fixed(-21845));
    // Floor of a negative product: -1 * (1/65536) = -1/65536 exactly.
    assert_eq!(Fixed(-65536) * Fixed(1), Fixed(-1));
    assert_eq!(Fixed(-1) * Fixed(1), Fixed(-1));
}

fn tables() -> TrigTables {
    let mut sin = Vec::new();
    let mut cos = Vec::new();
    let mut tan = Vec::new();
    for i in 0..FINEANGLES {
        sin.push(Fixed(i as i32));
        cos.push(Fixed(-(i as i32)));
        tan.push(Fixed(2 * i as i32));
    }
    let finetangent = tan.clone();
    TrigTables { sin, cos, tan, finetangent }
}

#[test]
fn trig_lookup_wraps_a_full_turn() {
    let t = tables();
    assert_eq!(t.sin(10), Fixed(10));
    assert_eq!(t.sin(10 + FINEANGLES), Fixed(10));
    assert_eq!(t.cos(3599), Fixed(-3599));
    assert_eq!(t.cos(3600 * 3 + 1), Fixed(-1));
    assert_eq!(t.tan(7201), Fixed(2));
}
