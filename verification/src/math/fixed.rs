//! 16.16 fixed-point numbers, as used throughout the engine.
//!
//! A value is a signed 32-bit integer whose high 16 bits hold the integer part
//! and whose low 16 bits hold the fraction.  Multiplication and division keep
//! a 64-bit intermediate and truncate back to 32 bits; addition, subtraction
//! and negation must stay in range.
use vstd::prelude::*;
use vstd::std_specs::ops::{AddSpecImpl, SubSpecImpl, MulSpecImpl, DivSpecImpl, NegSpecImpl};
use vstd::std_specs::convert::FromSpecImpl;

verus! {

/// One unit in the 16.16 representation.
pub const FIXED_UNIT: i32 = 65536;

#[derive(Clone, Copy, Debug, PartialEq, Eq, PartialOrd, Ord, Structural)]
pub struct Fixed(pub i32);

/// Division truncating toward zero, as Rust's `/` does on signed integers.
pub open spec fn trunc_div(a: int, b: int) -> int {
    if a == 0 {
        0
    } else if a > 0 && b > 0 {
        a / b
    } else if a < 0 && b < 0 {
        (-a) / (-b)
    } else if a < 0 {
        -((-a) / b)
    } else {
        -(a / (-b))
    }
}

/// `true` when `v` is representable as an `i32`.
pub open spec fn fits_i32(v: int) -> bool {
    i32::MIN <= v <= i32::MAX
}

/// The product of two 16.16 values: the 64-bit product shifted right by 16
/// (a floor division), then truncated to 32 bits.
pub open spec fn fixed_mul_spec(a: i32, b: i32) -> i32 {
    ((a as int * b as int) / 65536) as i32
}

/// The quotient of two 16.16 values: the dividend shifted left by 16, divided
/// with truncation toward zero, then truncated to 32 bits.
pub open spec fn fixed_div_spec(a: i32, b: i32) -> i32 {
    trunc_div(a as int * 65536, b as int) as i32
}

pub proof fn lemma_shr16_is_floor_i64(p: i64)
    ensures
        (p >> 16u64) as int == p as int / 65536,
{
    assert((p >> 16u64) as int == p as int / 65536) by (bit_vector);
}

pub proof fn lemma_shr16_is_floor_i32(v: i32)
    ensures
        (v >> 16u32) as int == v as int / 65536,
{
    assert((v >> 16u32) as int == v as int / 65536) by (bit_vector);
}

pub proof fn lemma_shl16_i32(i: i32)
    ensures
        (i << 16u32) == (i as int * 65536) as i32,
{
    assert((i << 16u32) == (i as i64 * 65536) as i32) by (bit_vector);
}

pub proof fn lemma_low16_is_mod(v: i32)
    ensures
        (v & 0xFFFFi32) as int == v as int % 65536,
{
    assert((v & 0xFFFFi32) as int == v as int % 65536) by (bit_vector);
}

impl Fixed {
    /// The value 1.0.
    pub fn one() -> (r: Fixed)
        ensures
            r.0 == 65536,
    {
        Fixed(FIXED_UNIT)
    }

    /// The value 0.0.
    pub fn zero() -> (r: Fixed)
        ensures
            r.0 == 0,
    {
        Fixed(0)
    }

    /// Converts an integer to fixed point (`i << 16`, wrapping like the shift).
    pub fn from_int(i: i32) -> (r: Fixed)
        ensures
            r.0 == (i as int * 65536) as i32,
            -32768 <= i <= 32767 ==> r.0 == i * 65536,
    {
        proof {
            lemma_shl16_i32(i);
        }
        Fixed(i << 16u32)
    }

    /// The integer part, rounded toward negative infinity (`self >> 16`).
    pub fn to_int(self) -> (r: i32)
        ensures
            r as int == self.0 as int / 65536,
    {
        let v = self.0;
        proof {
            lemma_shr16_is_floor_i32(v);
        }
        v >> 16u32
    }

    /// The fractional part as a raw value in `0..65536` (`self & 0xFFFF`).
    pub fn frac(self) -> (r: i32)
        ensures
            r as int == self.0 as int % 65536,
            0 <= r < 65536,
    {
        let v = self.0;
        proof {
            lemma_low16_is_mod(v);
        }
        v & 0xFFFFi32
    }

    /// The absolute value.  `i32::MIN` has none and is excluded.
    pub fn abs(self) -> (r: Fixed)
        requires
            self.0 != i32::MIN,
        ensures
            r.0 == (if self.0 < 0 { -self.0 } else { self.0 as int }),
    {
        if self.0 < 0 {
            Fixed(-self.0)
        } else {
            self
        }
    }
}

/// Converting an integer of the 16-bit range to fixed point and taking the
/// integer part gives it back; so does the fraction-free value itself.
pub proof fn law_int_round_trip(i: i32)
    requires
        -32768 <= i <= 32767,
    ensures
        ((i as int * 65536) as i32) as int / 65536 == i,
        ((i as int * 65536) as i32) as int % 65536 == 0,
{
    assert((i as int * 65536) as i32 == i * 65536);
}

impl Default for Fixed {
    fn default() -> (r: Fixed)
        ensures
            r.0 == 0,
    {
        Fixed(0)
    }
}

impl core::ops::Add for Fixed {
    type Output = Fixed;

    fn add(self, rhs: Fixed) -> (r: Fixed) {
        Fixed(self.0 + rhs.0)
    }
}

impl AddSpecImpl for Fixed {
    open spec fn obeys_add_spec() -> bool {
        true
    }

    open spec fn add_req(self, rhs: Fixed) -> bool {
        fits_i32(self.0 + rhs.0)
    }

    open spec fn add_spec(self, rhs: Fixed) -> Fixed {
        Fixed((self.0 + rhs.0) as i32)
    }
}

impl core::ops::Sub for Fixed {
    type Output = Fixed;

    fn sub(self, rhs: Fixed) -> (r: Fixed) {
        Fixed(self.0 - rhs.0)
    }
}

impl SubSpecImpl for Fixed {
    open spec fn obeys_sub_spec() -> bool {
        true
    }

    open spec fn sub_req(self, rhs: Fixed) -> bool {
        fits_i32(self.0 - rhs.0)
    }

    open spec fn sub_spec(self, rhs: Fixed) -> Fixed {
        Fixed((self.0 - rhs.0) as i32)
    }
}

impl core::ops::Neg for Fixed {
    type Output = Fixed;

    fn neg(self) -> (r: Fixed) {
        Fixed(-self.0)
    }
}

impl NegSpecImpl for Fixed {
    open spec fn obeys_neg_spec() -> bool {
        true
    }

    open spec fn neg_req(self) -> bool {
        self.0 != i32::MIN
    }

    open spec fn neg_spec(self) -> Fixed {
        Fixed((-self.0) as i32)
    }
}

impl core::ops::Mul for Fixed {
    type Output = Fixed;

    fn mul(self, rhs: Fixed) -> (r: Fixed) {
        let a: i64 = self.0 as i64;
        let b: i64 = rhs.0 as i64;
        assert(-0x4000_0000_0000_0000 <= a * b <= 0x4000_0000_0000_0000) by (nonlinear_arith)
            requires
                -0x8000_0000 <= a <= 0x7fff_ffff,
                -0x8000_0000 <= b <= 0x7fff_ffff,
        ;
        let p: i64 = a * b;
        proof {
            lemma_shr16_is_floor_i64(p);
        }
        Fixed(#[verifier::truncate] ((p >> 16u64) as i32))
    }
}

impl MulSpecImpl for Fixed {
    open spec fn obeys_mul_spec() -> bool {
        true
    }

    open spec fn mul_req(self, rhs: Fixed) -> bool {
        true
    }

    open spec fn mul_spec(self, rhs: Fixed) -> Fixed {
        Fixed(fixed_mul_spec(self.0, rhs.0))
    }
}

impl core::ops::Div for Fixed {
    type Output = Fixed;

    fn div(self, rhs: Fixed) -> (r: Fixed) {
        let num: i64 = self.0 as i64 * 65536;
        match num.checked_div(rhs.0 as i64) {
            Some(q) => Fixed(#[verifier::truncate] (q as i32)),
            None => Fixed(0),
        }
    }
}

impl DivSpecImpl for Fixed {
    open spec fn obeys_div_spec() -> bool {
        true
    }

    open spec fn div_req(self, rhs: Fixed) -> bool {
        rhs.0 != 0
    }

    open spec fn div_spec(self, rhs: Fixed) -> Fixed {
        Fixed(fixed_div_spec(self.0, rhs.0))
    }
}

impl From<i32> for Fixed {
    fn from(i: i32) -> (r: Fixed) {
        Fixed::from_int(i)
    }
}

impl FromSpecImpl<i32> for Fixed {
    open spec fn obeys_from_spec() -> bool {
        true
    }

    open spec fn from_spec(i: i32) -> Fixed {
        Fixed((i as int * 65536) as i32)
    }
}

} // verus!
