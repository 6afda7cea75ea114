//! Binary64 numbers carried as bit patterns.
//!
//! Every number the engine handles is an IEEE-754 binary64 value. The engine
//! never inspects a number beyond its sign, its ordering and whether it is a
//! NaN, so a number is stored as the 64 bits of its encoding. Ordering,
//! negation and the handful of constants the engine needs are defined on the
//! bits directly. Rounded arithmetic and conversions are delegated to the
//! `rustc_apfloat` software implementation, whose results are referred to in
//! contracts by name.
use rustc_apfloat::ieee::Double;
use rustc_apfloat::Float;
use rustc_apfloat::Round;
use vstd::prelude::*;

verus! {

/// What `rustc_apfloat` gives for the sum of the numbers encoded by `a` and
/// `b`, rounded to nearest with ties to even, as an encoding.
pub uninterp spec fn f64_add(a: u64, b: u64) -> u64;

/// What `rustc_apfloat` gives for the difference `a - b`, rounded to
/// nearest with ties to even.
pub uninterp spec fn f64_sub(a: u64, b: u64) -> u64;

/// What `rustc_apfloat` gives for the product of `a` and `b`, rounded to
/// nearest with ties to even.
pub uninterp spec fn f64_mul(a: u64, b: u64) -> u64;

/// What `rustc_apfloat` gives for the quotient `a / b`, rounded to nearest
/// with ties to even. Division by zero yields an infinity or a NaN.
pub uninterp spec fn f64_div(a: u64, b: u64) -> u64;

/// What `rustc_apfloat` gives for the number nearest to the unsigned
/// integer `n`, ties to even.
pub uninterp spec fn f64_from_count(n: u64) -> u64;

/// What `rustc_apfloat` gives for the number nearest to the signed integer
/// `n`, ties to even.
pub uninterp spec fn f64_from_integer(n: i64) -> u64;

/// What `rustc_apfloat` reads `text` as, or `None` where it rejects the
/// text. A decimal numeral such as `12.5` is read as the number nearest to
/// it, ties to even. The reader also takes a sign, an exponent, hexadecimal
/// notation, `inf` and `nan`.
pub uninterp spec fn f64_from_decimal(text: Seq<char>) -> Option<u64>;

/// Calls `rustc_apfloat`'s `Add` on two `ieee::Double` values rebuilt from
/// their encodings. The implementation is a pure function of its operands,
/// so the result is the named value `f64_add`.
#[verifier::external_body]
fn apfloat_add(a: u64, b: u64) -> (r: u64)
    ensures
        r == f64_add(a, b),
{
    (Double::from_bits(a as u128) + Double::from_bits(b as u128)).value.to_bits() as u64
}

/// Calls `rustc_apfloat`'s `Sub` on two `ieee::Double` values; the result is
/// the named value `f64_sub`.
#[verifier::external_body]
fn apfloat_sub(a: u64, b: u64) -> (r: u64)
    ensures
        r == f64_sub(a, b),
{
    (Double::from_bits(a as u128) - Double::from_bits(b as u128)).value.to_bits() as u64
}

/// Calls `rustc_apfloat`'s `Mul` on two `ieee::Double` values; the result is
/// the named value `f64_mul`.
#[verifier::external_body]
fn apfloat_mul(a: u64, b: u64) -> (r: u64)
    ensures
        r == f64_mul(a, b),
{
    (Double::from_bits(a as u128) * Double::from_bits(b as u128)).value.to_bits() as u64
}

/// Calls `rustc_apfloat`'s `Div` on two `ieee::Double` values; the result is
/// the named value `f64_div`. The call returns for every pair of operands:
/// a zero divisor sets a status flag and yields an infinity or a NaN.
#[verifier::external_body]
fn apfloat_div(a: u64, b: u64) -> (r: u64)
    ensures
        r == f64_div(a, b),
{
    (Double::from_bits(a as u128) / Double::from_bits(b as u128)).value.to_bits() as u64
}

/// Calls `rustc_apfloat`'s `Float::from_u128` for `ieee::Double`; the result
/// is the named value `f64_from_count`.
#[verifier::external_body]
fn apfloat_from_count(n: u64) -> (r: u64)
    ensures
        r == f64_from_count(n),
{
    Double::from_u128(n as u128).value.to_bits() as u64
}

/// Calls `rustc_apfloat`'s `Float::from_i128` for `ieee::Double`; the result
/// is the named value `f64_from_integer`.
#[verifier::external_body]
fn apfloat_from_integer(n: i64) -> (r: u64)
    ensures
        r == f64_from_integer(n),
{
    Double::from_i128(n as i128).value.to_bits() as u64
}

/// Calls `rustc_apfloat`'s `Float::from_str_r` for `ieee::Double` with
/// rounding to nearest, ties to even. The outcome depends on the characters
/// of `text` alone; a text the parser rejects gives `None`.
#[verifier::external_body]
fn apfloat_from_decimal(text: &str) -> (r: Option<u64>)
    ensures
        r == f64_from_decimal(text@),
{
    match Double::from_str_r(text, Round::NearestTiesToEven) {
        Ok(parsed) => Some(parsed.value.to_bits() as u64),
        Err(_) => None,
    }
}

/// Encoding of the sign bit alone: negative zero.
pub const SIGN_BIT: u64 = 0x8000_0000_0000_0000;

/// Encoding of positive infinity. Every larger magnitude encodes a NaN.
pub const INFINITY_BITS: u64 = 0x7FF0_0000_0000_0000;

/// A binary64 number, identified by the 64 bits of its IEEE-754 encoding.
///
/// `==` on `Scalar` compares encodings: the two zeros differ, and a NaN
/// equals itself. Numeric comparison is [`Scalar::lt`].
#[derive(Clone, Copy, Debug, PartialEq, Eq, Structural)]
pub struct Scalar {
    pub bits: u64,
}

impl Scalar {
    /// The encoding without its sign bit.
    pub open spec fn magnitude(self) -> int {
        if self.bits >= SIGN_BIT {
            self.bits - SIGN_BIT
        } else {
            self.bits as int
        }
    }

    /// Whether the sign bit is set.
    pub open spec fn is_negative(self) -> bool {
        self.bits >= SIGN_BIT
    }

    /// Whether the encoding is a NaN: exponent all ones, fraction non-zero.
    pub open spec fn is_nan(self) -> bool {
        self.magnitude() > INFINITY_BITS
    }

    /// Whether the number is a zero of either sign.
    pub open spec fn is_zero(self) -> bool {
        self.magnitude() == 0
    }

    /// Position on the number line of a number that is not a NaN: an integer
    /// that grows with the encoded value. Both zeros have rank 0.
    pub open spec fn rank(self) -> int {
        if self.is_negative() {
            -self.magnitude()
        } else {
            self.magnitude()
        }
    }

    /// Numeric `<`: false when either side is a NaN, otherwise the order of
    /// the encoded values.
    pub open spec fn less_than(self, other: Scalar) -> bool {
        !self.is_nan() && !other.is_nan() && self.rank() < other.rank()
    }

    /// The encoding with its sign bit flipped.
    pub open spec fn negated(self) -> Scalar {
        if self.bits >= SIGN_BIT {
            Scalar { bits: (self.bits - SIGN_BIT) as u64 }
        } else {
            Scalar { bits: (self.bits + SIGN_BIT) as u64 }
        }
    }

    pub open spec fn sum(self, rhs: Scalar) -> Scalar {
        Scalar { bits: f64_add(self.bits, rhs.bits) }
    }

    pub open spec fn difference(self, rhs: Scalar) -> Scalar {
        Scalar { bits: f64_sub(self.bits, rhs.bits) }
    }

    pub open spec fn product(self, rhs: Scalar) -> Scalar {
        Scalar { bits: f64_mul(self.bits, rhs.bits) }
    }

    pub open spec fn quotient(self, rhs: Scalar) -> Scalar {
        Scalar { bits: f64_div(self.bits, rhs.bits) }
    }

    /// The number nearest to the count `n`.
    pub open spec fn of_count(n: nat) -> Scalar {
        Scalar { bits: f64_from_count(n as u64) }
    }

    /// The number nearest to the integer `n`.
    pub open spec fn of_integer(n: i64) -> Scalar {
        Scalar { bits: f64_from_integer(n) }
    }

    /// The number a text is read as, if it is read as one.
    pub open spec fn of_decimal(text: Seq<char>) -> Option<Scalar> {
        match f64_from_decimal(text) {
            Some(bits) => Some(Scalar { bits }),
            None => None,
        }
    }

    /// Positive zero.
    pub open spec fn zero() -> Scalar {
        Scalar { bits: 0 }
    }

    /// The number one.
    pub open spec fn one() -> Scalar {
        Scalar { bits: 0x3FF0_0000_0000_0000 }
    }

    /// The largest finite number.
    pub open spec fn max_finite() -> Scalar {
        Scalar { bits: 0x7FEF_FFFF_FFFF_FFFF }
    }

    /// The most negative finite number.
    pub open spec fn min_finite() -> Scalar {
        Scalar { bits: 0xFFEF_FFFF_FFFF_FFFF }
    }

    pub fn from_bits(bits: u64) -> (r: Scalar)
        ensures
            r.bits == bits,
    {
        Scalar { bits }
    }

    pub fn to_bits(self) -> (r: u64)
        ensures
            r == self.bits,
    {
        self.bits
    }

    /// Positive zero.
    pub fn new_zero() -> (r: Scalar)
        ensures
            r == Scalar::zero(),
    {
        Scalar { bits: 0 }
    }

    /// The number one.
    pub fn new_one() -> (r: Scalar)
        ensures
            r == Scalar::one(),
    {
        Scalar { bits: 0x3FF0_0000_0000_0000 }
    }

    /// The largest finite number, about 1.8e308.
    pub fn new_max_finite() -> (r: Scalar)
        ensures
            r == Scalar::max_finite(),
    {
        Scalar { bits: 0x7FEF_FFFF_FFFF_FFFF }
    }

    /// The most negative finite number.
    pub fn new_min_finite() -> (r: Scalar)
        ensures
            r == Scalar::min_finite(),
    {
        Scalar { bits: 0xFFEF_FFFF_FFFF_FFFF }
    }

    pub fn check_nan(self) -> (r: bool)
        ensures
            r == self.is_nan(),
    {
        if self.bits >= SIGN_BIT {
            self.bits - SIGN_BIT > INFINITY_BITS
        } else {
            self.bits > INFINITY_BITS
        }
    }

    /// Numeric `== 0`: true of both zeros.
    pub fn check_zero(self) -> (r: bool)
        ensures
            r == self.is_zero(),
    {
        self.bits == 0 || self.bits == SIGN_BIT
    }

    /// Numeric `<` on two numbers.
    pub fn lt(self, other: Scalar) -> (r: bool)
        ensures
            r == self.less_than(other),
    {
        if self.check_nan() || other.check_nan() {
            return false;
        }
        let self_negative = self.bits >= SIGN_BIT;
        let other_negative = other.bits >= SIGN_BIT;
        if self_negative {
            let self_mag: u64 = self.bits - SIGN_BIT;
            if other_negative {
                let other_mag: u64 = other.bits - SIGN_BIT;
                self_mag > other_mag
            } else {
                self_mag != 0 || other.bits != 0
            }
        } else {
            if other_negative {
                false
            } else {
                self.bits < other.bits
            }
        }
    }

    /// Numeric `>`: `other < self`.
    pub fn gt(self, other: Scalar) -> (r: bool)
        ensures
            r == other.less_than(self),
    {
        other.lt(self)
    }

    /// Sign flip; exact for every encoding, NaNs included.
    pub fn neg(self) -> (r: Scalar)
        ensures
            r == self.negated(),
    {
        if self.bits >= SIGN_BIT {
            Scalar { bits: self.bits - SIGN_BIT }
        } else {
            Scalar { bits: self.bits + SIGN_BIT }
        }
    }

    pub fn plus(self, rhs: Scalar) -> (r: Scalar)
        ensures
            r == self.sum(rhs),
    {
        Scalar { bits: apfloat_add(self.bits, rhs.bits) }
    }

    pub fn minus(self, rhs: Scalar) -> (r: Scalar)
        ensures
            r == self.difference(rhs),
    {
        Scalar { bits: apfloat_sub(self.bits, rhs.bits) }
    }

    pub fn times(self, rhs: Scalar) -> (r: Scalar)
        ensures
            r == self.product(rhs),
    {
        Scalar { bits: apfloat_mul(self.bits, rhs.bits) }
    }

    pub fn divided_by(self, rhs: Scalar) -> (r: Scalar)
        ensures
            r == self.quotient(rhs),
    {
        Scalar { bits: apfloat_div(self.bits, rhs.bits) }
    }

    /// The number nearest to a count of items.
    pub fn from_count(n: usize) -> (r: Scalar)
        ensures
            r == Scalar::of_count(n as nat),
    {
        Scalar { bits: apfloat_from_count(n as u64) }
    }

    /// The number nearest to a signed integer.
    pub fn from_integer(n: i64) -> (r: Scalar)
        ensures
            r == Scalar::of_integer(n),
    {
        Scalar { bits: apfloat_from_integer(n) }
    }

    /// Reads a number from text. The scanner hands this function decimal
    /// numerals only; see [`f64_from_decimal`] for what else is read.
    pub fn from_decimal(text: &str) -> (r: Option<Scalar>)
        ensures
            r == Scalar::of_decimal(text@),
    {
        match apfloat_from_decimal(text) {
            Some(bits) => Some(Scalar { bits }),
            None => None,
        }
    }
}

} // verus!
