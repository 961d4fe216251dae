//! Decimal numbers: a 96-bit integer mantissa and a power-of-ten scale.
//!
//! A [`Decimal`] holds the plain parts of a `rust_decimal::Decimal`; every operation whose
//! result may have to be rounded is computed by that crate.

use vstd::prelude::*;

verus! {

/// The largest magnitude of a mantissa.
pub const MAX_MANTISSA: i128 = 79_228_162_514_264_337_593_543_950_335;

/// The largest number of fractional digits.
pub const MAX_SCALE: u32 = 28;

/// `10` to the power of `n`.
pub open spec fn pow10(n: nat) -> int
    decreases n,
{
    if n == 0 {
        1
    } else {
        10 * pow10((n - 1) as nat)
    }
}

/// `mantissa` and `scale` are the parts of a decimal number.
pub open spec fn decimal_parts(mantissa: i128, scale: u32) -> bool {
    -MAX_MANTISSA <= mantissa <= MAX_MANTISSA && scale <= MAX_SCALE
}

/// The number with the given parts, in units of `10` to the power of minus [`MAX_SCALE`].
pub open spec fn parts_units(mantissa: i128, scale: u32) -> int {
    mantissa * pow10((MAX_SCALE - scale) as nat)
}

/// The number with the given parts, where there are any, in the same units.
pub open spec fn units_of_parts(parts: Option<(i128, u32)>) -> Option<int> {
    match parts {
        Some(parts) => Some(parts_units(parts.0, parts.1)),
        None => None,
    }
}

/// `mantissa` written with `scale` digits, counted in the last of `digits` fractional digits.
pub open spec fn aligned(mantissa: i128, scale: u32, digits: int) -> int {
    mantissa * pow10((digits - scale) as nat)
}

/// The integer fits in a mantissa.
pub open spec fn fits(value: int) -> bool {
    -MAX_MANTISSA <= value <= MAX_MANTISSA
}

/// The larger of two scales.
pub open spec fn wider_scale(a: u32, b: u32) -> int {
    if a < b {
        b as int
    } else {
        a as int
    }
}

/// Two numbers and their sum can be written with the larger of the two scales.
pub open spec fn sum_fits(a_mantissa: i128, a_scale: u32, b_mantissa: i128, b_scale: u32) -> bool {
    let digits = wider_scale(a_scale, b_scale);
    let a = aligned(a_mantissa, a_scale, digits);
    let b = aligned(b_mantissa, b_scale, digits);
    fits(a) && fits(b) && fits(a + b)
}

/// Two numbers and their difference can be written with the larger of the two scales.
pub open spec fn difference_fits(
    a_mantissa: i128,
    a_scale: u32,
    b_mantissa: i128,
    b_scale: u32,
) -> bool {
    let digits = wider_scale(a_scale, b_scale);
    let a = aligned(a_mantissa, a_scale, digits);
    let b = aligned(b_mantissa, b_scale, digits);
    fits(a) && fits(b) && fits(a - b)
}

/// The parts of a sum that needs no rounding.
pub open spec fn sum_parts(a_mantissa: i128, a_scale: u32, b_mantissa: i128, b_scale: u32) -> (
    i128,
    u32,
) {
    let digits = wider_scale(a_scale, b_scale);
    (
        (aligned(a_mantissa, a_scale, digits) + aligned(b_mantissa, b_scale, digits)) as i128,
        digits as u32,
    )
}

/// The parts of a difference that needs no rounding.
pub open spec fn difference_parts(
    a_mantissa: i128,
    a_scale: u32,
    b_mantissa: i128,
    b_scale: u32,
) -> (i128, u32) {
    let digits = wider_scale(a_scale, b_scale);
    (
        (aligned(a_mantissa, a_scale, digits) - aligned(b_mantissa, b_scale, digits)) as i128,
        digits as u32,
    )
}

/// What is left of a whole number when a multiple of another is taken away, on the same side of
/// zero.
pub open spec fn whole_remainder(a: int, b: int) -> int {
    let divisor = if b < 0 {
        -b
    } else {
        b
    };
    if a < 0 {
        -((-a) % divisor)
    } else {
        a % divisor
    }
}

/// The first number can be written with as many fractional digits as the second, or has more.
pub open spec fn aligns(a_mantissa: i128, a_scale: u32, b_scale: u32) -> bool {
    b_scale <= a_scale || fits(aligned(a_mantissa, a_scale, b_scale as int))
}

/// The last number is the quotient of the first two, to the last digit.
pub open spec fn divides_to(
    a_mantissa: i128,
    a_scale: u32,
    b_mantissa: i128,
    b_scale: u32,
    q_mantissa: i128,
    q_scale: u32,
) -> bool {
    &&& b_mantissa != 0
    &&& decimal_parts(q_mantissa, q_scale)
    &&& parts_units(q_mantissa, q_scale) * parts_units(b_mantissa, b_scale) == parts_units(
        a_mantissa,
        a_scale,
    ) * pow10(MAX_SCALE as nat)
}

/// A rounded number is on the same side of zero as the exact one, or zero.
pub open spec fn sign_agrees(parts: Option<(i128, u32)>, exact: int) -> bool {
    parts matches Some(parts) ==> (exact >= 0 ==> parts.0 >= 0) && (exact <= 0 ==> parts.0 <= 0)
}

/// What `rust_decimal::Decimal::checked_add` returns on the numbers with the given parts.
pub uninterp spec fn decimal_sum(
    a_mantissa: i128,
    a_scale: u32,
    b_mantissa: i128,
    b_scale: u32,
) -> Option<(i128, u32)>;

/// What `rust_decimal::Decimal::checked_sub` returns on the numbers with the given parts.
pub uninterp spec fn decimal_difference(
    a_mantissa: i128,
    a_scale: u32,
    b_mantissa: i128,
    b_scale: u32,
) -> Option<(i128, u32)>;

/// What `rust_decimal::Decimal::checked_mul` returns on the numbers with the given parts.
pub uninterp spec fn decimal_product(
    a_mantissa: i128,
    a_scale: u32,
    b_mantissa: i128,
    b_scale: u32,
) -> Option<(i128, u32)>;

/// What `rust_decimal::Decimal::checked_div` returns on the numbers with the given parts.
pub uninterp spec fn decimal_quotient(
    a_mantissa: i128,
    a_scale: u32,
    b_mantissa: i128,
    b_scale: u32,
) -> Option<(i128, u32)>;

/// What `rust_decimal::Decimal::checked_rem` returns on the numbers with the given parts.
pub uninterp spec fn decimal_remainder(
    a_mantissa: i128,
    a_scale: u32,
    b_mantissa: i128,
    b_scale: u32,
) -> Option<(i128, u32)>;

/// How `rust_decimal::Decimal` is displayed.
pub uninterp spec fn decimal_text(mantissa: i128, scale: u32) -> Seq<char>;

/// What `rust_decimal::Decimal` parses a text to; `None` where it refuses the text.
pub uninterp spec fn decimal_parse(text: Seq<char>) -> Option<(i128, u32)>;

/// `rust_decimal::Decimal::checked_add`. The result has the parts of a decimal number. A zero
/// operand gives back the other one, digit for digit. Rounding does not change the sign. Where
/// both operands and their sum can be written with the larger of the two scales, the sum is
/// written so, and exact.
#[verifier::external_body]
fn add_parts(a_mantissa: i128, a_scale: u32, b_mantissa: i128, b_scale: u32) -> (result: Option<
    (i128, u32),
>)
    requires
        decimal_parts(a_mantissa, a_scale),
        decimal_parts(b_mantissa, b_scale),
    ensures
        result == decimal_sum(a_mantissa, a_scale, b_mantissa, b_scale),
        result matches Some(parts) ==> decimal_parts(parts.0, parts.1),
        a_mantissa == 0 ==> result == Some((b_mantissa, b_scale)),
        a_mantissa != 0 && b_mantissa == 0 ==> result == Some((a_mantissa, a_scale)),
        sign_agrees(
            result,
            parts_units(a_mantissa, a_scale) + parts_units(b_mantissa, b_scale),
        ),
        a_mantissa != 0 && b_mantissa != 0 && sum_fits(a_mantissa, a_scale, b_mantissa, b_scale)
            ==> result == Some(sum_parts(a_mantissa, a_scale, b_mantissa, b_scale)),
{
    let a = rust_decimal::Decimal::from_i128_with_scale(a_mantissa, a_scale);
    let b = rust_decimal::Decimal::from_i128_with_scale(b_mantissa, b_scale);
    a.checked_add(b).map(|sum| (sum.mantissa(), sum.scale()))
}

/// `rust_decimal::Decimal::checked_sub`. The result has the parts of a decimal number. Taking
/// zero away gives back the first operand, digit for digit, and taking away from zero turns the
/// sign of the second. Rounding does not change the sign. Where both operands and their
/// difference can be written with the larger of the two scales, the difference is written so, and
/// exact.
#[verifier::external_body]
fn sub_parts(a_mantissa: i128, a_scale: u32, b_mantissa: i128, b_scale: u32) -> (result: Option<
    (i128, u32),
>)
    requires
        decimal_parts(a_mantissa, a_scale),
        decimal_parts(b_mantissa, b_scale),
    ensures
        result == decimal_difference(a_mantissa, a_scale, b_mantissa, b_scale),
        result matches Some(parts) ==> decimal_parts(parts.0, parts.1),
        a_mantissa == 0 ==> result == Some(((-b_mantissa) as i128, b_scale)),
        a_mantissa != 0 && b_mantissa == 0 ==> result == Some((a_mantissa, a_scale)),
        sign_agrees(
            result,
            parts_units(a_mantissa, a_scale) - parts_units(b_mantissa, b_scale),
        ),
        a_mantissa != 0 && b_mantissa != 0 && difference_fits(
            a_mantissa,
            a_scale,
            b_mantissa,
            b_scale,
        ) ==> result == Some(difference_parts(a_mantissa, a_scale, b_mantissa, b_scale)),
{
    let a = rust_decimal::Decimal::from_i128_with_scale(a_mantissa, a_scale);
    let b = rust_decimal::Decimal::from_i128_with_scale(b_mantissa, b_scale);
    a.checked_sub(b).map(|difference| (difference.mantissa(), difference.scale()))
}

/// `rust_decimal::Decimal::checked_mul`. The result has the parts of a decimal number. A product
/// with zero is zero, with no fractional digits. Rounding does not change the sign. Where the
/// product of the mantissas and the sum of the scales are the parts of a decimal number, they are
/// the product's parts.
#[verifier::external_body]
fn mul_parts(a_mantissa: i128, a_scale: u32, b_mantissa: i128, b_scale: u32) -> (result: Option<
    (i128, u32),
>)
    requires
        decimal_parts(a_mantissa, a_scale),
        decimal_parts(b_mantissa, b_scale),
    ensures
        result == decimal_product(a_mantissa, a_scale, b_mantissa, b_scale),
        result matches Some(parts) ==> decimal_parts(parts.0, parts.1),
        a_mantissa == 0 || b_mantissa == 0 ==> result == Some((0i128, 0u32)),
        sign_agrees(result, a_mantissa * b_mantissa),
        a_mantissa != 0 && b_mantissa != 0 && fits(a_mantissa * b_mantissa) && a_scale + b_scale
            <= MAX_SCALE ==> result == Some(
            ((a_mantissa * b_mantissa) as i128, (a_scale + b_scale) as u32),
        ),
{
    let a = rust_decimal::Decimal::from_i128_with_scale(a_mantissa, a_scale);
    let b = rust_decimal::Decimal::from_i128_with_scale(b_mantissa, b_scale);
    a.checked_mul(b).map(|product| (product.mantissa(), product.scale()))
}

/// `rust_decimal::Decimal::checked_div`. The result has the parts of a decimal number. There is
/// none where the divisor is zero. A quotient that is itself a decimal number is not rounded, and
/// a mantissa that divides a mantissa of at least its own scale gives the parts of the quotient.
#[verifier::external_body]
fn div_parts(a_mantissa: i128, a_scale: u32, b_mantissa: i128, b_scale: u32) -> (result: Option<
    (i128, u32),
>)
    requires
        decimal_parts(a_mantissa, a_scale),
        decimal_parts(b_mantissa, b_scale),
    ensures
        result == decimal_quotient(a_mantissa, a_scale, b_mantissa, b_scale),
        result matches Some(parts) ==> decimal_parts(parts.0, parts.1),
        b_mantissa == 0 ==> result is None,
        forall|q: int|
            b_mantissa != 0 && a_mantissa == #[trigger] (q * b_mantissa) && q != 0 && b_scale
                <= a_scale ==> result == Some((q as i128, (a_scale - b_scale) as u32)),
        forall|q_mantissa: i128, q_scale: u32| #[trigger]
            divides_to(a_mantissa, a_scale, b_mantissa, b_scale, q_mantissa, q_scale)
                ==> units_of_parts(result) == Some(parts_units(q_mantissa, q_scale)),
{
    let a = rust_decimal::Decimal::from_i128_with_scale(a_mantissa, a_scale);
    let b = rust_decimal::Decimal::from_i128_with_scale(b_mantissa, b_scale);
    a.checked_div(b).map(|quotient| (quotient.mantissa(), quotient.scale()))
}

/// `rust_decimal::Decimal::checked_rem`. The result has the parts of a decimal number. There is
/// none where the divisor is zero; the remainder of zero is zero. It is exact where the dividend
/// can be written with as many fractional digits as the divisor, or has more. Otherwise no more is
/// said than that the result depends on the two.
#[verifier::external_body]
fn rem_parts(a_mantissa: i128, a_scale: u32, b_mantissa: i128, b_scale: u32) -> (result: Option<
    (i128, u32),
>)
    requires
        decimal_parts(a_mantissa, a_scale),
        decimal_parts(b_mantissa, b_scale),
    ensures
        result == decimal_remainder(a_mantissa, a_scale, b_mantissa, b_scale),
        result matches Some(parts) ==> decimal_parts(parts.0, parts.1),
        b_mantissa == 0 ==> result is None,
        a_mantissa == 0 && b_mantissa != 0 ==> result == Some((0i128, 0u32)),
        b_mantissa != 0 && aligns(a_mantissa, a_scale, b_scale) ==> units_of_parts(result) == Some(
            whole_remainder(parts_units(a_mantissa, a_scale), parts_units(b_mantissa, b_scale)),
        ),
{
    let a = rust_decimal::Decimal::from_i128_with_scale(a_mantissa, a_scale);
    let b = rust_decimal::Decimal::from_i128_with_scale(b_mantissa, b_scale);
    a.checked_rem(b).map(|remainder| (remainder.mantissa(), remainder.scale()))
}

/// The `<` of `rust_decimal::Decimal`: numbers are ordered by value, whatever their scales.
#[verifier::external_body]
fn less_parts(a_mantissa: i128, a_scale: u32, b_mantissa: i128, b_scale: u32) -> (result: bool)
    requires
        decimal_parts(a_mantissa, a_scale),
        decimal_parts(b_mantissa, b_scale),
    ensures
        result == (parts_units(a_mantissa, a_scale) < parts_units(b_mantissa, b_scale)),
{
    let a = rust_decimal::Decimal::from_i128_with_scale(a_mantissa, a_scale);
    let b = rust_decimal::Decimal::from_i128_with_scale(b_mantissa, b_scale);
    a < b
}

/// The text that `rust_decimal::Decimal` displays for the number with the given parts.
#[verifier::external_body]
fn text_of_parts(mantissa: i128, scale: u32) -> (result: String)
    requires
        decimal_parts(mantissa, scale),
    ensures
        result@ == decimal_text(mantissa, scale),
{
    rust_decimal::Decimal::from_i128_with_scale(mantissa, scale).to_string()
}

/// The parts of the number that `rust_decimal::Decimal` reads in `text`, if it reads one.
#[verifier::external_body]
fn parts_of_text(text: &str) -> (result: Option<(i128, u32)>)
    ensures
        result == decimal_parse(text@),
        result matches Some(parts) ==> decimal_parts(parts.0, parts.1),
{
    match text.parse::<rust_decimal::Decimal>() {
        Ok(value) => Some((value.mantissa(), value.scale())),
        Err(_) => None,
    }
}

/// A decimal number: `mantissa` divided by `10` to the power of `scale`.
#[derive(Debug, Clone, Copy)]
pub struct Decimal {
    mantissa: i128,
    scale: u32,
}

/// The number with the given parts, where there are any.
pub open spec fn of_parts(parts: Option<(i128, u32)>) -> Option<Decimal> {
    match parts {
        Some(parts) => Some(Decimal::of(parts.0, parts.1)),
        None => None,
    }
}

impl Decimal {
    /// The number with the given parts.
    pub closed spec fn of(mantissa: i128, scale: u32) -> Decimal {
        Decimal { mantissa, scale }
    }

    /// The digits of the number, without the point.
    pub closed spec fn digits(self) -> i128 {
        self.mantissa
    }

    /// How many of the digits stand behind the point.
    pub closed spec fn places(self) -> u32 {
        self.scale
    }

    #[verifier::type_invariant]
    spec fn well_formed(self) -> bool {
        decimal_parts(self.mantissa, self.scale)
    }

    /// The digits and the places are those of a decimal number, as in every number that is
    /// computed.
    pub open spec fn valid(self) -> bool {
        decimal_parts(self.digits(), self.places())
    }

    /// The number in units of `10` to the power of minus [`MAX_SCALE`].
    pub open spec fn units(self) -> int {
        parts_units(self.digits(), self.places())
    }

    /// The sum, where it is in range.
    pub open spec fn plus(self, other: Decimal) -> Option<Decimal> {
        of_parts(decimal_sum(self.digits(), self.places(), other.digits(), other.places()))
    }

    /// The difference, where it is in range.
    pub open spec fn minus(self, other: Decimal) -> Option<Decimal> {
        of_parts(decimal_difference(self.digits(), self.places(), other.digits(), other.places()))
    }

    /// The product, where it is in range.
    pub open spec fn times(self, other: Decimal) -> Option<Decimal> {
        of_parts(decimal_product(self.digits(), self.places(), other.digits(), other.places()))
    }

    /// The quotient, where there is one in range.
    pub open spec fn over(self, other: Decimal) -> Option<Decimal> {
        of_parts(decimal_quotient(self.digits(), self.places(), other.digits(), other.places()))
    }

    /// The remainder of the division, where there is one.
    pub open spec fn modulo(self, other: Decimal) -> Option<Decimal> {
        of_parts(decimal_remainder(self.digits(), self.places(), other.digits(), other.places()))
    }

    /// The sum needs no rounding.
    pub open spec fn adds_exactly(self, other: Decimal) -> bool {
        sum_fits(self.digits(), self.places(), other.digits(), other.places())
    }

    /// The difference needs no rounding.
    pub open spec fn subtracts_exactly(self, other: Decimal) -> bool {
        difference_fits(self.digits(), self.places(), other.digits(), other.places())
    }

    /// The sum, where it needs no rounding.
    pub open spec fn exact_sum(self, other: Decimal) -> Decimal {
        if self.digits() == 0 {
            other
        } else if other.digits() == 0 {
            self
        } else {
            of_parts(
                Some(sum_parts(self.digits(), self.places(), other.digits(), other.places())),
            )->0
        }
    }

    /// The difference, where it needs no rounding.
    pub open spec fn exact_difference(self, other: Decimal) -> Decimal {
        if self.digits() == 0 {
            other.negated()
        } else if other.digits() == 0 {
            self
        } else {
            of_parts(
                Some(
                    difference_parts(self.digits(), self.places(), other.digits(), other.places()),
                ),
            )->0
        }
    }

    /// The product needs no rounding.
    pub open spec fn multiplies_exactly(self, other: Decimal) -> bool {
        fits(self.digits() * other.digits()) && self.places() + other.places() <= MAX_SCALE
    }

    /// The remainder by the other number needs no rounding.
    pub open spec fn aligns_with(self, other: Decimal) -> bool {
        aligns(self.digits(), self.places(), other.places())
    }

    /// This number is the quotient of the two, to the last digit.
    pub open spec fn is_quotient_of(self, dividend: Decimal, divisor: Decimal) -> bool {
        divides_to(
            dividend.digits(),
            dividend.places(),
            divisor.digits(),
            divisor.places(),
            self.digits(),
            self.places(),
        )
    }

    /// The product, where it needs no rounding.
    pub open spec fn exact_product(self, other: Decimal) -> Decimal {
        if self.digits() == 0 || other.digits() == 0 {
            Decimal::nought()
        } else {
            Decimal::of(
                (self.digits() * other.digits()) as i128,
                (self.places() + other.places()) as u32,
            )
        }
    }

    /// The number with its sign turned.
    pub open spec fn negated(self) -> Decimal {
        Decimal::of((-self.digits()) as i128, self.places())
    }

    /// The number without its sign.
    pub open spec fn magnitude(self) -> Decimal {
        if self.digits() < 0 {
            self.negated()
        } else {
            self
        }
    }

    /// The smaller of two numbers, the first where they are equal.
    pub open spec fn smaller(self, other: Decimal) -> Decimal {
        if other.units() < self.units() {
            other
        } else {
            self
        }
    }

    /// Zero, with no fractional digits.
    pub open spec fn nought() -> Decimal {
        Decimal::of(0, 0)
    }

    /// One, with no fractional digits.
    pub open spec fn unit() -> Decimal {
        Decimal::of(1, 0)
    }

    /// The text of the number.
    pub open spec fn text(self) -> Seq<char> {
        decimal_text(self.digits(), self.places())
    }

    /// The number `num` divided by `10` to the power of `scale`.
    pub fn new(num: i64, scale: u32) -> (result: Decimal)
        requires
            scale <= MAX_SCALE,
        ensures
            result == Decimal::of(num as i128, scale),
    {
        Decimal { mantissa: num as i128, scale }
    }

    /// The number with the given parts, if they are those of a decimal number.
    pub fn from_parts(mantissa: i128, scale: u32) -> (result: Option<Decimal>)
        ensures
            result == (if decimal_parts(mantissa, scale) {
                Some(Decimal::of(mantissa, scale))
            } else {
                None
            }),
    {
        if -MAX_MANTISSA <= mantissa && mantissa <= MAX_MANTISSA && scale <= MAX_SCALE {
            Some(Decimal { mantissa, scale })
        } else {
            None
        }
    }

    /// Zero.
    pub fn zero() -> (result: Decimal)
        ensures
            result == Decimal::nought(),
    {
        Decimal { mantissa: 0, scale: 0 }
    }

    /// One.
    pub fn one() -> (result: Decimal)
        ensures
            result == Decimal::unit(),
    {
        Decimal { mantissa: 1, scale: 0 }
    }

    /// The digits of the number, without the point.
    pub fn mantissa(&self) -> (result: i128)
        ensures
            result == self.digits(),
            self.valid(),
    {
        proof {
            use_type_invariant(*self);
        }
        self.mantissa
    }

    /// How many of the digits stand behind the point.
    pub fn scale(&self) -> (result: u32)
        ensures
            result == self.places(),
            self.valid(),
    {
        proof {
            use_type_invariant(*self);
        }
        self.scale
    }

    /// The sum, or `None` where it is out of range.
    pub fn checked_add(&self, other: &Decimal) -> (result: Option<Decimal>)
        ensures
            result == self.plus(*other),
            self.digits() == 0 ==> result == Some(*other),
            other.digits() == 0 && self.digits() != 0 ==> result == Some(*self),
            self.adds_exactly(*other) ==> (result matches Some(sum) && sum == self.exact_sum(*other)
                && sum.units() == self.units() + other.units()),
            self.units() + other.units() >= 0 ==> (result matches Some(sum) ==> sum.units() >= 0),
    {
        proof {
            use_type_invariant(*self);
            use_type_invariant(*other);
        }
        match add_parts(self.mantissa, self.scale, other.mantissa, other.scale) {
            Some(parts) => {
                let sum = Decimal { mantissa: parts.0, scale: parts.1 };
                proof {
                    lemma_sign(sum);
                    lemma_sign(*self);
                    lemma_sign(*other);
                    if self.adds_exactly(*other) {
                        lemma_exact_parts(*self, *other);
                    }
                }
                Some(sum)
            },
            None => None,
        }
    }

    /// The difference, or `None` where it is out of range.
    pub fn checked_sub(&self, other: &Decimal) -> (result: Option<Decimal>)
        ensures
            result == self.minus(*other),
            other.digits() == 0 && self.digits() != 0 ==> result == Some(*self),
            self.subtracts_exactly(*other) ==> (result matches Some(difference) && difference
                == self.exact_difference(*other) && difference.units() == self.units()
                - other.units()),
            self.units() == other.units() ==> (result matches Some(difference)
                && difference.units() == 0),
            self.units() >= other.units() ==> (result matches Some(difference)
                ==> difference.units() >= 0),
    {
        proof {
            use_type_invariant(*self);
            use_type_invariant(*other);
            if self.units() == other.units() {
                lemma_equal_aligned(*self, *other);
            }
        }
        match sub_parts(self.mantissa, self.scale, other.mantissa, other.scale) {
            Some(parts) => {
                let difference = Decimal { mantissa: parts.0, scale: parts.1 };
                proof {
                    lemma_sign(difference);
                    lemma_sign(*self);
                    lemma_sign(*other);
                    if self.subtracts_exactly(*other) {
                        lemma_exact_parts(*self, *other);
                    }
                }
                Some(difference)
            },
            None => None,
        }
    }

    /// The product, or `None` where it is out of range.
    pub fn checked_mul(&self, other: &Decimal) -> (result: Option<Decimal>)
        ensures
            result == self.times(*other),
            self.digits() == 0 || other.digits() == 0 ==> result == Some(Decimal::nought()),
            self.digits() != 0 && other.digits() != 0 && self.multiplies_exactly(*other)
                ==> result == Some(self.exact_product(*other)),
            self.units() >= 0 && other.units() >= 0 ==> (result matches Some(product)
                ==> product.units() >= 0),
    {
        proof {
            use_type_invariant(*self);
            use_type_invariant(*other);
            lemma_sign(*self);
            lemma_sign(*other);
            let (a, b) = (self.mantissa as int, other.mantissa as int);
            assert(a >= 0 && b >= 0 ==> a * b >= 0) by (nonlinear_arith);
        }
        match mul_parts(self.mantissa, self.scale, other.mantissa, other.scale) {
            Some(parts) => {
                let product = Decimal { mantissa: parts.0, scale: parts.1 };
                proof {
                    lemma_sign(product);
                }
                Some(product)
            },
            None => None,
        }
    }

    /// The quotient, or `None` where it is out of range or the divisor is zero.
    pub fn checked_div(&self, other: &Decimal) -> (result: Option<Decimal>)
        ensures
            result == self.over(*other),
            other.digits() == 0 ==> result is None,
            forall|q: int|
                other.digits() != 0 && self.digits() == #[trigger] (q * other.digits()) && q != 0
                    && other.places() <= self.places() ==> result == Some(
                    Decimal::of(q as i128, (self.places() - other.places()) as u32),
                ),
            forall|q: Decimal| #[trigger]
                q.is_quotient_of(*self, *other) ==> (result matches Some(quotient)
                    && quotient.units() == q.units()),
    {
        proof {
            use_type_invariant(*self);
            use_type_invariant(*other);
        }
        match div_parts(self.mantissa, self.scale, other.mantissa, other.scale) {
            Some(parts) => Some(Decimal { mantissa: parts.0, scale: parts.1 }),
            None => None,
        }
    }

    /// The remainder of the division, or `None` where the divisor is zero.
    pub fn checked_rem(&self, other: &Decimal) -> (result: Option<Decimal>)
        ensures
            result == self.modulo(*other),
            other.digits() == 0 ==> result is None,
            other.digits() != 0 && self.aligns_with(*other) ==> (result matches Some(rest)
                && rest.units() == whole_remainder(self.units(), other.units())),
    {
        proof {
            use_type_invariant(*self);
            use_type_invariant(*other);
        }
        match rem_parts(self.mantissa, self.scale, other.mantissa, other.scale) {
            Some(parts) => Some(Decimal { mantissa: parts.0, scale: parts.1 }),
            None => None,
        }
    }

    /// Whether this number is smaller than the other.
    pub fn less(&self, other: &Decimal) -> (result: bool)
        ensures
            result == (self.units() < other.units()),
    {
        proof {
            use_type_invariant(*self);
            use_type_invariant(*other);
        }
        less_parts(self.mantissa, self.scale, other.mantissa, other.scale)
    }

    /// Whether this number is at most the other.
    pub fn at_most(&self, other: &Decimal) -> (result: bool)
        ensures
            result == (self.units() <= other.units()),
    {
        !other.less(self)
    }

    /// Whether the number is zero.
    pub fn is_zero(&self) -> (result: bool)
        ensures
            result == (self.digits() == 0),
            result == (self.units() == 0),
    {
        proof {
            lemma_pow10_positive((MAX_SCALE - self.scale) as nat);
            assert((self.mantissa * pow10((MAX_SCALE - self.scale) as nat) == 0) == (self.mantissa
                == 0)) by (nonlinear_arith)
                requires
                    pow10((MAX_SCALE - self.scale) as nat) > 0,
            ;
        }
        self.mantissa == 0
    }

    /// Whether the number is below zero.
    pub fn is_negative(&self) -> (result: bool)
        ensures
            result == (self.units() < 0),
    {
        proof {
            lemma_sign(*self);
        }
        self.mantissa < 0
    }

    /// Whether the number is above zero.
    pub fn is_positive(&self) -> (result: bool)
        ensures
            result == (self.units() > 0),
    {
        proof {
            lemma_sign(*self);
        }
        self.mantissa > 0
    }

    /// The number without its sign.
    pub fn abs(&self) -> (result: Decimal)
        ensures
            result == self.magnitude(),
            result.units() >= 0,
    {
        proof {
            use_type_invariant(*self);
            lemma_sign(*self);
        }
        if self.mantissa < 0 {
            Decimal { mantissa: -self.mantissa, scale: self.scale }
        } else {
            *self
        }
    }

    /// The number with its sign turned.
    pub fn negate(&self) -> (result: Decimal)
        ensures
            result == self.negated(),
            result.units() == -self.units(),
    {
        proof {
            use_type_invariant(*self);
            lemma_sign(*self);
        }
        Decimal { mantissa: -self.mantissa, scale: self.scale }
    }

    /// The smaller of two numbers, the first where they are equal.
    pub fn min(self, other: Decimal) -> (result: Decimal)
        ensures
            result == self.smaller(other),
    {
        if other.less(&self) {
            other
        } else {
            self
        }
    }

    /// The text of the number.
    pub fn to_text(&self) -> (result: String)
        ensures
            result@ == self.text(),
    {
        proof {
            use_type_invariant(*self);
        }
        text_of_parts(self.mantissa, self.scale)
    }

    /// The number that `text` spells, if it spells one.
    pub fn parse(text: &str) -> (result: Option<Decimal>)
        ensures
            result == of_parts(decimal_parse(text@)),
    {
        match parts_of_text(text) {
            Some(parts) => Some(Decimal { mantissa: parts.0, scale: parts.1 }),
            None => None,
        }
    }
}

impl PartialEq for Decimal {
    fn eq(&self, other: &Decimal) -> (result: bool) {
        self.at_most(other) && other.at_most(self)
    }
}

impl vstd::std_specs::cmp::PartialEqSpecImpl for Decimal {
    open spec fn obeys_eq_spec() -> bool {
        true
    }

    open spec fn eq_spec(&self, other: &Decimal) -> bool {
        self.units() == other.units()
    }
}

impl Eq for Decimal {

}

impl Default for Decimal {
    fn default() -> (result: Decimal)
        ensures
            result == Decimal::nought(),
    {
        Decimal::zero()
    }
}

impl From<i64> for Decimal {
    fn from(value: i64) -> (result: Decimal) {
        Decimal::new(value, 0)
    }
}

impl vstd::std_specs::convert::FromSpecImpl<i64> for Decimal {
    open spec fn obeys_from_spec() -> bool {
        true
    }

    open spec fn from_spec(value: i64) -> Decimal {
        Decimal::of(value as i128, 0)
    }
}

impl View for Decimal {
    type V = Decimal;

    open spec fn view(&self) -> Decimal {
        *self
    }
}

/// A power of ten is positive.
pub proof fn lemma_pow10_positive(n: nat)
    ensures
        pow10(n) > 0,
    decreases n,
{
    if n > 0 {
        lemma_pow10_positive((n - 1) as nat);
    }
}

/// A power of ten is a product of smaller ones.
pub proof fn lemma_pow10_splits(a: nat, b: nat)
    ensures
        pow10(a + b) == pow10(a) * pow10(b),
    decreases a,
{
    if a > 0 {
        lemma_pow10_splits((a - 1) as nat, b);
        let p = pow10((a - 1) as nat);
        let q = pow10(b);
        assert(10 * (p * q) == (10 * p) * q) by (nonlinear_arith);
    }
}

/// A number in its own units, counted in those of a finer scale.
proof fn lemma_aligned(mantissa: i128, scale: u32, digits: int)
    requires
        scale <= digits <= MAX_SCALE,
    ensures
        parts_units(mantissa, scale) == aligned(mantissa, scale, digits) * pow10(
            (MAX_SCALE - digits) as nat,
        ),
{
    let p = pow10((digits - scale) as nat);
    let q = pow10((MAX_SCALE - digits) as nat);
    lemma_pow10_splits((digits - scale) as nat, (MAX_SCALE - digits) as nat);
    assert((digits - scale) as nat + (MAX_SCALE - digits) as nat == (MAX_SCALE - scale) as nat);
    assert(mantissa * (p * q) == (mantissa * p) * q) by (nonlinear_arith);
}

/// Equal numbers can be taken from each other without rounding.
proof fn lemma_equal_aligned(a: Decimal, b: Decimal)
    requires
        a.valid(),
        b.valid(),
        a.units() == b.units(),
    ensures
        a.subtracts_exactly(b),
{
    let digits = wider_scale(a.places(), b.places());
    let p = pow10((MAX_SCALE - digits) as nat);
    let x = aligned(a.digits(), a.places(), digits);
    let y = aligned(b.digits(), b.places(), digits);
    lemma_aligned(a.digits(), a.places(), digits);
    lemma_aligned(b.digits(), b.places(), digits);
    lemma_pow10_positive((MAX_SCALE - digits) as nat);
    assert(x == y) by (nonlinear_arith)
        requires
            x * p == y * p,
            p > 0,
    ;
    assert(pow10(0) == 1);
    if a.places() < b.places() {
        assert((digits - b.places()) as nat == 0);
        assert(y == b.digits() * 1);
    } else {
        assert((digits - a.places()) as nat == 0);
        assert(x == a.digits() * 1);
    }
}

/// Sums and differences that need no rounding are exact.
proof fn lemma_exact_parts(a: Decimal, b: Decimal)
    requires
        a.valid(),
        b.valid(),
    ensures
        a.adds_exactly(b) ==> ({
            let parts = sum_parts(a.digits(), a.places(), b.digits(), b.places());
            parts_units(parts.0, parts.1) == a.units() + b.units()
        }),
        a.subtracts_exactly(b) ==> ({
            let parts = difference_parts(a.digits(), a.places(), b.digits(), b.places());
            parts_units(parts.0, parts.1) == a.units() - b.units()
        }),
{
    let digits = wider_scale(a.places(), b.places());
    let p = pow10((MAX_SCALE - digits) as nat);
    let x = aligned(a.digits(), a.places(), digits);
    let y = aligned(b.digits(), b.places(), digits);
    lemma_aligned(a.digits(), a.places(), digits);
    lemma_aligned(b.digits(), b.places(), digits);
    assert((x + y) * p == x * p + y * p) by (nonlinear_arith);
    assert((x - y) * p == x * p - y * p) by (nonlinear_arith);
}

/// A product that needs no rounding is exact.
pub proof fn law_exact_product(a: Decimal, b: Decimal)
    requires
        a.multiplies_exactly(b),
    ensures
        a.exact_product(b).units() * pow10(MAX_SCALE as nat) == a.units() * b.units(),
{
    let (x, y) = (a.digits() as int, b.digits() as int);
    let p = pow10((MAX_SCALE - a.places()) as nat);
    let q = pow10((MAX_SCALE - b.places()) as nat);
    lemma_nought();
    if x == 0 || y == 0 {
        lemma_sign(a);
        lemma_sign(b);
        assert((x * p) * (y * q) == 0) by (nonlinear_arith)
            requires
                x == 0 || y == 0,
        ;
        assert(0 * pow10(MAX_SCALE as nat) == 0);
    } else {
        let rest = (MAX_SCALE - a.places() - b.places()) as nat;
        lemma_pow10_splits(rest, MAX_SCALE as nat);
        lemma_pow10_splits((MAX_SCALE - a.places()) as nat, (MAX_SCALE - b.places()) as nat);
        assert(rest + MAX_SCALE as nat == (MAX_SCALE - a.places()) as nat + (MAX_SCALE
            - b.places()) as nat);
        let (r, m) = (pow10(rest), pow10(MAX_SCALE as nat));
        assert(((x * y) * r) * m == (x * p) * (y * q)) by (nonlinear_arith)
            requires
                r * m == p * q,
        ;
    }
}

/// The parts of a number are the parts that it was made of.
pub broadcast proof fn lemma_parts_of(mantissa: i128, scale: u32)
    ensures
        (#[trigger] Decimal::of(mantissa, scale)).digits() == mantissa,
        Decimal::of(mantissa, scale).places() == scale,
{
}

/// A number is the one with its parts.
pub broadcast proof fn lemma_of_parts(d: Decimal)
    ensures
        #[trigger] Decimal::of(d.digits(), d.places()) == d,
{
}

/// A number has the parts it is made of.
pub proof fn lemma_parts_are_kept(mantissa: i128, scale: u32)
    ensures
        Decimal::of(mantissa, scale).digits() == mantissa,
        Decimal::of(mantissa, scale).places() == scale,
{
}

/// Zero has no units.
pub proof fn lemma_nought()
    ensures
        Decimal::nought().units() == 0,
        Decimal::nought().digits() == 0,
{
    assert(0 * pow10(28) == 0);
}

/// The sign of a number is the sign of its digits, and turning the sign turns the value.
pub proof fn lemma_sign(d: Decimal)
    ensures
        d.units() < 0 <==> d.digits() < 0,
        d.units() == 0 <==> d.digits() == 0,
        d.valid() ==> d.negated().units() == -d.units(),
{
    let p = pow10((MAX_SCALE - d.places()) as nat);
    lemma_pow10_positive((MAX_SCALE - d.places()) as nat);
    assert((d.digits() * p < 0 <==> d.digits() < 0) && (d.digits() * p == 0 <==> d.digits() == 0)
        && (-d.digits()) * p == -(d.digits() * p)) by (nonlinear_arith)
        requires
            p > 0,
    ;
    assert(d.negated().digits() == (-d.digits()) as i128);
}

/// Numbers with as many fractional digits are added and taken away without rounding, as long as
/// the result is in range.
pub proof fn law_equal_scales_need_no_rounding(a: Decimal, b: Decimal)
    requires
        a.valid(),
        b.valid(),
        a.places() == b.places(),
    ensures
        fits(a.digits() + b.digits()) ==> a.adds_exactly(b),
        fits(a.digits() - b.digits()) ==> a.subtracts_exactly(b),
{
    assert(pow10(0) == 1);
    assert(a.digits() * 1 == a.digits());
    assert(b.digits() * 1 == b.digits());
    assert((wider_scale(a.places(), b.places()) - a.places()) as nat == 0);
}

} // verus!
