//! Exact decimal numbers: a signed mantissa of at most 96 bits and a scale,
//! the number of digits after the decimal point, of at most 28. Arithmetic
//! and comparison are those of the `rust_decimal` crate.

use vstd::prelude::*;
use vstd::arithmetic::power::pow;
use std::cmp::Ordering;

verus! {

/// The largest scale a decimal can have.
pub const MAX_SCALE: u32 = 28;

/// The largest absolute value of a mantissa: `2^96 - 1`.
pub const MAX_MANTISSA: i128 = 0xFFFF_FFFF_FFFF_FFFF_FFFF_FFFF;

/// An amount of bitcoin.
pub type Btc = Decimal;

/// How much hard currency one bitcoin costs.
pub type BtcExchangeRate = Decimal;

/// An amount of hard currency.
pub type Cash = Decimal;

/// A number of percentage points: 10 stands for 10 %.
pub type Percentage = Decimal;

/// The number `mantissa / 10^scale`.
#[derive(Clone, Copy, Debug)]
pub struct Decimal {
    mantissa: i128,
    scale: u32,
}

/// What `rust_decimal::Decimal::checked_mul` gives for two decimals: their
/// product, rounded where it has too many digits, or `None` where it is out of
/// range.
pub uninterp spec fn product(a: Decimal, b: Decimal) -> Option<Decimal>;

/// What `rust_decimal::Decimal::checked_sub` gives for two decimals: the first
/// less the second, rounded where the scales cannot both be kept, or `None`
/// where it is out of range.
pub uninterp spec fn difference(a: Decimal, b: Decimal) -> Option<Decimal>;

/// What `rust_decimal::Decimal::checked_div` gives for two decimals: the first
/// divided by the second, rounded to the digits that fit, or `None` where the
/// divisor is zero or the quotient is out of range.
pub uninterp spec fn quotient(a: Decimal, b: Decimal) -> Option<Decimal>;

/// How two integers compare.
pub open spec fn ordering_of(x: int, y: int) -> Ordering {
    if x < y {
        Ordering::Less
    } else if x == y {
        Ordering::Equal
    } else {
        Ordering::Greater
    }
}

impl Decimal {
    #[verifier::type_invariant]
    spec fn wf(self) -> bool {
        &&& -MAX_MANTISSA <= self.mantissa <= MAX_MANTISSA
        &&& self.scale <= MAX_SCALE
    }

    /// The number in units of `10^-28`. Two decimals are the same number
    /// exactly if they agree here, whatever their scales.
    pub open spec fn scaled(self) -> int {
        self.mantissa() * pow(10, (MAX_SCALE - self.scale()) as nat)
    }

    /// The decimal `num / 10^scale`.
    pub fn new(num: i64, scale: u32) -> (d: Decimal)
        requires
            scale <= MAX_SCALE,
        ensures
            d == Decimal::from_parts(num as i128, scale),
            d.mantissa() == num,
            d.scale() == scale,
    {
        Decimal { mantissa: num as i128, scale }
    }

    /// The decimal `num / 10^scale`, if there is one: the mantissa has to fit
    /// in 96 bits and the scale may not exceed 28.
    pub fn try_from_i128_with_scale(num: i128, scale: u32) -> (r: Option<Decimal>)
        ensures
            r is Some <==> -MAX_MANTISSA <= num <= MAX_MANTISSA && scale <= MAX_SCALE,
            r matches Some(d) ==> d == Decimal::from_parts(num, scale) && d.mantissa() == num
                && d.scale() == scale,
    {
        if scale <= MAX_SCALE && -MAX_MANTISSA <= num && num <= MAX_MANTISSA {
            Some(Decimal { mantissa: num, scale })
        } else {
            None
        }
    }

    /// The mantissa: the number with its decimal point taken out.
    pub closed spec fn spec_mantissa(&self) -> i128 {
        self.mantissa
    }

    /// The scale: how many digits stand after the decimal point.
    pub closed spec fn spec_scale(&self) -> u32 {
        self.scale
    }

    #[verifier::when_used_as_spec(spec_mantissa)]
    pub fn mantissa(&self) -> (m: i128)
        ensures
            m == self.mantissa(),
            -MAX_MANTISSA <= m <= MAX_MANTISSA,
    {
        proof {
            use_type_invariant(self);
        }
        self.mantissa
    }

    #[verifier::when_used_as_spec(spec_scale)]
    pub fn scale(&self) -> (s: u32)
        ensures
            s == self.scale(),
            s <= MAX_SCALE,
    {
        proof {
            use_type_invariant(self);
        }
        self.scale
    }

    /// The decimal with the given mantissa and scale, as a ghost value.
    pub closed spec fn from_parts(mantissa: i128, scale: u32) -> Decimal {
        Decimal { mantissa, scale }
    }

    /// `from_parts` gives the decimal that has this mantissa and this scale.
    pub proof fn lemma_from_parts(mantissa: i128, scale: u32)
        ensures
            Decimal::from_parts(mantissa, scale).mantissa() == mantissa,
            Decimal::from_parts(mantissa, scale).scale() == scale,
    {
    }

    /// One hundred, by which percentages are divided.
    pub open spec fn spec_hundred() -> Decimal {
        Decimal::from_parts(100, 0)
    }

    /// One hundred, by which percentages are divided.
    #[verifier::when_used_as_spec(spec_hundred)]
    pub fn hundred() -> (d: Decimal)
        ensures
            d == Decimal::hundred(),
            d.mantissa() == 100,
            d.scale() == 0,
    {
        Decimal { mantissa: 100, scale: 0 }
    }
}

/// Calls `rust_decimal::Decimal::checked_mul` on the two numbers. Trusted: the
/// result is the named `product` of the arguments, which the call computes
/// from their mantissas and scales alone.
#[verifier::external_body]
pub(crate) fn checked_mul(a: Decimal, b: Decimal) -> (r: Option<Decimal>)
    ensures
        r == product(a, b),
{
    let x = rust_decimal::Decimal::from_i128_with_scale(a.mantissa, a.scale);
    let y = rust_decimal::Decimal::from_i128_with_scale(b.mantissa, b.scale);
    match x.checked_mul(y) {
        Some(d) => Some(Decimal { mantissa: d.mantissa(), scale: d.scale() }),
        None => None,
    }
}

/// Calls `rust_decimal::Decimal::checked_sub` on the two numbers. Trusted: the
/// result is the named `difference` of the arguments, which the call computes
/// from their mantissas and scales alone.
#[verifier::external_body]
pub(crate) fn checked_sub(a: Decimal, b: Decimal) -> (r: Option<Decimal>)
    ensures
        r == difference(a, b),
{
    let x = rust_decimal::Decimal::from_i128_with_scale(a.mantissa, a.scale);
    let y = rust_decimal::Decimal::from_i128_with_scale(b.mantissa, b.scale);
    match x.checked_sub(y) {
        Some(d) => Some(Decimal { mantissa: d.mantissa(), scale: d.scale() }),
        None => None,
    }
}

/// Calls `rust_decimal::Decimal::checked_div` on the two numbers. Trusted: the
/// result is the named `quotient` of the arguments, which the call computes
/// from their mantissas and scales alone.
#[verifier::external_body]
pub(crate) fn checked_div(a: Decimal, b: Decimal) -> (r: Option<Decimal>)
    ensures
        r == quotient(a, b),
{
    let x = rust_decimal::Decimal::from_i128_with_scale(a.mantissa, a.scale);
    let y = rust_decimal::Decimal::from_i128_with_scale(b.mantissa, b.scale);
    match x.checked_div(y) {
        Some(d) => Some(Decimal { mantissa: d.mantissa(), scale: d.scale() }),
        None => None,
    }
}

/// Calls `cmp` of `rust_decimal::Decimal` on the two numbers. Trusted: it
/// orders decimals by the numbers they stand for, whatever their scales; two
/// zeros are equal.
#[verifier::external_body]
fn cmp_outside(a: &Decimal, b: &Decimal) -> (o: Ordering)
    ensures
        o == ordering_of(a.scaled(), b.scaled()),
{
    let x = rust_decimal::Decimal::from_i128_with_scale(a.mantissa, a.scale);
    let y = rust_decimal::Decimal::from_i128_with_scale(b.mantissa, b.scale);
    x.cmp(&y)
}

impl PartialEq for Decimal {
    /// Two decimals are equal where they are the same number: `1.0 == 1.00`.
    fn eq(&self, other: &Self) -> (r: bool) {
        match cmp_outside(self, other) {
            Ordering::Equal => true,
            _ => false,
        }
    }
}

impl vstd::std_specs::cmp::PartialEqSpecImpl for Decimal {
    open spec fn obeys_eq_spec() -> bool {
        true
    }

    open spec fn eq_spec(&self, other: &Self) -> bool {
        self.scaled() == other.scaled()
    }
}

impl PartialOrd for Decimal {
    fn partial_cmp(&self, other: &Self) -> (r: Option<Ordering>) {
        Some(cmp_outside(self, other))
    }
}

impl vstd::std_specs::cmp::PartialOrdSpecImpl for Decimal {
    open spec fn obeys_partial_cmp_spec() -> bool {
        true
    }

    open spec fn partial_cmp_spec(&self, other: &Self) -> Option<Ordering> {
        Some(ordering_of(self.scaled(), other.scaled()))
    }
}

} // verus!
