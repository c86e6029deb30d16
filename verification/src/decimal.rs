//! Exact base-ten numbers.
//!
//! A [`Decimal`] is a whole number (the mantissa) divided by a power of ten
//! (ten to the scale). Reading, ordering and rounding are done by the
//! `rust_decimal` crate; this module states what those operations return in
//! terms of mantissa and scale.

use vstd::arithmetic::div_mod::{lemma_fundamental_div_mod, lemma_mod_bound};
use vstd::arithmetic::power::pow;
use vstd::prelude::*;

verus! {

/// The largest scale a [`Decimal`] can have.
pub const MAX_SCALE: u32 = 28;

/// The largest mantissa a [`Decimal`] can have: `2^96 - 1`. The smallest is
/// its negation.
pub const MAX_MANTISSA: i128 = 0xFFFF_FFFF_FFFF_FFFF_FFFF_FFFF;

/// The number `mantissa / 10^scale`.
pub struct DecimalView {
    pub mantissa: int,
    pub scale: nat,
}

/// An exact base-ten number with at most 28 fractional digits and a
/// mantissa of at most 96 bits.
#[derive(Clone, Copy, Debug, PartialEq, Eq)]
pub struct Decimal {
    mantissa: i128,
    scale: u32,
}

/// `mantissa / 10^scale` can be held by a [`Decimal`].
pub open spec fn representable(mantissa: int, scale: int) -> bool {
    &&& 0 <= scale <= MAX_SCALE
    &&& -MAX_MANTISSA <= mantissa <= MAX_MANTISSA
}

/// `a < b` as numbers: both sides are brought to a common denominator.
pub open spec fn less_than(a: DecimalView, b: DecimalView) -> bool {
    a.mantissa * pow(10, b.scale) < b.mantissa * pow(10, a.scale)
}

/// `a` and `b` are the same number, whatever their scales.
pub open spec fn same_number(a: DecimalView, b: DecimalView) -> bool {
    a.mantissa * pow(10, b.scale) == b.mantissa * pow(10, a.scale)
}

/// The whole number nearest to `magnitude / unit`; of two equally near, the
/// even one.
pub open spec fn round_half_even(magnitude: nat, unit: nat) -> nat
    recommends
        unit > 0,
{
    let quotient = magnitude / unit;
    let rest = magnitude % unit;
    if 2 * rest > unit || (2 * rest == unit && quotient % 2 == 1) {
        quotient + 1
    } else {
        quotient
    }
}

/// `d` with at most `places` fractional digits: unchanged if it has no more
/// than that, else rounded half-to-even to exactly `places` digits. The
/// magnitude is rounded and the sign kept.
pub open spec fn rounded(d: DecimalView, places: nat) -> DecimalView {
    if d.scale <= places {
        d
    } else {
        let unit = pow(10, (d.scale - places) as nat) as nat;
        DecimalView {
            mantissa: if d.mantissa < 0 {
                -(round_half_even((-d.mantissa) as nat, unit) as int)
            } else {
                round_half_even(d.mantissa as nat, unit) as int
            },
            scale: places,
        }
    }
}

/// Rounding half-to-even gives a nearest whole number: it is off by at most
/// half a unit, and where it is off by exactly half a unit it is even.
pub proof fn lemma_round_half_even_is_nearest(magnitude: nat, unit: nat)
    requires
        unit > 0,
    ensures
        2 * (round_half_even(magnitude, unit) * unit - magnitude) <= unit,
        2 * (magnitude - round_half_even(magnitude, unit) * unit) <= unit,
        2 * (round_half_even(magnitude, unit) * unit - magnitude) == unit || 2 * (magnitude
            - round_half_even(magnitude, unit) * unit) == unit ==> round_half_even(
            magnitude,
            unit,
        ) % 2 == 0,
{
    let quotient = magnitude as int / unit as int;
    let rest = magnitude as int % unit as int;
    lemma_fundamental_div_mod(magnitude as int, unit as int);
    lemma_mod_bound(magnitude as int, unit as int);
    assert(magnitude == unit * quotient + rest);
    assert((quotient + 1) * unit == unit * quotient + unit) by (nonlinear_arith);
    assert(quotient * unit == unit * quotient) by (nonlinear_arith);
}

/// What `rust_decimal` reads from a text: the number, or `None` where it
/// reports an error.
pub uninterp spec fn decimal_of_text(text: Seq<char>) -> Option<DecimalView>;

/// The views of an optional decimal.
pub open spec fn optional_view(d: Option<Decimal>) -> Option<DecimalView> {
    match d {
        Some(d) => Some(d@),
        None => None,
    }
}

impl View for Decimal {
    type V = DecimalView;

    closed spec fn view(&self) -> DecimalView {
        DecimalView { mantissa: self.mantissa as int, scale: self.scale as nat }
    }
}

impl Decimal {
    #[verifier::type_invariant]
    spec fn in_range(self) -> bool {
        representable(self.mantissa as int, self.scale as int)
    }

    /// The number `mantissa / 10^scale`, if a `Decimal` can hold it.
    pub fn new(mantissa: i128, scale: u32) -> (r: Option<Decimal>)
        ensures
            r is Some <==> representable(mantissa as int, scale as int),
            r matches Some(d) ==> d@ == (DecimalView {
                mantissa: mantissa as int,
                scale: scale as nat,
            }),
    {
        if scale <= MAX_SCALE && -MAX_MANTISSA <= mantissa && mantissa <= MAX_MANTISSA {
            Some(Decimal { mantissa, scale })
        } else {
            None
        }
    }

    /// The whole number that, divided by ten to the scale, gives this number.
    pub fn mantissa(&self) -> (m: i128)
        ensures
            m == self@.mantissa,
            -MAX_MANTISSA <= m <= MAX_MANTISSA,
    {
        proof {
            use_type_invariant(self);
        }
        self.mantissa
    }

    /// The number of fractional digits.
    pub fn scale(&self) -> (s: u32)
        ensures
            s == self@.scale,
            s <= MAX_SCALE,
    {
        proof {
            use_type_invariant(self);
        }
        self.scale
    }
}

/// Calls `rust_decimal::Decimal::from_str_exact`, which reads a decimal
/// number without rounding, and hands back its mantissa and scale. The
/// contract names the outcome. That the number is within the range of a
/// [`Decimal`] rests on the range that `rust_decimal` gives its own type: a
/// mantissa of 96 bits and a scale of at most 28.
#[verifier::external_body]
pub(crate) fn read_decimal(text: &str) -> (r: Option<Decimal>)
    ensures
        optional_view(r) == decimal_of_text(text@),
{
    match rust_decimal::Decimal::from_str_exact(text) {
        Ok(d) => Some(Decimal { mantissa: d.mantissa(), scale: d.scale() }),
        Err(_) => None,
    }
}

/// Calls the `<` of `rust_decimal::Decimal`, which orders decimals as
/// numbers, whatever their scales. Both numbers are first made with
/// `from_i128_with_scale`, which takes every mantissa and scale within the
/// range of a [`Decimal`].
#[verifier::external_body]
pub(crate) fn is_less(a: &Decimal, b: &Decimal) -> (r: bool)
    ensures
        r == less_than(a@, b@),
{
    rust_decimal::Decimal::from_i128_with_scale(a.mantissa, a.scale)
        < rust_decimal::Decimal::from_i128_with_scale(b.mantissa, b.scale)
}

/// Calls `rust_decimal::Decimal::round_dp`, which leaves a number with no
/// more than `places` fractional digits unchanged and rounds any other
/// half-to-even to `places` digits. The number is first made with
/// `from_i128_with_scale`; what comes back is no larger in mantissa or
/// scale than what went in.
#[verifier::external_body]
pub(crate) fn round_to_places(a: &Decimal, places: u32) -> (r: Decimal)
    ensures
        r@ == rounded(a@, places as nat),
{
    let d = rust_decimal::Decimal::from_i128_with_scale(a.mantissa, a.scale).round_dp(places);
    Decimal { mantissa: d.mantissa(), scale: d.scale() }
}

} // verus!
