//! Fixed-point numbers for quantities, prices and money amounts, and
//! percentages held as the exact ratios they come from.
//!
//! Every figure is a whole count of small units, so that products, sums and
//! differences are exact. A quantity or a price is a `Decimal`: a 64-bit
//! count of hundred-millionths. An `Amount` is wide enough for the product
//! of any two decimals and for the sum of as many such products as a vector
//! can hold, so that no report is limited in the number of its holdings.
//! Nothing is ever divided: a `Percent` keeps its two amounts, and rounding
//! is left to whoever displays it.

use vstd::prelude::*;

verus! {

/// Number of units in one whole: a `Decimal` counts hundred-millionths.
pub const DECIMAL_SCALE: i64 = 100_000_000;

/// Largest magnitude of a `Decimal` that is read from text, in units.
pub const DECIMAL_MAX_UNITS: i64 = 9_223_372_036_854_775_807;

/// Largest magnitude of the product of two `Decimal`s, in `Amount` units:
/// the square of 2^63.
pub const PRODUCT_MAX_UNITS: i128 = 85_070_591_730_234_615_865_843_651_857_942_052_864;

/// The count that the low part of an `Amount` stays below: 10^30.
pub const AMOUNT_LIMB: i128 = 1_000_000_000_000_000_000_000_000_000_000;

/// The count that the high part of an `Amount` stays below in magnitude:
/// 10^36, which leaves room for 2^64 of the largest products.
pub const AMOUNT_HIGH_LIMIT: i128 = 1_000_000_000_000_000_000_000_000_000_000_000_000;

/// A signed decimal number with eight fractional digits, held as a count of
/// hundred-millionths. Quantities, unit costs and prices are `Decimal`s.
#[derive(Clone, Copy, Debug)]
pub struct Decimal {
    units: i64,
}

impl View for Decimal {
    type V = int;

    /// The number of hundred-millionths this decimal stands for.
    closed spec fn view(&self) -> int {
        self.units as int
    }
}

impl Decimal {
    /// The decimal of `units` hundred-millionths.
    pub fn from_units(units: i64) -> (result: Decimal)
        ensures
            result@ == units,
    {
        Decimal { units }
    }

    /// Zero.
    pub fn zero() -> (result: Decimal)
        ensures
            result@ == 0,
    {
        Decimal { units: 0 }
    }

    /// The count of hundred-millionths.
    pub fn units(&self) -> (result: i64)
        ensures
            result == self@,
    {
        self.units
    }

    /// The exact product of two decimals, as when a quantity is multiplied
    /// by a price.
    pub fn times(&self, other: &Decimal) -> (result: Amount)
        ensures
            result@ == self@ * other@,
            -PRODUCT_MAX_UNITS <= result@ <= PRODUCT_MAX_UNITS,
    {
        proof {
            lemma_product_bound(self@, other@);
        }
        Amount::from_units((self.units as i128) * (other.units as i128))
    }
}

/// The product of two 64-bit counts is at most the square of 2^63 in
/// magnitude.
pub proof fn lemma_product_bound(a: int, b: int)
    requires
        -0x8000_0000_0000_0000 <= a < 0x8000_0000_0000_0000,
        -0x8000_0000_0000_0000 <= b < 0x8000_0000_0000_0000,
    ensures
        -PRODUCT_MAX_UNITS <= a * b <= PRODUCT_MAX_UNITS,
{
    assert(-85_070_591_730_234_615_865_843_651_857_942_052_864 <= a * b
        <= 85_070_591_730_234_615_865_843_651_857_942_052_864) by (nonlinear_arith)
        requires
            -9_223_372_036_854_775_808 <= a <= 9_223_372_036_854_775_808,
            -9_223_372_036_854_775_808 <= b <= 9_223_372_036_854_775_808,
    ;
}

/// The count that a high part and a low part stand for together.
pub open spec fn limbs(high: int, low: int) -> int {
    high * 1_000_000_000_000_000_000_000_000_000_000 + low
}

/// Whether `units` is a count that an `Amount` can hold: one of less than
/// 10^66 in magnitude.
pub open spec fn amount_in_range(units: int) -> bool {
    -1_000_000_000_000_000_000_000_000_000_000_000_000_000_000_000_000_000_000_000_000_000_000int
        <= units
        < 1_000_000_000_000_000_000_000_000_000_000_000_000_000_000_000_000_000_000_000_000_000_000int
}

/// A signed amount of money with sixteen fractional digits, held as a count
/// of units of 10^-16: the scale of a quantity multiplied by a price. The
/// count is kept in two parts, a high part that counts 10^30 units and a low
/// part below that.
#[derive(Clone, Copy, Debug)]
pub struct Amount {
    high: i128,
    low: i128,
}

impl View for Amount {
    type V = int;

    /// The number of units of 10^-16 this amount stands for.
    closed spec fn view(&self) -> int {
        limbs(self.high as int, self.low as int)
    }
}

impl Amount {
    /// The low part is a count below 10^30 and the high part is within its
    /// limit.
    #[verifier::type_invariant]
    spec fn well_formed(self) -> bool {
        &&& 0 <= self.low < AMOUNT_LIMB
        &&& -AMOUNT_HIGH_LIMIT <= self.high < AMOUNT_HIGH_LIMIT
    }

    /// The amount of `units`.
    pub fn from_units(units: i128) -> (result: Amount)
        ensures
            result@ == units,
    {
        if units >= 0 {
            Amount { high: units / AMOUNT_LIMB, low: units % AMOUNT_LIMB }
        } else {
            // Kept above the least `i128`, whose negative does not exist.
            let below: i128 = -(units + 1);
            let high = below / AMOUNT_LIMB;
            let low = below % AMOUNT_LIMB;
            Amount { high: -high - 1, low: AMOUNT_LIMB - 1 - low }
        }
    }

    /// The count of units, if it is within the range of `i128`.
    pub fn to_units(&self) -> (result: Option<i128>)
        ensures
            result is Some <==> i128::MIN <= self@ <= i128::MAX,
            result is Some ==> result.unwrap() == self@,
            amount_in_range(self@),
    {
        proof {
            use_type_invariant(self);
        }
        if -170_141_183 <= self.high && self.high <= 170_141_182 {
            Some(self.high * AMOUNT_LIMB + self.low)
        } else if self.high == 170_141_183 && self.low
            <= 460_469_231_731_687_303_715_884_105_727 {
            Some(self.high * AMOUNT_LIMB + self.low)
        } else if self.high == -170_141_184 && self.low
            >= 539_530_768_268_312_696_284_115_894_272 {
            Some((self.high + 1) * AMOUNT_LIMB + (self.low - AMOUNT_LIMB))
        } else {
            None
        }
    }

    /// The high part: how many times 10^30 units the amount holds, rounded
    /// down.
    pub fn high(&self) -> (result: i128)
        ensures
            self@ == limbs(result as int, self.low_part()),
            -AMOUNT_HIGH_LIMIT <= result < AMOUNT_HIGH_LIMIT,
    {
        proof {
            use_type_invariant(self);
        }
        self.high
    }

    /// The low part: the units beyond the high part, fewer than 10^30.
    pub fn low(&self) -> (result: i128)
        ensures
            result == self.low_part(),
            0 <= result < AMOUNT_LIMB,
    {
        proof {
            use_type_invariant(self);
        }
        self.low
    }

    /// The units beyond the high part.
    pub closed spec fn low_part(&self) -> int {
        self.low as int
    }

    /// Whether the amount is zero.
    pub fn is_zero(&self) -> (result: bool)
        ensures
            result == (self@ == 0),
    {
        proof {
            use_type_invariant(self);
        }
        self.high == 0 && self.low == 0
    }

    /// Whether the amount is less than zero.
    pub fn is_negative(&self) -> (result: bool)
        ensures
            result == (self@ < 0),
    {
        proof {
            use_type_invariant(self);
        }
        self.high < 0
    }

    /// The sum of two amounts.
    pub fn plus(&self, other: &Amount) -> (result: Amount)
        requires
            amount_in_range(self@ + other@),
        ensures
            result@ == self@ + other@,
    {
        proof {
            use_type_invariant(self);
            use_type_invariant(other);
        }
        let low = self.low + other.low;
        if low >= AMOUNT_LIMB {
            Amount { high: self.high + other.high + 1, low: low - AMOUNT_LIMB }
        } else {
            Amount { high: self.high + other.high, low }
        }
    }

    /// The difference of two amounts.
    pub fn minus(&self, other: &Amount) -> (result: Amount)
        requires
            amount_in_range(self@ - other@),
        ensures
            result@ == self@ - other@,
    {
        proof {
            use_type_invariant(self);
            use_type_invariant(other);
        }
        let low = self.low - other.low;
        if low < 0 {
            Amount { high: self.high - other.high - 1, low: low + AMOUNT_LIMB }
        } else {
            Amount { high: self.high - other.high, low }
        }
    }

    /// This amount as a percentage of `whole`.
    pub fn percent_of(&self, whole: &Amount) -> (result: Percent)
        ensures
            result.part@ == self@,
            result.whole@ == whole@,
    {
        Percent { part: *self, whole: *whole }
    }
}

/// A percentage, held exactly as the two amounts it compares: it stands for
/// a hundred times `part` divided by `whole`, and for zero where `whole` is
/// zero. It is never rounded here; to show it, divide.
#[derive(Clone, Copy, Debug)]
pub struct Percent {
    /// The amount that is compared.
    pub part: Amount,
    /// The amount that it is compared with.
    pub whole: Amount,
}

/// The sign of `x`: -1, 0 or 1.
pub open spec fn sign_of(x: int) -> int {
    if x < 0 {
        -1
    } else if x == 0 {
        0
    } else {
        1
    }
}

impl Percent {
    /// The sign of the percentage: that of `part` divided by `whole`, and
    /// zero where `whole` is zero.
    pub open spec fn sign(&self) -> int {
        sign_of(self.part@) * sign_of(self.whole@)
    }

    /// Whether the percentage is zero: `part` is zero or `whole` is.
    pub fn is_zero(&self) -> (result: bool)
        ensures
            result == (self.sign() == 0),
            result == (self.part@ == 0 || self.whole@ == 0),
    {
        self.part.is_zero() || self.whole.is_zero()
    }

    /// Whether the percentage is less than zero: `part` and `whole` are
    /// neither zero and one of them is negative.
    pub fn is_negative(&self) -> (result: bool)
        ensures
            result == (self.sign() < 0),
            result == ((self.part@ < 0 && self.whole@ > 0) || (self.part@ > 0 && self.whole@
                < 0)),
    {
        !self.is_zero() && (self.part.is_negative() != self.whole.is_negative())
    }
}

} // verus!
