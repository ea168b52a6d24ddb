//! Purchases, the fee that a sale costs, and offers to sell.

use vstd::prelude::*;
use std::cmp::Ordering;
use crate::decimal::{
    checked_div, checked_mul, checked_sub, difference, ordering_of, product, quotient, Btc,
    BtcExchangeRate, Cash, Decimal, Percentage,
};

verus! {

/// A past buy of bitcoin. The lower the rate, the better the purchase.
#[derive(Clone, Copy, Debug)]
pub struct Purchase {
    /// Unique with overwhelming probability: drawn at random when the
    /// purchase is made.
    pub id: u128,
    /// How much bitcoin was bought.
    pub btc: Btc,
    /// The rate at which it was bought, buying fees included, so that the
    /// price paid is `btc * rate`.
    pub rate: BtcExchangeRate,
}

/// The cut that the marketplace takes from a sale.
#[derive(Clone, Copy, Debug)]
pub enum Fee {
    /// So many percentage points of the margin.
    Percentage(Percentage),
    /// No cut at all.
    NoFee,
}

/// A batch of purchases proposed for sale at one rate, cheapest first.
#[derive(Debug)]
pub struct Offer {
    pub id: u128,
    /// The rate that the purchases were evaluated against.
    pub rate: BtcExchangeRate,
    /// The purchases to sell, in ascending order of their buy rates.
    pub purchases: Vec<Purchase>,
}

/// Whether the bits that mark a random identifier are set: version 4 in bits
/// 76 to 79, the variant `10` in bits 62 and 63.
pub open spec fn is_random_id(id: u128) -> bool {
    id & 0xF000_C000_0000_0000_0000 == 0x4000_8000_0000_0000_0000
}

/// Calls `uuid::Uuid::new_v4` and reads the identifier as a number. Trusted:
/// the version and variant bits are those of a random identifier. All other
/// bits are drawn anew at each call, and nothing is said of them.
#[verifier::external_body]
fn fresh_id() -> (id: u128)
    ensures
        is_random_id(id),
{
    uuid::Uuid::new_v4().as_u128()
}

/// What is left of a gross margin once the fee is paid:
/// `gross - gross / 100 * p` for a fee of `p` percent, and `gross` for none.
/// `None` where a step of the arithmetic is out of range.
pub open spec fn spec_net_margin(gross_margin: Cash, fee: Fee) -> Option<Cash> {
    match fee {
        Fee::NoFee => Some(gross_margin),
        Fee::Percentage(p) => match quotient(gross_margin, Decimal::hundred()) {
            Some(hundredth) => match product(hundredth, p) {
                Some(flat_fee) => difference(gross_margin, flat_fee),
                None => None,
            },
            None => None,
        },
    }
}

/// What is left of a gross margin once the fee is paid.
pub fn net_margin(gross_margin: Cash, fee: Fee) -> (net: Cash)
    requires
        spec_net_margin(gross_margin, fee) is Some,
    ensures
        Some(net) == spec_net_margin(gross_margin, fee),
{
    match fee {
        Fee::NoFee => gross_margin,
        Fee::Percentage(p) => {
            let hundredth = checked_div(gross_margin, Decimal::hundred()).unwrap();
            let flat_fee = checked_mul(hundredth, p).unwrap();
            checked_sub(gross_margin, flat_fee).unwrap()
        },
    }
}

/// What is left of a gross margin once the fee is paid, or `None` where a
/// step of the arithmetic is out of range.
pub fn try_net_margin(gross_margin: Cash, fee: Fee) -> (net: Option<Cash>)
    ensures
        net == spec_net_margin(gross_margin, fee),
{
    match fee {
        Fee::NoFee => Some(gross_margin),
        Fee::Percentage(p) => match checked_div(gross_margin, Decimal::hundred()) {
            Some(hundredth) => match checked_mul(hundredth, p) {
                Some(flat_fee) => match checked_sub(gross_margin, flat_fee) {
                    Some(_) => Some(net_margin(gross_margin, fee)),
                    None => None,
                },
                None => None,
            },
            None => None,
        },
    }
}

impl Purchase {
    /// The price paid: `btc * rate`.
    pub open spec fn spec_buying_price(self) -> Option<Cash> {
        product(self.btc, self.rate)
    }

    /// The gross margin of a sale at `current_trend`:
    /// `btc * current_trend - buying_price`.
    pub open spec fn spec_margin(self, current_trend: BtcExchangeRate) -> Option<Cash> {
        match (product(self.btc, current_trend), self.spec_buying_price()) {
            (Some(proceeds), Some(cost)) => difference(proceeds, cost),
            _ => None,
        }
    }

    /// The margin of a sale at `current_trend` once the fee is paid.
    pub open spec fn spec_margin_after_fee(
        self,
        current_trend: BtcExchangeRate,
        fee: Fee,
    ) -> Option<Cash> {
        match self.spec_margin(current_trend) {
            Some(gross) => spec_net_margin(gross, fee),
            None => None,
        }
    }

    /// The least margin that justifies a sale:
    /// `buying_price * min_margin / 100`.
    pub open spec fn spec_required_margin(self, min_margin: Percentage) -> Option<Cash> {
        match self.spec_buying_price() {
            Some(cost) => match product(cost, min_margin) {
                Some(scaled) => quotient(scaled, Decimal::hundred()),
                None => None,
            },
            None => None,
        }
    }

    /// Whether a sale at `rate` leaves more than the required margin: the net
    /// margin is strictly greater. `None` where the arithmetic is out of
    /// range.
    pub open spec fn spec_is_profitable(
        self,
        rate: BtcExchangeRate,
        fee: Fee,
        min_margin: Percentage,
    ) -> Option<bool> {
        match (self.spec_margin_after_fee(rate, fee), self.spec_required_margin(min_margin)) {
            (Some(net), Some(required)) => Some(net.scaled() > required.scaled()),
            _ => None,
        }
    }

    /// Whether a sale at `rate` is worth it, where that can be computed.
    pub open spec fn profitable(
        self,
        rate: BtcExchangeRate,
        fee: Fee,
        min_margin: Percentage,
    ) -> bool {
        self.spec_is_profitable(rate, fee, min_margin) == Some(true)
    }

    /// A new purchase of `btc` bitcoin at `rate`, under a fresh identifier.
    pub fn new(btc: Btc, rate: BtcExchangeRate) -> (p: Self)
        ensures
            p.btc == btc,
            p.rate == rate,
            is_random_id(p.id),
    {
        Self { id: fresh_id(), btc, rate }
    }

    /// What we would make on the purchase if we sold it at `current_trend`
    /// and paid the fee.
    pub fn margin_after_fee(&self, current_trend: BtcExchangeRate, fee: Fee) -> (net: Cash)
        requires
            self.spec_margin_after_fee(current_trend, fee) is Some,
        ensures
            Some(net) == self.spec_margin_after_fee(current_trend, fee),
    {
        let margin = self.margin(current_trend);
        net_margin(margin, fee)
    }

    /// What we would make on the purchase if we sold it at `current_trend`,
    /// the selling fee left aside.
    pub fn margin(&self, current_trend: BtcExchangeRate) -> (gross: Cash)
        requires
            self.spec_margin(current_trend) is Some,
        ensures
            Some(gross) == self.spec_margin(current_trend),
    {
        let proceeds = checked_mul(self.btc, current_trend).unwrap();
        checked_sub(proceeds, self.buying_price()).unwrap()
    }

    /// What we paid for the purchase in total, fees included.
    pub fn buying_price(&self) -> (cost: Cash)
        requires
            self.spec_buying_price() is Some,
        ensures
            Some(cost) == self.spec_buying_price(),
    {
        checked_mul(self.btc, self.rate).unwrap()
    }

    /// Whether selling the purchase at `rate` leaves more than `min_margin`
    /// percent of what it cost.
    pub fn is_profitable(&self, rate: BtcExchangeRate, fee: Fee, min_margin: Percentage) -> (b:
        bool)
        requires
            self.spec_is_profitable(rate, fee, min_margin) is Some,
        ensures
            Some(b) == self.spec_is_profitable(rate, fee, min_margin),
            b == self.profitable(rate, fee, min_margin),
    {
        let margin = self.margin_after_fee(rate, fee);
        let scaled = checked_mul(self.buying_price(), min_margin).unwrap();
        let flat_minimum_margin = checked_div(scaled, Decimal::hundred()).unwrap();
        margin > flat_minimum_margin
    }

    /// Whether the arithmetic that `is_profitable` does at these values stays
    /// in range.
    pub fn evaluable(&self, rate: BtcExchangeRate, fee: Fee, min_margin: Percentage) -> (b: bool)
        ensures
            b == self.spec_is_profitable(rate, fee, min_margin) is Some,
    {
        let cost = match checked_mul(self.btc, self.rate) {
            Some(cost) => cost,
            None => {
                return false;
            },
        };
        let proceeds = match checked_mul(self.btc, rate) {
            Some(proceeds) => proceeds,
            None => {
                return false;
            },
        };
        let gross = match checked_sub(proceeds, cost) {
            Some(gross) => gross,
            None => {
                return false;
            },
        };
        let net_in_range = try_net_margin(gross, fee).is_some();
        let required_in_range = match checked_mul(cost, min_margin) {
            Some(scaled) => checked_div(scaled, Decimal::hundred()).is_some(),
            None => false,
        };
        net_in_range && required_in_range
    }
}

impl PartialEq for Purchase {
    /// Purchases are told apart by their identifiers alone.
    fn eq(&self, other: &Self) -> (r: bool) {
        self.id == other.id
    }
}

impl vstd::std_specs::cmp::PartialEqSpecImpl for Purchase {
    open spec fn obeys_eq_spec() -> bool {
        true
    }

    open spec fn eq_spec(&self, other: &Self) -> bool {
        self.id == other.id
    }
}

impl Eq for Purchase {

}

impl PartialOrd for Purchase {
    /// The purchase with the lower rate is the greater one.
    fn partial_cmp(&self, other: &Self) -> (r: Option<Ordering>) {
        other.rate.partial_cmp(&self.rate)
    }
}

impl vstd::std_specs::cmp::PartialOrdSpecImpl for Purchase {
    open spec fn obeys_partial_cmp_spec() -> bool {
        true
    }

    open spec fn partial_cmp_spec(&self, other: &Self) -> Option<Ordering> {
        Some(ordering_of(other.rate.scaled(), self.rate.scaled()))
    }
}

impl Offer {
    /// An offer to sell `purchases` at `rate`, under a fresh identifier.
    pub fn new(rate: BtcExchangeRate, purchases: Vec<Purchase>) -> (o: Self)
        ensures
            o.rate == rate,
            o.purchases == purchases,
            is_random_id(o.id),
    {
        Self { id: fresh_id(), rate, purchases }
    }
}

} // verus!
