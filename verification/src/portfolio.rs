//! Holdings, the portfolio that lists them, and the figures of one holding
//! at a given price.

use crate::decimal::{sign_of, Amount, Decimal, Percent, PRODUCT_MAX_UNITS};
use crate::price_map::PriceMap;
use crate::text::texts;
use vstd::prelude::*;

verus! {

/// One purchased position.
#[derive(Debug)]
pub struct Holding {
    /// The symbol of the instrument held.
    pub ticker: String,
    /// How much of it is held; may be fractional or negative.
    pub quantity: Decimal,
    /// The price paid per unit.
    pub cost_basis: Decimal,
    /// When it was bought, kept as written.
    pub date_purchased: String,
}

impl Clone for Holding {
    fn clone(&self) -> (result: Holding)
        ensures
            result == *self,
    {
        Holding {
            ticker: self.ticker.clone(),
            quantity: self.quantity,
            cost_basis: self.cost_basis,
            date_purchased: self.date_purchased.clone(),
        }
    }
}

/// A holding together with the current price of its instrument.
#[derive(Debug)]
pub struct HoldingWithPrice {
    pub holding: Holding,
    pub current_price: Decimal,
}

impl Clone for HoldingWithPrice {
    fn clone(&self) -> (result: HoldingWithPrice)
        ensures
            result == *self,
    {
        HoldingWithPrice { holding: self.holding.clone(), current_price: self.current_price }
    }
}

impl HoldingWithPrice {
    /// What the holding is worth at the current price, in `Amount` units.
    pub open spec fn value(&self) -> int {
        self.holding.quantity@ * self.current_price@
    }

    /// What the holding cost, in `Amount` units.
    pub open spec fn cost(&self) -> int {
        self.holding.quantity@ * self.holding.cost_basis@
    }

    /// What has been gained (or, if negative, lost) on the holding, in
    /// `Amount` units.
    pub open spec fn gain(&self) -> int {
        self.value() - self.cost()
    }

    /// The quantity held times the current price.
    pub fn current_value(&self) -> (result: Amount)
        ensures
            result@ == self.holding.quantity@ * self.current_price@,
            -PRODUCT_MAX_UNITS <= result@ <= PRODUCT_MAX_UNITS,
    {
        self.holding.quantity.times(&self.current_price)
    }

    /// The quantity held times the price paid per unit.
    pub fn total_cost(&self) -> (result: Amount)
        ensures
            result@ == self.holding.quantity@ * self.holding.cost_basis@,
            -PRODUCT_MAX_UNITS <= result@ <= PRODUCT_MAX_UNITS,
    {
        self.holding.quantity.times(&self.holding.cost_basis)
    }

    /// The current value less the total cost.
    pub fn gain_loss(&self) -> (result: Amount)
        ensures
            result@ == self.value() - self.cost(),
    {
        let value = self.current_value();
        let cost = self.total_cost();
        value.minus(&cost)
    }

    /// The gain or loss as a percentage of the total cost, held exactly: a
    /// hundred times the gain or loss divided by the total cost, and zero
    /// when the total cost is zero. A gain is above zero and a loss below
    /// it, however small.
    pub fn gain_loss_percentage(&self) -> (result: Percent)
        ensures
            result.part@ == self.gain(),
            result.whole@ == self.cost(),
            self.cost() == 0 ==> result.sign() == 0,
            self.gain() != 0 && self.cost() != 0 ==> result.sign() != 0,
            result.sign() == sign_of(self.gain()) * sign_of(self.cost()),
    {
        let cost = self.total_cost();
        let gain = self.gain_loss();
        gain.percent_of(&cost)
    }
}

/// The price that `prices` gives for `ticker`, in `Decimal` units; zero if
/// it gives none.
pub open spec fn price_or_zero(prices: Map<Seq<char>, int>, ticker: Seq<char>) -> int {
    if prices.contains_key(ticker) {
        prices[ticker]
    } else {
        0
    }
}

/// An ordered list of holdings.
#[derive(Debug)]
pub struct Portfolio {
    pub holdings: Vec<Holding>,
}

impl Portfolio {
    /// The tickers of the holdings, in order, one per holding.
    pub open spec fn tickers(&self) -> Seq<Seq<char>> {
        self.holdings@.map_values(|h: Holding| h.ticker@)
    }

    /// The ticker of every holding, in holding order; a ticker held twice
    /// appears twice.
    pub fn get_tickers(&self) -> (result: Vec<String>)
        ensures
            texts(result@) == self.tickers(),
    {
        let mut result: Vec<String> = Vec::new();
        let mut i: usize = 0;
        while i < self.holdings.len()
            invariant
                i <= self.holdings.len(),
                result.len() == i,
                forall|j: int| 0 <= j < i ==> result[j]@ == self.holdings[j].ticker@,
            decreases self.holdings.len() - i,
        {
            result.push(self.holdings[i].ticker.clone());
            i += 1;
        }
        assert(texts(result@) =~= self.tickers());
        result
    }

    /// Every holding paired with the price that `prices` gives for its
    /// ticker, or with zero if it gives none, in holding order.
    pub fn holdings_with_prices(&self, prices: &PriceMap) -> (result: Vec<HoldingWithPrice>)
        ensures
            result.len() == self.holdings.len(),
            forall|i: int|
                0 <= i < result.len() ==> {
                    &&& (#[trigger] result[i]).holding == self.holdings[i]
                    &&& result[i].current_price@ == price_or_zero(
                        prices@,
                        self.holdings[i].ticker@,
                    )
                },
    {
        let mut result: Vec<HoldingWithPrice> = Vec::new();
        let mut i: usize = 0;
        while i < self.holdings.len()
            invariant
                i <= self.holdings.len(),
                result.len() == i,
                forall|j: int|
                    0 <= j < i ==> {
                        &&& (#[trigger] result[j]).holding == self.holdings[j]
                        &&& result[j].current_price@ == price_or_zero(
                            prices@,
                            self.holdings[j].ticker@,
                        )
                    },
            decreases self.holdings.len() - i,
        {
            let holding = self.holdings[i].clone();
            let current_price = match prices.get(holding.ticker.as_str()) {
                Some(price) => price,
                None => Decimal::zero(),
            };
            result.push(HoldingWithPrice { holding, current_price });
            i += 1;
        }
        result
    }
}

} // verus!
