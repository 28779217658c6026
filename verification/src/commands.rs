//! The figures of the three reports: balances, allocation and performance.
//!
//! Each command takes a portfolio and the prices resolved for its tickers
//! and returns the rows and totals to present, in holding order. Every
//! figure is exact; a percentage is given as the two amounts it compares.

use crate::decimal::{Amount, Decimal, Percent};
use crate::portfolio::{price_or_zero, Holding, HoldingWithPrice, Portfolio};
use crate::price_map::PriceMap;
use vstd::prelude::*;

verus! {

/// What `holding` is worth at the price `prices` gives for its ticker, in
/// `Amount` units.
pub open spec fn holding_value(holding: Holding, prices: Map<Seq<char>, int>) -> int {
    holding.quantity@ * price_or_zero(prices, holding.ticker@)
}

/// What `holding` cost, in `Amount` units.
pub open spec fn holding_cost(holding: Holding) -> int {
    holding.quantity@ * holding.cost_basis@
}

/// The sum of the values of `holdings`, in `Amount` units.
pub open spec fn total_value(holdings: Seq<Holding>, prices: Map<Seq<char>, int>) -> int
    decreases holdings.len(),
{
    if holdings.len() == 0 {
        0
    } else {
        total_value(holdings.drop_last(), prices) + holding_value(holdings.last(), prices)
    }
}

/// The sum of the costs of `holdings`, in `Amount` units.
pub open spec fn total_cost(holdings: Seq<Holding>) -> int
    decreases holdings.len(),
{
    if holdings.len() == 0 {
        0
    } else {
        total_cost(holdings.drop_last()) + holding_cost(holdings.last())
    }
}

/// The totals of value and of cost over the priced holdings `priced`.
fn totals(
    priced: &Vec<HoldingWithPrice>,
    Ghost(holdings): Ghost<Seq<Holding>>,
    Ghost(prices): Ghost<Map<Seq<char>, int>>,
) -> (result: (Amount, Amount))
    requires
        priced.len() == holdings.len(),
        forall|i: int|
            0 <= i < priced.len() ==> {
                &&& (#[trigger] priced[i]).holding == holdings[i]
                &&& priced[i].current_price@ == price_or_zero(prices, holdings[i].ticker@)
            },
    ensures
        result.0@ == total_value(holdings, prices),
        result.1@ == total_cost(holdings),
        -85_070_591_730_234_615_865_843_651_857_942_052_864 * holdings.len() <= result.0@
            <= 85_070_591_730_234_615_865_843_651_857_942_052_864 * holdings.len(),
        -85_070_591_730_234_615_865_843_651_857_942_052_864 * holdings.len() <= result.1@
            <= 85_070_591_730_234_615_865_843_651_857_942_052_864 * holdings.len(),
        holdings.len() <= usize::MAX,
{
    let mut value = Amount::from_units(0);
    let mut cost = Amount::from_units(0);
    let mut i: usize = 0;
    while i < priced.len()
        invariant
            i <= priced.len(),
            priced.len() == holdings.len(),
            forall|j: int|
                0 <= j < priced.len() ==> {
                    &&& (#[trigger] priced[j]).holding == holdings[j]
                    &&& priced[j].current_price@ == price_or_zero(prices, holdings[j].ticker@)
                },
            value@ == total_value(holdings.take(i as int), prices),
            cost@ == total_cost(holdings.take(i as int)),
            -85_070_591_730_234_615_865_843_651_857_942_052_864 * i <= value@
                <= 85_070_591_730_234_615_865_843_651_857_942_052_864 * i,
            -85_070_591_730_234_615_865_843_651_857_942_052_864 * i <= cost@
                <= 85_070_591_730_234_615_865_843_651_857_942_052_864 * i,
        decreases priced.len() - i,
    {
        assert(holdings.take(i + 1).drop_last() =~= holdings.take(i as int));
        assert(priced[i as int].holding == holdings[i as int]);
        assert(i < 0x1_0000_0000_0000_0000);
        value = value.plus(&priced[i].current_value());
        cost = cost.plus(&priced[i].total_cost());
        i += 1;
    }
    assert(holdings.take(i as int) =~= holdings);
    (value, cost)
}

/// One line of the balances report.
#[derive(Debug)]
pub struct BalanceRow {
    pub ticker: String,
    pub quantity: Decimal,
    pub current_price: Decimal,
    pub value: Amount,
}

impl BalanceRow {
    /// Whether this row shows `holding` at the price that `prices` gives it.
    pub open spec fn shows(&self, holding: Holding, prices: Map<Seq<char>, int>) -> bool {
        &&& self.ticker@ == holding.ticker@
        &&& self.quantity@ == holding.quantity@
        &&& self.current_price@ == price_or_zero(prices, holding.ticker@)
        &&& self.value@ == holding_value(holding, prices)
    }
}

/// The balances report: one row per holding and the value of them all.
#[derive(Debug)]
pub struct BalanceReport {
    pub rows: Vec<BalanceRow>,
    pub total_value: Amount,
}

/// The balances of `portfolio` at `prices`: for each holding its ticker,
/// quantity, price and value, and the sum of the values.
pub fn balance_command(portfolio: &Portfolio, prices: &PriceMap) -> (report: BalanceReport)
    ensures
        report.rows.len() == portfolio.holdings.len(),
        forall|i: int|
            0 <= i < report.rows.len() ==> (#[trigger] report.rows[i]).shows(
                portfolio.holdings[i],
                prices@,
            ),
        report.total_value@ == total_value(portfolio.holdings@, prices@),
{
    let priced = portfolio.holdings_with_prices(prices);
    let mut rows: Vec<BalanceRow> = Vec::new();
    let mut i: usize = 0;
    while i < priced.len()
        invariant
            i <= priced.len(),
            priced.len() == portfolio.holdings.len(),
            rows.len() == i,
            forall|j: int|
                0 <= j < priced.len() ==> {
                    &&& (#[trigger] priced[j]).holding == portfolio.holdings[j]
                    &&& priced[j].current_price@ == price_or_zero(
                        prices@,
                        portfolio.holdings[j].ticker@,
                    )
                },
            forall|j: int|
                0 <= j < i ==> (#[trigger] rows[j]).shows(portfolio.holdings[j], prices@),
        decreases priced.len() - i,
    {
        let item = &priced[i];
        assert(item.holding == portfolio.holdings[i as int]);
        rows.push(
            BalanceRow {
                ticker: item.holding.ticker.clone(),
                quantity: item.holding.quantity,
                current_price: item.current_price,
                value: item.current_value(),
            },
        );
        i += 1;
    }
    let (value, _) = totals(&priced, Ghost(portfolio.holdings@), Ghost(prices@));
    BalanceReport { rows, total_value: value }
}

/// One line of the allocation report.
#[derive(Debug)]
pub struct AllocationRow {
    pub ticker: String,
    /// The holding's value as a percentage of the value of all holdings.
    pub percentage: Percent,
}

/// The allocation report: one row per holding.
#[derive(Debug)]
pub struct AllocationReport {
    pub rows: Vec<AllocationRow>,
}

/// The sum of the parts of the percentages of `rows`, in `Amount` units.
pub open spec fn total_of_parts(rows: Seq<AllocationRow>) -> int
    decreases rows.len(),
{
    if rows.len() == 0 {
        0
    } else {
        total_of_parts(rows.drop_last()) + rows.last().percentage.part@
    }
}

/// Rows whose parts are the values of the holdings have the value of all
/// holdings as the sum of their parts.
pub proof fn lemma_parts_make_the_whole(
    rows: Seq<AllocationRow>,
    holdings: Seq<Holding>,
    prices: Map<Seq<char>, int>,
)
    requires
        rows.len() == holdings.len(),
        forall|i: int|
            0 <= i < rows.len() ==> (#[trigger] rows[i]).percentage.part@ == holding_value(
                holdings[i],
                prices,
            ),
    ensures
        total_of_parts(rows) == total_value(holdings, prices),
    decreases rows.len(),
{
    if rows.len() > 0 {
        lemma_parts_make_the_whole(rows.drop_last(), holdings.drop_last(), prices);
    }
}

/// The allocation of `portfolio` at `prices`: for each holding its ticker
/// and its value as a percentage of the value of all holdings. The
/// percentages are exact, so they make up one hundred percent together: the
/// parts of all rows sum to the whole of each. Where the value of all
/// holdings is zero, every percentage is zero.
pub fn allocation_command(portfolio: &Portfolio, prices: &PriceMap) -> (report: AllocationReport)
    ensures
        report.rows.len() == portfolio.holdings.len(),
        forall|i: int|
            0 <= i < report.rows.len() ==> {
                &&& (#[trigger] report.rows[i]).ticker@ == portfolio.holdings[i].ticker@
                &&& report.rows[i].percentage.part@ == holding_value(
                    portfolio.holdings[i],
                    prices@,
                )
                &&& report.rows[i].percentage.whole@ == total_value(portfolio.holdings@, prices@)
                &&& report.rows[i].percentage.whole@ == total_of_parts(report.rows@)
            },
        total_of_parts(report.rows@) == total_value(portfolio.holdings@, prices@),
        total_value(portfolio.holdings@, prices@) == 0 ==> forall|i: int|
            0 <= i < report.rows.len() ==> (#[trigger] report.rows[i]).percentage.sign() == 0,
{
    let priced = portfolio.holdings_with_prices(prices);
    let (whole, _) = totals(&priced, Ghost(portfolio.holdings@), Ghost(prices@));
    let mut rows: Vec<AllocationRow> = Vec::new();
    let mut i: usize = 0;
    while i < priced.len()
        invariant
            i <= priced.len(),
            priced.len() == portfolio.holdings.len(),
            rows.len() == i,
            whole@ == total_value(portfolio.holdings@, prices@),
            forall|j: int|
                0 <= j < priced.len() ==> {
                    &&& (#[trigger] priced[j]).holding == portfolio.holdings[j]
                    &&& priced[j].current_price@ == price_or_zero(
                        prices@,
                        portfolio.holdings[j].ticker@,
                    )
                },
            forall|j: int|
                0 <= j < i ==> {
                    &&& (#[trigger] rows[j]).ticker@ == portfolio.holdings[j].ticker@
                    &&& rows[j].percentage.part@ == holding_value(portfolio.holdings[j], prices@)
                    &&& rows[j].percentage.whole@ == whole@
                },
        decreases priced.len() - i,
    {
        let item = &priced[i];
        assert(item.holding == portfolio.holdings[i as int]);
        rows.push(
            AllocationRow {
                ticker: item.holding.ticker.clone(),
                percentage: item.current_value().percent_of(&whole),
            },
        );
        i += 1;
    }
    proof {
        lemma_parts_make_the_whole(rows@, portfolio.holdings@, prices@);
    }
    AllocationReport { rows }
}

/// One line of the performance report.
#[derive(Debug)]
pub struct PerformanceRow {
    pub ticker: String,
    pub cost_basis: Decimal,
    pub current_price: Decimal,
    /// The gain or loss as a percentage of the holding's cost.
    pub return_percentage: Percent,
    pub gain_loss: Amount,
}

impl PerformanceRow {
    /// Whether this row shows `holding` at the price that `prices` gives it.
    pub open spec fn shows(&self, holding: Holding, prices: Map<Seq<char>, int>) -> bool {
        &&& self.ticker@ == holding.ticker@
        &&& self.cost_basis@ == holding.cost_basis@
        &&& self.current_price@ == price_or_zero(prices, holding.ticker@)
        &&& self.gain_loss@ == holding_value(holding, prices) - holding_cost(holding)
        &&& self.return_percentage.part@ == holding_value(holding, prices) - holding_cost(
            holding,
        )
        &&& self.return_percentage.whole@ == holding_cost(holding)
    }
}

/// The performance report: one row per holding, and the return and the
/// gain or loss of the portfolio as a whole.
#[derive(Debug)]
pub struct PerformanceReport {
    pub rows: Vec<PerformanceRow>,
    /// The gain or loss of all holdings as a percentage of their cost.
    pub total_return_percentage: Percent,
    pub total_gain_loss: Amount,
}

/// The performance of `portfolio` at `prices`: for each holding its ticker,
/// cost basis, price, percentage return and gain or loss; for the portfolio
/// the gain or loss, which is the value of all holdings less their cost, and
/// that gain or loss as a percentage of the cost, zero where the cost is
/// zero.
pub fn performance_command(portfolio: &Portfolio, prices: &PriceMap) -> (report:
    PerformanceReport)
    ensures
        report.rows.len() == portfolio.holdings.len(),
        forall|i: int|
            0 <= i < report.rows.len() ==> (#[trigger] report.rows[i]).shows(
                portfolio.holdings[i],
                prices@,
            ),
        report.total_gain_loss@ == total_value(portfolio.holdings@, prices@) - total_cost(
            portfolio.holdings@,
        ),
        report.total_return_percentage.part@ == total_value(portfolio.holdings@, prices@)
            - total_cost(portfolio.holdings@),
        report.total_return_percentage.whole@ == total_cost(portfolio.holdings@),
{
    let priced = portfolio.holdings_with_prices(prices);
    let mut rows: Vec<PerformanceRow> = Vec::new();
    let mut i: usize = 0;
    while i < priced.len()
        invariant
            i <= priced.len(),
            priced.len() == portfolio.holdings.len(),
            rows.len() == i,
            forall|j: int|
                0 <= j < priced.len() ==> {
                    &&& (#[trigger] priced[j]).holding == portfolio.holdings[j]
                    &&& priced[j].current_price@ == price_or_zero(
                        prices@,
                        portfolio.holdings[j].ticker@,
                    )
                },
            forall|j: int|
                0 <= j < i ==> (#[trigger] rows[j]).shows(portfolio.holdings[j], prices@),
        decreases priced.len() - i,
    {
        let item = &priced[i];
        assert(item.holding == portfolio.holdings[i as int]);
        rows.push(
            PerformanceRow {
                ticker: item.holding.ticker.clone(),
                cost_basis: item.holding.cost_basis,
                current_price: item.current_price,
                return_percentage: item.gain_loss_percentage(),
                gain_loss: item.gain_loss(),
            },
        );
        i += 1;
    }
    let (value, cost) = totals(&priced, Ghost(portfolio.holdings@), Ghost(prices@));
    let gain = value.minus(&cost);
    PerformanceReport { rows, total_return_percentage: gain.percent_of(&cost), total_gain_loss: gain }
}

} // verus!
