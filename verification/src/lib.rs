//! Portfolio accounting with exact arithmetic.
//!
//! A portfolio lists holdings; each ticker is resolved to a current price
//! from a table of known prices, a live quote or a fallback price; and the
//! balances, allocation and performance reports are computed from holdings
//! and prices.
//!
//! Quantities and prices are decimals with eight fractional digits, and
//! everything that is computed from them is exact: values, costs, gains and
//! totals are whole counts of small units, and a percentage is kept as the
//! two amounts it compares, so that nothing is rounded before it is shown.
//! Reading files, asking the quote service and printing are left to the
//! caller.

pub mod api;
pub mod commands;
pub mod decimal;
pub mod portfolio;
pub mod price_map;
pub mod text;
