//! Verified core of a quantitative finance support library: calendar dates and
//! periods, rate definitions, interest rate index stores, FX triangulation,
//! quote identifiers, market scenarios and the bookkeeping around term
//! structures, models, pricers and curve bootstrapping.
#![allow(unused_imports)]

pub mod time;
pub mod text;
pub mod errors;
pub mod currencies;
pub mod rates;
pub mod quotes;
pub mod indices;
pub mod pricing;
pub mod pricers;
pub mod models;
pub mod math;
pub mod volatility;
