//! Quotes: FX spot rates, quote identifiers and market scenarios.
pub mod fxstore;
pub mod scenario;
pub mod quote;
pub mod quotedetails;
pub mod quotestore;
