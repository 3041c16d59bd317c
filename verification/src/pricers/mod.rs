//! Pricers. Their valuation formulas are floating-point computations done
//! outside this library; what they hold and how they pick a discount curve is
//! here.
pub mod cashflows;
pub mod credit;
pub mod equity;
pub mod fx;
pub mod rates;
