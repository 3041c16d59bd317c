//! Pricing infrastructure shared by the pricers.
pub mod collateral;
pub mod marketdata;
