//! Rates: compounding, rate definitions, index stores and term structures.
pub mod bootstrapping;
pub mod enums;
pub mod indexstore;
pub mod interestrate;
pub mod interestrateindex;
pub mod yieldtermstructure;
pub mod traits;
pub mod yieldproviderstore;
pub mod yieldtermstructuremanager;
