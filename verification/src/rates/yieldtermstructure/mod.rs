//! Yield term structures.
pub mod compositetermstructure;
pub mod mixedtermstructure;
pub mod traits;
