//! Interest rate indices.
pub mod iborindex;
pub mod overnightindex;
pub mod traits;
