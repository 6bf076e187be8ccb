//! Personal income tax estimation over a progressive bracket schedule.
//!
//! Every amount of money is an integer number of cents and every rate an
//! integer number of millionths, so that each result is exact and each
//! rounding step is the one stated in the contracts.

pub mod common;
pub mod errors;
pub mod laws;
pub mod rounding;
pub mod schedule;
pub mod server;
pub mod sorting;
pub mod tax_bracket;
pub mod text;
