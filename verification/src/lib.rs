//! Rules of a cross-margin lending group: deposits, borrows, orders on a spot
//! exchange and liquidation, over fixed-point balances.

pub mod bytes;
pub mod dex;
pub mod error;
pub mod fixed_point;
pub mod instruction;
pub mod laws;
pub mod prices;
pub mod processor;
pub mod state;
pub mod sysvar;
pub mod token;
pub mod valuation;
