//! Wastage, physical stock counts and variance. The ledger is the only
//! source of stock: a completed count posts adjustments, and a negative
//! balance is a variance signal, never a refusal.

pub mod balance;
pub mod count;
pub mod wastage;
