//! Payments and the cash shift. A payment is append-only: a void or refund
//! is a new non-positive row that reverses an earlier one. A shift has one
//! legal in-place transition, open to closed, and a close with a non-zero
//! variance needs a reason.

pub mod cash_shift;
pub mod tender;
