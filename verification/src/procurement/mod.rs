//! Edge procurement: goods receipt, purchase return and the outbound half
//! of inter-outlet stock transfer. A receipt never blocks on a purchase
//! order: every unmatched condition records a gap and accepts the goods.

pub mod convert;
pub mod numbering;
pub mod cost;
pub mod movement;
pub mod receipt;
