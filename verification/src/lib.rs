//! Edge-side business rules of the outlet database: the GST tax engine,
//! purchase-unit conversion and costing, payment and cash-shift rules,
//! stock counts, wastage and the bounded current-stock read, order and
//! kitchen-ticket rules, the display/document numbering schemes, and the
//! checks made on JSON already stored with tickets and outbox events.
//! Everything here is pure: it takes values already read from SQLite and
//! returns the values to be written, so every rule can be proved.

pub mod error;
pub mod inventory;
pub mod model;
pub mod order;
pub mod payload;
pub mod payment;
pub mod procurement;
pub mod stock;
pub mod tax;
pub mod text;
