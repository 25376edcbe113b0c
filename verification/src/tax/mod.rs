//! The edge-side tax engine. All arithmetic is integer paise and integer
//! basis points; there is no floating point anywhere.

pub mod domain;
pub mod engine;
pub mod line_order;
pub mod resolve;
pub mod rounding;
pub mod snapshot;
