//! A ledger of media to watch, read, play or listen to.
//!
//! Items are grouped by category, carry a status, and may hold seasons with a
//! studio, a rating and notes. The whole ledger is one [`model::Document`];
//! every operation on it states in its contract what it returns and how the
//! document changes.

pub mod command;
pub mod diagnostic;
pub mod model;
pub mod query;
pub mod schema;
pub mod similarity;
pub mod store;
pub mod text;
