//! Converts retirement-account transaction rows into double-entry ledger
//! records, with an exact fixed-point money parser and formatter.
mod text;
pub mod money;
pub mod format_spec;
pub mod parse;
pub mod render;
pub mod round_trip;
pub mod date;
pub mod ledger;
