//! Personal finance records: exact money values, calendar dates counted in
//! days, transactions with a natural order, and a ledger that keeps its rows
//! sorted and its running balance consistent.
//!
//! Every type has a view, the plain mathematical value that it stands for,
//! and every function says over those views what it returns or changes.

pub mod currency;
pub mod date;
pub mod location;
pub mod sheet;
pub mod text;
pub mod transaction;
