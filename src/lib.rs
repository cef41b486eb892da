//! The barrier that every entry point of an ODBC driver passes through: handles
//! and their diagnostics, the statement lifecycle, and the translation of an
//! operation that unwound into a diagnostic record and the `Error` code.

pub mod barrier;
pub mod diag;
pub mod laws;
pub mod state;
pub mod status;
pub mod store;
