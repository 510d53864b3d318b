//! Converts a bank's comma-delimited transaction export into QIF
//! (Quicken Interchange Format) bank records: a fixed 19-field row schema,
//! a pair of date parse/format functions, a row-to-entry transformation,
//! and the derivation of the output path from the input path.
#![verifier::loop_isolation(false)]

pub mod date;
pub mod num;
pub mod record;
pub mod qif;
pub mod path;
pub mod table;
pub mod laws;
