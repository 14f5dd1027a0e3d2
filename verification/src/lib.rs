//! Verified building blocks for two small file utilities: one that
//! concatenates files to standard output, optionally numbering lines and
//! marking line ends, and one that updates access and modification times.
//!
//! Everything here works on plain values. Reading files, querying metadata,
//! applying timestamps and printing are left to the caller.

pub mod decimal;
pub mod lines;
pub mod cat;
pub mod timestamp;
pub mod report;
pub mod touch;
pub mod update;
