//! Line-ending inspection and normalization.
//!
//! The crate classifies the line terminators of file contents (LF, CRLF,
//! lone CR), aggregates per-file statistics into corpus-wide totals with a
//! strict-majority "dominant" convention, rewrites contents to a single
//! chosen convention, and drives a filtered, optionally recursive
//! enumeration of candidate files as a step-by-step state machine whose
//! directory listings are supplied by the caller.

pub mod filters;
pub mod fixer;
pub mod iter;
pub mod options;
pub mod stats;
