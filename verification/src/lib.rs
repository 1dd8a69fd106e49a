//! A format-agnostic structured-data parser.
//!
//! Given an opaque byte buffer, the dispatch engine tries an ordered
//! registry of serialization formats and returns the first successful
//! decode, or an aggregated diagnostic naming every attempted format
//! and its specific failure reason.

pub mod dispatch;
pub mod error;
pub mod formats;
pub mod record;

pub use dispatch::Registry;
pub use dispatch::parse;
pub use error::ParseError;
pub use formats::FormatKind;
pub use record::Record;
