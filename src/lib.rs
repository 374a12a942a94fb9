//! Streaming reader for SIE4, the Swedish interchange format for accounting
//! data.
//!
//! The input is a sequence of `#TAG field ...` records. The grammar is
//! described by spec functions over byte sequences; every decoder here is
//! proved to compute exactly what those spec functions say, and the
//! [`Reader`] turns chunks of a byte stream into records.
pub mod bytes;
mod codecs;
pub mod decode;
pub mod field;
pub mod item;
pub mod laws;
pub mod reader;
pub mod stable;

pub use bytes::{
    in_curly_braces, is_line_break, is_whitespace, quoted_text, take_until_unbalanced,
    unquoted_text, Blame, Parsed, Span,
};
pub use field::{date, text, Amount, Currency, Date, List, SubItems};
pub use item::{Group, Item, Kind};
pub use reader::{Error, Reader, Step};
