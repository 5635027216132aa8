//! Ordered choice over the variants of a tagged union.
//!
//! A `Schema` lists variants in priority order, each a sequence of fields whose
//! types are read by a `FieldParser`. `validate` checks a schema's shape once;
//! `dispatch` then tries the variants on forks of a `Cursor` and commits the
//! first one whose fields all parse.

pub mod choice;
pub mod cursor;
pub mod dispatch;
pub mod error;
pub mod field;
pub mod schema;
