//! Verified core of a formatting-derive code generator.
//!
//! Given a model of a user type declaration (struct, enum or union, its
//! generic parameters, fields and attribute arguments), the library parses
//! the embedded format-string mini-language, infers which trait bounds each
//! generic parameter needs, and emits the source text of the requested
//! trait implementation.

pub mod attrs;
pub mod bound_parse;
pub mod bounds;
pub mod casing;
pub mod display;
pub mod error_derive;
pub mod fmtparse;
pub mod from_str;
pub mod input;
pub mod names;
pub mod unwrap;
pub mod text;
