//! A projection engine for named-field record types.
//!
//! Given the schema of a record (its name and its ordered fields) together
//! with a list of projection directives, the engine validates the directives
//! against the schema, partitions the record's fields into included, optional
//! and omitted classes, and produces an abstract description of one
//! projection type, an optional remainder type and five conversion
//! operations per directive. A separate module gives the generated
//! conversions an executable meaning over model record values and proves
//! the round-trip laws that relate them.

pub mod directive;
pub mod error;
pub mod names;
pub mod partition;
pub mod schema;
pub mod semantics;
pub mod synth;
pub mod token;
pub mod validate;

