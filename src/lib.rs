//! Turns compiler diagnostics, given as JSON values, into single-line
//! annotations of the form `::<severity> <fields>::<message>`.
//!
//! A diagnostic is a tree: its `children` are visited first, in order, and
//! then each of its own `spans` gives one line, when its `level` is one of
//! `error`, `help` and `warning` and it has a `message`.

pub mod annotate;
pub mod json;
pub mod lemmas;
pub mod text;

pub use annotate::{annotate_record, annotations, emit, format_line, severity};
pub use json::{json_string, json_u64, Json};
