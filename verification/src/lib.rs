//! The core of a shell's language runtime: identity tables for files,
//! variables, declarations and blocks, lexical scope frames with a visibility
//! overlay, the committed engine state, and the working set through which a
//! parse registers new entries before they are merged or dropped.
//!
//! `engine_state` holds the three types that callers work with; `resolve`
//! and `files` say what their lookups mean; `laws` relates their operations to
//! one another. `tables`, `text` and `source` say what is taken on trust of
//! other crates and of the standard library. The remaining modules describe
//! commands, calls and values as far as the engine and a few commands need
//! them.

pub mod bytes;
pub mod call;
pub mod case;
pub mod declaration;
pub mod downcase;
pub mod engine_state;
pub mod error;
pub mod files;
pub mod id;
pub mod kebab_case;
pub mod laws;
pub mod mkdir;
pub mod name_map;
pub mod resolve;
pub mod scope_frame;
pub mod signature;
pub mod source;
pub mod str_command;
pub mod span;
pub mod tables;
pub mod text;
pub mod ty;
pub mod value;
pub mod visibility;
