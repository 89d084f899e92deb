//! Comment headers for new source files.
//!
//! When an editor opens a blank file, this library says which header goes
//! into it: the template that the configuration gives the file's extension,
//! wrapped in the comment syntax of the file's language, with tokens such as
//! `{filename}` and `{year}` replaced by their values.
//!
//! - `comment`: the comment syntax of each file extension, and wrapping.
//! - `config`: the configuration and its built-in default.
//! - `resolver`: where a configuration is looked for, and which file decides.
//! - `tokens`: the tokens and their replacement.
//! - `render`: the header of a file.
//! - `trigger`: whether an opened document gets a header.
//! - `workspace`: the workspace roots of a session.
//! - `clock`: the date and time of the local clock.
//! - `path` and `text`: paths and texts as sequences of characters.
//! - `braces`: the proof that a header is a fixed point of substitution.
//!
//! The library reads no files. The caller looks at the places that
//! `trigger::plan_open` names and reports what stands there; every decision
//! is the library's and is proved against its contract.

pub mod braces;
pub mod clock;
pub mod comment;
pub mod config;
pub mod path;
pub mod render;
pub mod resolver;
pub mod text;
pub mod tokens;
pub mod trigger;
pub mod workspace;
