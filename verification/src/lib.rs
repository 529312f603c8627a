//! Turns arbitrary text, file names among it, into slugs: ASCII letters and
//! digits joined by one separator character.
//!
//! [`string`] holds the transform, [`plain`] a simpler one without
//! transliteration, [`pattern`] the patterns both are built on, and [`cli`]
//! what the two command line programs decide.

pub mod cases;
pub mod cli;
pub mod errors;
pub mod pattern;
pub mod plain;
pub mod string;
pub mod text;

pub use cli::{heck_aliases, SlugifyFilenames, SlugifyParameters, SlugifyString, Verbosity};
pub use errors::Error;
pub use pattern::{
    regex_pattern, separator_regex_pattern, separator_string_pattern, string_pattern,
    DEFAULT_SEPARATOR,
};
pub use string::{slugify_string, slugify_text};
