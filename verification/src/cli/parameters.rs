//! The options of the slug transform.

use vstd::prelude::*;
use crate::errors::Error;
use crate::pattern::{pattern_text, regex_accepts, separator_pattern_text, DEFAULT_SEPARATOR};
use crate::plain::plain_slug_of;
use crate::string::{ansi_stripped, has_known_shape, is_slug, slug_of, slugify_text, strip_ansi};

verus! {

/// How text is slugified: the separator, and whether trimming and case
/// folding are switched off.
#[derive(Debug, Clone)]
pub struct SlugifyParameters {
    /// The separator; without one the hyphen is used.
    pub separator: Option<char>,
    /// Keeps separators at the ends of a plain slug.
    pub no_trim_matches: bool,
    /// Keeps capital letters.
    pub no_lowercase: bool,
}

impl Default for SlugifyParameters {
    /// The hyphen as separator, with trimming and case folding.
    fn default() -> (p: SlugifyParameters)
        ensures
            p.separator == Some(DEFAULT_SEPARATOR),
            !p.no_trim_matches,
            !p.no_lowercase,
    {
        SlugifyParameters {
            separator: Some(DEFAULT_SEPARATOR),
            no_trim_matches: false,
            no_lowercase: false,
        }
    }
}

impl SlugifyParameters {
    /// The separator that is used: the configured one, or the hyphen.
    pub open spec fn effective_separator(self) -> char {
        match self.separator {
            Some(separator) => separator,
            None => DEFAULT_SEPARATOR,
        }
    }

    /// Options with the given separator and switches.
    pub fn new(separator: Option<char>, no_trim_matches: bool, no_lowercase: bool) -> (p:
        SlugifyParameters)
        ensures
            p.separator == separator,
            p.no_trim_matches == no_trim_matches,
            p.no_lowercase == no_lowercase,
    {
        SlugifyParameters { separator, no_trim_matches, no_lowercase }
    }

    /// The configured separator, if there is one.
    pub fn separator(&self) -> (separator: Option<char>)
        ensures
            separator == self.separator,
    {
        self.separator
    }

    /// The separator that is used: the configured one, or the hyphen.
    pub fn non_option_separator(&self) -> (separator: char)
        ensures
            separator == self.effective_separator(),
    {
        match self.separator {
            Some(separator) => separator,
            None => DEFAULT_SEPARATOR,
        }
    }

    /// Whether separators at the ends of a plain slug are dropped.
    pub fn trim_matches(&self) -> (on: bool)
        ensures
            on == !self.no_trim_matches,
    {
        !self.no_trim_matches
    }

    /// Whether capital letters are made small.
    pub fn lowercase(&self) -> (on: bool)
        ensures
            on == !self.no_lowercase,
    {
        !self.no_lowercase
    }

    /// The slug of a text under these options.
    pub fn slugify_string(&self, string: &str) -> (r: Result<String, Error>)
        ensures
            r is Ok <==> regex_accepts(pattern_text(Some(self.effective_separator()))),
            r matches Ok(slug) ==> slug@ == slug_of(
                string@,
                self.effective_separator(),
                !self.no_lowercase,
            ),
            r matches Ok(slug) ==> has_known_shape(self.effective_separator(), !self.no_lowercase)
                ==> is_slug(slug@, self.effective_separator(), !self.no_lowercase),
            r matches Err(e) ==> e is PatternCompilationError,
    {
        slugify_text(string, self.non_option_separator(), self.lowercase())
    }

    /// The plain slug of a text under these options, with escape sequences
    /// stripped first.
    pub fn slugify_plain(&self, string: &str) -> (r: Result<String, Error>)
        ensures
            r is Ok <==> regex_accepts(pattern_text(Some(self.effective_separator())))
                && regex_accepts(separator_pattern_text(Some(self.effective_separator()))),
            r matches Ok(slug) ==> slug@ == plain_slug_of(
                ansi_stripped(string@),
                self.effective_separator(),
                !self.no_trim_matches,
                !self.no_lowercase,
            ),
            r matches Err(e) ==> e is PatternCompilationError,
    {
        let stripped = strip_ansi(string);
        crate::plain::slugify_string(
            stripped.as_str(),
            self.non_option_separator(),
            self.trim_matches(),
            self.lowercase(),
        )
    }
}

} // verus!
