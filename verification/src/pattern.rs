//! The patterns that are generated for a separator, and the calls into the
//! `regex` crate that compile and apply them.

use vstd::prelude::*;
use vstd::string::StringExecFns;
use regex::Regex;
use crate::errors::Error;
use crate::text::{collapsed, is_ascii_alphanumeric};

verus! {

/// The separator used when none is configured.
pub const DEFAULT_SEPARATOR: char = '-';

/// A compiled pattern of the `regex` crate.
#[verifier::external_type_specification]
#[verifier::external_body]
pub struct ExRegex(regex::Regex);

/// Whether `Regex::new` accepts the pattern.
pub uninterp spec fn regex_accepts(pattern: Seq<char>) -> bool;

/// The pattern that a compiled expression was made from: what
/// `Regex::as_str` returns for it.
pub uninterp spec fn regex_source(re: Regex) -> Seq<char>;

/// What `Regex::replace_all` returns for the expression compiled from
/// `pattern`, with `replacement` taken literally.
pub uninterp spec fn regex_replaced(
    pattern: Seq<char>,
    haystack: Seq<char>,
    replacement: Seq<char>,
) -> Seq<char>;

/// Whether a character may stand in a slug made with this separator: ASCII
/// letters and digits, `_`, `-`, and the separator itself.
pub open spec fn is_allowed(c: char, separator: Option<char>) -> bool {
    is_ascii_alphanumeric(c) || c == '_' || c == '-' || separator == Some(c)
}

/// The characters that may not stand in a slug made with this separator.
pub open spec fn disallowed(separator: Option<char>) -> Set<char> {
    Set::new(|c: char| !is_allowed(c, separator))
}

/// Whether a character joins words when this separator is used: `-` alone
/// for the separators `-` and `_` and for none, else `_`, `-` and the
/// separator.
pub open spec fn is_joiner(c: char, separator: Option<char>) -> bool {
    match separator {
        Some(s) if s != '_' && s != '-' => c == '_' || c == '-' || c == s,
        _ => c == '-',
    }
}

/// The characters that join words when this separator is used.
pub open spec fn joiners(separator: Option<char>) -> Set<char> {
    Set::new(|c: char| is_joiner(c, separator))
}

/// Whether the separator stands for itself when it is written between the
/// brackets of a pattern. A backslash and the two square brackets do not.
pub open spec fn is_literal_in_class(separator: Option<char>) -> bool {
    separator != Some('\\') && separator != Some('[') && separator != Some(']')
}

/// The pattern for a run of disallowed characters, as text.
pub open spec fn pattern_text(separator: Option<char>) -> Seq<char> {
    match separator {
        Some(c) if c != '_' && c != '-' => "[^a-zA-Z0-9_"@.push(c) + "-]+"@,
        _ => "[^a-zA-Z0-9_-]+"@,
    }
}

/// The pattern for a run of joining characters, as text.
pub open spec fn separator_pattern_text(separator: Option<char>) -> Seq<char> {
    match separator {
        Some(c) if c != '_' && c != '-' => "[_"@.push(c) + "-]+"@,
        _ => "[-]+"@,
    }
}

/// Calls `Regex::new`. It says when the pattern is accepted, and that an
/// accepted pattern is the source of the expression that comes back. For a
/// refused pattern the reason comes back as the crate words it; nothing is
/// claimed of that text.
#[verifier::external_body]
fn compile(pattern: &str) -> (r: Result<Regex, String>)
    ensures
        r is Ok <==> regex_accepts(pattern@),
        r matches Ok(re) ==> regex_source(re) == pattern@,
{
    match Regex::new(pattern) {
        Ok(re) => Ok(re),
        Err(refusal) => Err(format!("{}", refusal)),
    }
}

/// Calls `Regex::replace_all` with the replacement taken literally
/// (`regex::NoExpand`). Every match is replaced, from left to right. A
/// pattern of the form `[^...]+` or `[...]+` matches each longest run of
/// the characters that its brackets exclude or list, so for the two
/// patterns generated here, with a separator that stands for itself between
/// brackets, the result is the haystack with those runs collapsed.
#[verifier::external_body]
pub(crate) fn replace_all(re: &Regex, haystack: &str, replacement: char) -> (out: String)
    ensures
        out@ == regex_replaced(regex_source(*re), haystack@, seq![replacement]),
        forall|separator: Option<char>|
            is_literal_in_class(separator) && regex_source(*re) == #[trigger] pattern_text(
                separator,
            ) ==> out@ == collapsed(haystack@, disallowed(separator), replacement),
        forall|separator: Option<char>|
            is_literal_in_class(separator) && regex_source(*re)
                == #[trigger] separator_pattern_text(separator) ==> out@ == collapsed(
                haystack@,
                joiners(separator),
                replacement,
            ),
{
    let replacement = replacement.to_string();
    re.replace_all(haystack, regex::NoExpand(&replacement)).into_owned()
}

/// The pattern that matches a run of characters that may not stand in a slug
/// made with this separator.
pub fn string_pattern(separator: Option<char>) -> (pattern: String)
    ensures
        pattern@ == pattern_text(separator),
{
    match separator {
        Some(c) if c != '_' && c != DEFAULT_SEPARATOR => {
            let mut pattern = String::from_str("[^a-zA-Z0-9_");
            pattern.push(c);
            pattern.append("-]+");
            pattern
        },
        _ => String::from_str("[^a-zA-Z0-9_-]+"),
    }
}

/// The pattern that matches a run of characters that join words when this
/// separator is used.
pub fn separator_string_pattern(separator: Option<char>) -> (pattern: String)
    ensures
        pattern@ == separator_pattern_text(separator),
{
    match separator {
        Some(c) if c != '_' && c != DEFAULT_SEPARATOR => {
            let mut pattern = String::from_str("[_");
            pattern.push(c);
            pattern.append("-]+");
            pattern
        },
        _ => String::from_str("[-]+"),
    }
}

/// Compiles a pattern. A refused pattern is reported as
/// `PatternCompilationError`, with the reason as message.
pub fn compile_pattern(pattern: &str) -> (r: Result<Regex, Error>)
    ensures
        r is Ok <==> regex_accepts(pattern@),
        r matches Ok(re) ==> regex_source(re) == pattern@,
        r matches Err(e) ==> e is PatternCompilationError,
{
    match compile(pattern) {
        Ok(re) => Ok(re),
        Err(reason) => Err(Error::PatternCompilationError(reason)),
    }
}

/// The compiled form of [`string_pattern`].
pub fn regex_pattern(separator: Option<char>) -> (r: Result<Regex, Error>)
    ensures
        r is Ok <==> regex_accepts(pattern_text(separator)),
        r matches Ok(re) ==> regex_source(re) == pattern_text(separator),
        r matches Err(e) ==> e is PatternCompilationError,
{
    let pattern = string_pattern(separator);
    compile_pattern(pattern.as_str())
}

/// The compiled form of [`separator_string_pattern`].
pub fn separator_regex_pattern(separator: Option<char>) -> (r: Result<Regex, Error>)
    ensures
        r is Ok <==> regex_accepts(separator_pattern_text(separator)),
        r matches Ok(re) ==> regex_source(re) == separator_pattern_text(separator),
        r matches Err(e) ==> e is PatternCompilationError,
{
    let pattern = separator_string_pattern(separator);
    compile_pattern(pattern.as_str())
}

} // verus!
