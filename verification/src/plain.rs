//! The plain transform: no transliteration and no word splitting. Runs of
//! characters that may not stand in a slug become one separator, and so do
//! runs of joining characters.

use vstd::prelude::*;
use crate::errors::Error;
use crate::pattern::{
    disallowed, is_literal_in_class, joiners, pattern_text, regex_accepts, regex_pattern,
    regex_replaced, replace_all, separator_pattern_text, separator_regex_pattern,
};
use crate::string::is_slug_char;
use crate::text::{
    collapsed, from_chars, lemma_collapsed_chars, lemma_trimmed, lower, lowercase as fold,
    lowercased, to_chars, trim_matches as trim, trimmed,
};

verus! {

/// The text with every run of characters from `run` replaced by one
/// separator, where `pattern` is the generated pattern for those runs. For a
/// separator that does not stand for itself between the brackets of a
/// pattern, it is whatever the pattern matcher makes of the pattern.
pub open spec fn runs_replaced(
    s: Seq<char>,
    pattern: Seq<char>,
    run: Set<char>,
    separator: char,
) -> Seq<char> {
    if is_literal_in_class(Some(separator)) {
        collapsed(s, run, separator)
    } else {
        regex_replaced(pattern, s, seq![separator])
    }
}

/// The middle of the plain transform: separators at either end are dropped
/// if `trim_matches` is set, then capital letters are made small if
/// `lowercase` is set.
pub open spec fn shaped(s: Seq<char>, separator: char, trim_matches: bool, lowercase: bool) -> Seq<
    char,
> {
    let cut = if trim_matches {
        trimmed(s, separator)
    } else {
        s
    };
    if lowercase {
        lowercased(cut)
    } else {
        cut
    }
}

/// The plain slug of a text.
pub open spec fn plain_slug_of(
    text: Seq<char>,
    separator: char,
    trim_matches: bool,
    lowercase: bool,
) -> Seq<char> {
    let clean = runs_replaced(
        text,
        pattern_text(Some(separator)),
        disallowed(Some(separator)),
        separator,
    );
    runs_replaced(
        shaped(clean, separator, trim_matches, lowercase),
        separator_pattern_text(Some(separator)),
        joiners(Some(separator)),
        separator,
    )
}

/// Whatever the text is, its plain slug holds slug characters only.
pub proof fn lemma_plain_slug_chars(
    text: Seq<char>,
    separator: char,
    trim_matches: bool,
    lowercase: bool,
)
    requires
        is_literal_in_class(Some(separator)),
    ensures
        forall|i: int|
            0 <= i < plain_slug_of(text, separator, trim_matches, lowercase).len()
                ==> is_slug_char(
                #[trigger] plain_slug_of(text, separator, trim_matches, lowercase)[i],
                separator,
                lowercase,
            ),
{
    let clean = collapsed(text, disallowed(Some(separator)), separator);
    let cut = if trim_matches {
        trimmed(clean, separator)
    } else {
        clean
    };
    let mid = shaped(clean, separator, trim_matches, lowercase);
    let out = plain_slug_of(text, separator, trim_matches, lowercase);
    lemma_collapsed_chars(text, disallowed(Some(separator)), separator);
    lemma_trimmed(clean, separator);
    lemma_collapsed_chars(mid, joiners(Some(separator)), separator);
    assert forall|i: int| 0 <= i < out.len() implies is_slug_char(
        #[trigger] out[i],
        separator,
        lowercase,
    ) by {
        let c = out[i];
        if c != separator {
            let j = choose|j: int| 0 <= j < mid.len() && mid[j] == c;
            let d = cut[j];
            assert(c == if lowercase {
                lower(d)
            } else {
                d
            });
            let k = choose|k: int| 0 <= k < clean.len() && clean[k] == d;
            assert(clean[k] == separator || !disallowed(Some(separator)).contains(clean[k]));
            assert(!joiners(Some(separator)).contains(c));
        }
    }
}

/// Drops separators at either end if `trim_matches` is set, then makes
/// capital letters small if `lowercase` is set.
pub fn shape(s: &str, separator: char, trim_matches: bool, lowercase: bool) -> (out: String)
    ensures
        out@ == shaped(s@, separator, trim_matches, lowercase),
{
    let chars = to_chars(s);
    let cut = if trim_matches {
        trim(&chars, separator)
    } else {
        chars
    };
    if lowercase {
        let folded = fold(&cut);
        from_chars(&folded)
    } else {
        from_chars(&cut)
    }
}

/// The plain slug of a text for a separator. It fails only where one of the
/// two patterns generated for the separator is refused.
pub fn slugify_string(haystack: &str, separator: char, trim_matches: bool, lowercase: bool) -> (r:
    Result<String, Error>)
    ensures
        r is Ok <==> regex_accepts(pattern_text(Some(separator))) && regex_accepts(
            separator_pattern_text(Some(separator)),
        ),
        r matches Ok(slug) ==> slug@ == plain_slug_of(
            haystack@,
            separator,
            trim_matches,
            lowercase,
        ),
        r matches Ok(slug) ==> is_literal_in_class(Some(separator)) ==> forall|i: int|
            0 <= i < slug@.len() ==> is_slug_char(#[trigger] slug@[i], separator, lowercase),
        r matches Err(e) ==> e is PatternCompilationError,
{
    proof {
        if is_literal_in_class(Some(separator)) {
            lemma_plain_slug_chars(haystack@, separator, trim_matches, lowercase);
        }
    }
    let exp = match regex_pattern(Some(separator)) {
        Ok(exp) => exp,
        Err(e) => {
            return Err(e);
        },
    };
    let clean = replace_all(&exp, haystack, separator);
    let mid = shape(clean.as_str(), separator, trim_matches, lowercase);
    let exp = match separator_regex_pattern(Some(separator)) {
        Ok(exp) => exp,
        Err(e) => {
            return Err(e);
        },
    };
    Ok(replace_all(&exp, mid.as_str(), separator))
}

} // verus!
