//! The slug transform: escape sequences are stripped, the text is
//! transliterated to ASCII and split into words, the words are joined by the
//! separator, and what may not stand in a slug is collapsed and trimmed away.

use vstd::prelude::*;
use crate::cases::{kebab_case, kebab_cased};
use crate::errors::Error;
use crate::pattern::{
    disallowed, is_literal_in_class, pattern_text, regex_accepts, regex_pattern, regex_replaced,
    replace_all,
};
use crate::text::{
    collapsed, from_chars, lemma_collapsed_chars, lemma_collapsed_unchanged, lemma_trimmed,
    lemma_trimmed_unchanged, lower, lowercased, replace_char, replaced_char, to_chars,
    trim_matches, trimmed,
};

verus! {

/// What `strip_ansi_escapes::strip_str` returns for a text.
pub uninterp spec fn ansi_stripped(text: Seq<char>) -> Seq<char>;

/// What `any_ascii::any_ascii` returns for a text.
pub uninterp spec fn transliterated(text: Seq<char>) -> Seq<char>;

/// Calls `strip_ansi_escapes::strip_str`, which removes terminal escape
/// sequences from a text. The result is a function of the text alone.
#[verifier::external_body]
pub(crate) fn strip_ansi(text: &str) -> (out: String)
    ensures
        out@ == ansi_stripped(text@),
{
    strip_ansi_escapes::strip_str(text)
}

/// Calls `any_ascii::any_ascii`, which replaces every character by an ASCII
/// approximation. The result is a function of the text alone.
#[verifier::external_body]
fn transliterate(text: &str) -> (out: String)
    ensures
        out@ == transliterated(text@),
{
    any_ascii::any_ascii(text)
}

/// The hyphenated words with the letters as the source has them. Each
/// character of `kebab` that is no hyphen is replaced by the next character
/// of `source` whose small form it is; source characters in between are
/// passed over. Once the source is used up the rest of `kebab` stays.
pub open spec fn case_restored(kebab: Seq<char>, source: Seq<char>) -> Seq<char>
    decreases kebab.len() + source.len(),
{
    if kebab.len() == 0 {
        Seq::empty()
    } else if kebab[0] == '-' || source.len() == 0 {
        seq![kebab[0]] + case_restored(kebab.drop_first(), source)
    } else if lower(source[0]) == kebab[0] {
        seq![source[0]] + case_restored(kebab.drop_first(), source.drop_first())
    } else {
        case_restored(kebab, source.drop_first())
    }
}

/// The words of a text, joined by hyphens: escape sequences stripped,
/// transliterated, split. With `lowercase` the letters are small, without it
/// they are as the transliteration has them.
pub open spec fn words_of(text: Seq<char>, lowercase: bool) -> Seq<char> {
    let ascii = transliterated(ansi_stripped(text));
    if lowercase {
        kebab_cased(ascii)
    } else {
        case_restored(kebab_cased(ascii), ascii)
    }
}

/// Hyphenated words joined by the separator instead: every hyphen becomes
/// the separator, and separators at either end are dropped. For a hyphen as
/// separator nothing changes.
pub open spec fn with_separator(words: Seq<char>, separator: char) -> Seq<char> {
    if separator != '-' {
        trimmed(replaced_char(words, '-', separator), separator)
    } else {
        words
    }
}

/// The text with every run of disallowed characters replaced by one
/// separator. For a separator that does not stand for itself between the
/// brackets of a pattern, it is whatever the pattern matcher makes of the
/// pattern.
pub open spec fn without_disallowed(s: Seq<char>, separator: char) -> Seq<char> {
    if is_literal_in_class(Some(separator)) {
        collapsed(s, disallowed(Some(separator)), separator)
    } else {
        regex_replaced(pattern_text(Some(separator)), s, seq![separator])
    }
}

/// The last stage: separators at either end are dropped, then capital
/// letters are made small if `lowercase` is set.
pub open spec fn finished(s: Seq<char>, separator: char, lowercase: bool) -> Seq<char> {
    if lowercase {
        lowercased(trimmed(s, separator))
    } else {
        trimmed(s, separator)
    }
}

/// The slug of a text.
pub open spec fn slug_of(text: Seq<char>, separator: char, lowercase: bool) -> Seq<char> {
    finished(
        without_disallowed(with_separator(words_of(text, lowercase), separator), separator),
        separator,
        lowercase,
    )
}

/// Whether a character may stand in a slug: the separator, `_`, an ASCII
/// digit, a small ASCII letter, and a capital one where `lowercase` is off.
pub open spec fn is_slug_char(c: char, separator: char, lowercase: bool) -> bool {
    c == separator || c == '_' || ('0' <= c && c <= '9') || ('a' <= c && c <= 'z') || (!lowercase
        && 'A' <= c && c <= 'Z')
}

/// Whether a text is a slug: made of slug characters, with the separator at
/// neither end.
pub open spec fn is_slug(s: Seq<char>, separator: char, lowercase: bool) -> bool {
    &&& forall|i: int| 0 <= i < s.len() ==> is_slug_char(#[trigger] s[i], separator, lowercase)
    &&& s.len() > 0 ==> s[0] != separator && s.last() != separator
}

/// The separators for which the shape of the result is known: those that
/// stand for themselves between the brackets of a pattern, and, where
/// capital letters are made small, are not themselves a small ASCII letter
/// (a capital at an end would turn into the separator after trimming).
pub open spec fn has_known_shape(separator: char, lowercase: bool) -> bool {
    is_literal_in_class(Some(separator)) && !(lowercase && 'a' <= separator && separator <= 'z')
}

/// Whatever the words are, what the stages after word splitting make of them
/// is a slug: only slug characters, and the separator at neither end.
pub proof fn lemma_result_is_slug(words: Seq<char>, separator: char, lowercase: bool)
    requires
        has_known_shape(separator, lowercase),
    ensures
        is_slug(
            finished(without_disallowed(with_separator(words, separator), separator), separator, lowercase),
            separator,
            lowercase,
        ),
{
    let joined = with_separator(words, separator);
    let run = disallowed(Some(separator));
    let clean = collapsed(joined, run, separator);
    let cut = trimmed(clean, separator);
    let out = finished(clean, separator, lowercase);
    if separator != '-' {
        lemma_trimmed(replaced_char(words, '-', separator), separator);
    }
    assert forall|i: int| 0 <= i < joined.len() && separator != '-' implies #[trigger] joined[i]
        != '-' by {
        let r = replaced_char(words, '-', separator);
        let j = choose|j: int| 0 <= j < r.len() && r[j] == joined[i];
        assert(r[j] != '-');
    }
    lemma_collapsed_chars(joined, run, separator);
    lemma_trimmed(clean, separator);
    assert forall|i: int| 0 <= i < cut.len() implies is_slug_char(
        #[trigger] cut[i],
        separator,
        false,
    ) by {
        let c = cut[i];
        let j = choose|j: int| 0 <= j < clean.len() && clean[j] == c;
        assert(clean[j] == separator || (!run.contains(clean[j]) && joined.contains(clean[j])));
        if c != separator {
            let k = choose|k: int| 0 <= k < joined.len() && joined[k] == c;
        }
    }
    if lowercase {
        assert forall|i: int| 0 <= i < out.len() implies is_slug_char(
            #[trigger] out[i],
            separator,
            true,
        ) by {
            assert(out[i] == lower(cut[i]));
            assert(is_slug_char(cut[i], separator, false));
        }
        if out.len() > 0 {
            assert(out[0] == lower(cut[0]));
            assert(out.last() == lower(cut.last()));
        }
    }
}

/// The stages after word splitting leave a slug as it is: the alphabet of
/// slugs is closed under them.
pub proof fn lemma_slug_stays(slug: Seq<char>, separator: char, lowercase: bool)
    requires
        is_slug(slug, separator, lowercase),
        has_known_shape(separator, lowercase),
        !(lowercase && 'A' <= separator && separator <= 'Z'),
    ensures
        finished(without_disallowed(with_separator(slug, separator), separator), separator, lowercase)
            == slug,
{
    let run = disallowed(Some(separator));
    if separator != '-' {
        assert(replaced_char(slug, '-', separator) =~= slug) by {
            assert forall|i: int| 0 <= i < slug.len() implies slug[i] != '-' by {
                assert(is_slug_char(slug[i], separator, lowercase));
            }
        }
        lemma_trimmed_unchanged(slug, separator);
    }
    assert(with_separator(slug, separator) == slug);
    assert forall|i: int| 0 <= i < slug.len() implies !run.contains(slug[i]) by {
        assert(is_slug_char(slug[i], separator, lowercase));
    }
    lemma_collapsed_unchanged(slug, run, separator);
    lemma_trimmed_unchanged(slug, separator);
    if lowercase {
        assert(lowercased(slug) =~= slug) by {
            assert forall|i: int| 0 <= i < slug.len() implies lower(slug[i]) == slug[i] by {
                assert(is_slug_char(slug[i], separator, lowercase));
            }
        }
    }
}

/// Gives hyphenated words in small letters the letters of their source
/// back.
pub fn restore_case(kebab: &str, source: &str) -> (out: String)
    ensures
        out@ == case_restored(kebab@, source@),
{
    let k = to_chars(kebab);
    let s = to_chars(source);
    let mut out: Vec<char> = Vec::new();
    let mut i: usize = 0;
    let mut j: usize = 0;
    assert(k@.skip(0) =~= k@ && s@.skip(0) =~= s@);
    assert(out@ + case_restored(k@, s@) =~= case_restored(k@, s@));
    while i < k.len()
        invariant
            i <= k.len(),
            j <= s.len(),
            out@ + case_restored(k@.skip(i as int), s@.skip(j as int)) == case_restored(k@, s@),
        decreases (k.len() - i) + (s.len() - j),
    {
        let ghost rest_k = k@.skip(i as int);
        let ghost rest_s = s@.skip(j as int);
        let ghost before = out@;
        assert(rest_k.drop_first() =~= k@.skip(i + 1));
        assert(rest_k[0] == k@[i as int]);
        let c = k[i];
        if c == '-' || j == s.len() {
            out.push(c);
            i += 1;
            assert(out@ + case_restored(k@.skip(i as int), s@.skip(j as int)) =~= before
                + case_restored(rest_k, rest_s));
        } else {
            assert(rest_s.drop_first() =~= s@.skip(j + 1));
            assert(rest_s[0] == s@[j as int]);
            let d = s[j];
            j += 1;
            if crate::text::to_lower(d) == c {
                out.push(d);
                i += 1;
                assert(out@ + case_restored(k@.skip(i as int), s@.skip(j as int)) =~= before
                    + case_restored(rest_k, rest_s));
            }
        }
    }
    from_chars(&out)
}

/// Joins hyphenated words by the separator instead of the hyphen.
pub fn join_words(words: &str, separator: char) -> (out: String)
    ensures
        out@ == with_separator(words@, separator),
{
    let chars = to_chars(words);
    if separator != '-' {
        let replaced = replace_char(&chars, '-', separator);
        let trimmed = trim_matches(&replaced, separator);
        from_chars(&trimmed)
    } else {
        from_chars(&chars)
    }
}

/// Drops separators at either end and, with `lowercase`, makes capital
/// letters small.
pub fn finish(s: &str, separator: char, lowercase: bool) -> (out: String)
    ensures
        out@ == finished(s@, separator, lowercase),
{
    let chars = to_chars(s);
    let trimmed = trim_matches(&chars, separator);
    if lowercase {
        let folded = crate::text::lowercase(&trimmed);
        from_chars(&folded)
    } else {
        from_chars(&trimmed)
    }
}

/// The slug of a text for a separator, with capital letters kept or made
/// small. It fails only where the pattern generated for the separator is
/// refused.
pub fn slugify_text(text: &str, separator: char, lowercase: bool) -> (r: Result<String, Error>)
    ensures
        r is Ok <==> regex_accepts(pattern_text(Some(separator))),
        r matches Ok(slug) ==> slug@ == slug_of(text@, separator, lowercase),
        r matches Ok(slug) ==> has_known_shape(separator, lowercase) ==> is_slug(
            slug@,
            separator,
            lowercase,
        ),
        r matches Err(e) ==> e is PatternCompilationError,
{
    proof {
        if has_known_shape(separator, lowercase) {
            lemma_result_is_slug(words_of(text@, lowercase), separator, lowercase);
        }
    }
    let exp = match regex_pattern(Some(separator)) {
        Ok(exp) => exp,
        Err(e) => {
            return Err(e);
        },
    };
    let stripped = strip_ansi(text);
    let ascii = transliterate(stripped.as_str());
    let kebab = kebab_case(ascii.as_str());
    let words = if lowercase {
        kebab
    } else {
        restore_case(kebab.as_str(), ascii.as_str())
    };
    let joined = join_words(words.as_str(), separator);
    let collapsed = replace_all(&exp, joined.as_str(), separator);
    Ok(finish(collapsed.as_str(), separator, lowercase))
}

/// The slug of a text for a separator, in small letters.
pub fn slugify_string(haystack: &str, separator: char) -> (r: Result<String, Error>)
    ensures
        r is Ok <==> regex_accepts(pattern_text(Some(separator))),
        r matches Ok(slug) ==> slug@ == slug_of(haystack@, separator, true),
        r matches Ok(slug) ==> has_known_shape(separator, true) ==> is_slug(slug@, separator, true),
        r matches Err(e) ==> e is PatternCompilationError,
{
    slugify_text(haystack, separator, true)
}

} // verus!
