//! Character sequences: the operations on text that the slug transform is
//! made of, each with a mathematical description over `Seq<char>`.

use vstd::prelude::*;

verus! {

/// `String::push` appends one character to the end of the string.
pub assume_specification[ String::push ](s: &mut String, c: char)
    ensures
        final(s)@ == old(s)@.push(c),
;

/// Two texts are equal under `==` when they hold the same characters.
pub assume_specification[ <str as PartialEq>::eq ](a: &str, b: &str) -> (same: bool)
    ensures
        same == (a@ == b@),
;

/// An ASCII letter or digit.
pub open spec fn is_ascii_alphanumeric(c: char) -> bool {
    ('a' <= c && c <= 'z') || ('A' <= c && c <= 'Z') || ('0' <= c && c <= '9')
}

/// An ASCII capital letter.
pub open spec fn is_ascii_uppercase(c: char) -> bool {
    'A' <= c && c <= 'Z'
}

/// The character with ASCII capital letters mapped to their small form;
/// every other character is itself.
pub open spec fn lower(c: char) -> char {
    if is_ascii_uppercase(c) {
        ((c as u8 + 32) as u8) as char
    } else {
        c
    }
}

/// The text with every character mapped by [`lower`].
pub open spec fn lowercased(s: Seq<char>) -> Seq<char> {
    Seq::new(s.len(), |i: int| lower(s[i]))
}

/// The text with every occurrence of `from` replaced by `to`.
pub open spec fn replaced_char(s: Seq<char>, from: char, to: char) -> Seq<char> {
    Seq::new(s.len(), |i: int| if s[i] == from { to } else { s[i] })
}

/// The set that holds the one character `c`.
pub open spec fn only(c: char) -> Set<char> {
    Set::new(|x: char| x == c)
}

/// A character with the Unicode property `White_Space`.
pub open spec fn is_whitespace(c: char) -> bool {
    ('\u{9}' <= c && c <= '\u{d}') || c == ' ' || c == '\u{85}' || c == '\u{a0}' || c == '\u{1680}'
        || ('\u{2000}' <= c && c <= '\u{200a}') || c == '\u{2028}' || c == '\u{2029}' || c
        == '\u{202f}' || c == '\u{205f}' || c == '\u{3000}'
}

/// The set of the characters with the Unicode property `White_Space`.
pub open spec fn whitespace() -> Set<char> {
    Set::new(|x: char| is_whitespace(x))
}

/// How many characters from `strip` stand at the start of the text before
/// another character does.
pub open spec fn leading(s: Seq<char>, strip: Set<char>) -> nat
    decreases s.len(),
{
    if s.len() > 0 && strip.contains(s[0]) {
        1 + leading(s.drop_first(), strip)
    } else {
        0
    }
}

/// How many characters from `strip` stand at the end of the text after the
/// last other character.
pub open spec fn trailing(s: Seq<char>, strip: Set<char>) -> nat
    decreases s.len(),
{
    if s.len() > 0 && strip.contains(s.last()) {
        1 + trailing(s.drop_last(), strip)
    } else {
        0
    }
}

/// The text without the run of characters from `strip` at its start and
/// without the run at its end. A text made of such characters alone becomes
/// empty.
pub open spec fn stripped(s: Seq<char>, strip: Set<char>) -> Seq<char> {
    if leading(s, strip) == s.len() {
        Seq::empty()
    } else {
        s.subrange(leading(s, strip) as int, s.len() - trailing(s, strip))
    }
}

/// The text without the run of `c` at its start and without the run of `c`
/// at its end.
pub open spec fn trimmed(s: Seq<char>, c: char) -> Seq<char> {
    stripped(s, only(c))
}

/// The text with each unbroken run of characters from `run` replaced by one
/// `rep`; the other characters stay as they are, in order.
pub open spec fn collapsed(s: Seq<char>, run: Set<char>, rep: char) -> Seq<char>
    decreases s.len(),
{
    if s.len() == 0 {
        Seq::empty()
    } else if !run.contains(s.last()) {
        collapsed(s.drop_last(), run, rep).push(s.last())
    } else if s.len() >= 2 && run.contains(s[s.len() - 2]) {
        collapsed(s.drop_last(), run, rep)
    } else {
        collapsed(s.drop_last(), run, rep).push(rep)
    }
}

/// `leading` is the index of the first character that is not in `strip`.
pub proof fn lemma_leading(s: Seq<char>, strip: Set<char>, k: int)
    requires
        0 <= k <= s.len(),
        forall|i: int| 0 <= i < k ==> strip.contains(s[i]),
        k == s.len() || !strip.contains(s[k]),
    ensures
        leading(s, strip) == k,
    decreases k,
{
    if k > 0 {
        let t = s.drop_first();
        assert forall|i: int| 0 <= i < k - 1 implies strip.contains(t[i]) by {
            assert(t[i] == s[i + 1]);
        }
        lemma_leading(t, strip, k - 1);
    }
}

/// `trailing` counts back from the end to the last character that is not in
/// `strip`.
pub proof fn lemma_trailing(s: Seq<char>, strip: Set<char>, k: int)
    requires
        0 <= k <= s.len(),
        forall|i: int| s.len() - k <= i < s.len() ==> strip.contains(s[i]),
        k == s.len() || !strip.contains(s[s.len() - k - 1]),
    ensures
        trailing(s, strip) == k,
    decreases k,
{
    if k > 0 {
        let t = s.drop_last();
        assert forall|i: int| t.len() - (k - 1) <= i < t.len() implies strip.contains(t[i]) by {
            assert(t[i] == s[i]);
        }
        lemma_trailing(t, strip, k - 1);
    }
}

/// Both counts stay within the text, the characters they count are in
/// `strip`, and the character next to each run is not.
pub proof fn lemma_leading_trailing_bounds(s: Seq<char>, strip: Set<char>)
    ensures
        leading(s, strip) <= s.len(),
        trailing(s, strip) <= s.len(),
        forall|i: int| 0 <= i < leading(s, strip) ==> strip.contains(s[i]),
        leading(s, strip) < s.len() ==> !strip.contains(s[leading(s, strip) as int]),
        forall|i: int| s.len() - trailing(s, strip) <= i < s.len() ==> strip.contains(s[i]),
        trailing(s, strip) < s.len() ==> !strip.contains(s[s.len() - trailing(s, strip) - 1]),
        leading(s, strip) < s.len() ==> leading(s, strip) + trailing(s, strip) < s.len(),
    decreases s.len(),
{
    if s.len() > 0 {
        lemma_leading_trailing_bounds(s.drop_first(), strip);
        lemma_leading_trailing_bounds(s.drop_last(), strip);
        if strip.contains(s[0]) {
            let t = s.drop_first();
            assert forall|i: int| 0 <= i < leading(s, strip) implies strip.contains(s[i]) by {
                if i > 0 {
                    assert(s[i] == t[i - 1]);
                }
            }
            if leading(s, strip) < s.len() {
                assert(s[leading(s, strip) as int] == t[leading(t, strip) as int]);
            }
        }
        if strip.contains(s.last()) {
            let t = s.drop_last();
            assert forall|i: int| s.len() - trailing(s, strip) <= i < s.len() implies strip.contains(
                s[i],
            ) by {
                if i < s.len() - 1 {
                    assert(s[i] == t[i]);
                }
            }
            if trailing(s, strip) < s.len() {
                assert(s[s.len() - trailing(s, strip) - 1] == t[t.len() - trailing(t, strip) - 1]);
            }
        }
    }
}

/// Every character of the collapsed text is `rep` or a character of the text
/// that is not in `run`.
pub proof fn lemma_collapsed_chars(s: Seq<char>, run: Set<char>, rep: char)
    ensures
        forall|i: int|
            0 <= i < collapsed(s, run, rep).len() ==> {
                let c = #[trigger] collapsed(s, run, rep)[i];
                c == rep || (!run.contains(c) && s.contains(c))
            },
    decreases s.len(),
{
    if s.len() > 0 {
        let init = s.drop_last();
        lemma_collapsed_chars(init, run, rep);
        assert forall|i: int| 0 <= i < collapsed(s, run, rep).len() implies {
            let c = #[trigger] collapsed(s, run, rep)[i];
            c == rep || (!run.contains(c) && s.contains(c))
        } by {
            let c = collapsed(s, run, rep)[i];
            if i < collapsed(init, run, rep).len() {
                assert(c == collapsed(init, run, rep)[i]);
                if c != rep {
                    let j = choose|j: int| 0 <= j < init.len() && init[j] == c;
                    assert(s[j] == c);
                }
            } else if c != rep {
                assert(c == s.last());
                assert(s[s.len() - 1] == c);
            }
        }
    }
}

/// A text without characters from `run` is its own collapsed form.
pub proof fn lemma_collapsed_unchanged(s: Seq<char>, run: Set<char>, rep: char)
    requires
        forall|i: int| 0 <= i < s.len() ==> !run.contains(s[i]),
    ensures
        collapsed(s, run, rep) == s,
    decreases s.len(),
{
    if s.len() > 0 {
        lemma_collapsed_unchanged(s.drop_last(), run, rep);
        assert(s.drop_last().push(s.last()) =~= s);
    }
}

/// The stripped text is a stretch of the text, and no character from `strip`
/// stands at either of its ends.
pub proof fn lemma_stripped(s: Seq<char>, strip: Set<char>)
    ensures
        stripped(s, strip).len() <= s.len(),
        forall|i: int|
            0 <= i < stripped(s, strip).len() ==> s.contains(#[trigger] stripped(s, strip)[i]),
        stripped(s, strip).len() > 0 ==> !strip.contains(stripped(s, strip)[0]) && !strip.contains(
            stripped(s, strip).last(),
        ),
{
    lemma_leading_trailing_bounds(s, strip);
    let t = stripped(s, strip);
    if leading(s, strip) < s.len() {
        let a = leading(s, strip) as int;
        assert forall|i: int| 0 <= i < t.len() implies s.contains(#[trigger] t[i]) by {
            assert(t[i] == s[a + i]);
        }
        assert(t[0] == s[a]);
        assert(t.last() == s[s.len() - trailing(s, strip) - 1]);
    }
}

/// A text with no character from `strip` at either end is its own stripped
/// form.
pub proof fn lemma_stripped_unchanged(s: Seq<char>, strip: Set<char>)
    requires
        s.len() > 0 ==> !strip.contains(s[0]) && !strip.contains(s.last()),
    ensures
        stripped(s, strip) == s,
{
    if s.len() > 0 {
        assert(s.subrange(0, s.len() as int) =~= s);
    } else {
        assert(stripped(s, strip) =~= s);
    }
}

/// The trimmed text is a stretch of the text, and `c` stands at neither of
/// its ends.
pub proof fn lemma_trimmed(s: Seq<char>, c: char)
    ensures
        trimmed(s, c).len() <= s.len(),
        forall|i: int| 0 <= i < trimmed(s, c).len() ==> s.contains(#[trigger] trimmed(s, c)[i]),
        trimmed(s, c).len() > 0 ==> trimmed(s, c)[0] != c && trimmed(s, c).last() != c,
{
    lemma_stripped(s, only(c));
}

/// A text that neither starts nor ends with `c` is its own trimmed form.
pub proof fn lemma_trimmed_unchanged(s: Seq<char>, c: char)
    requires
        s.len() > 0 ==> s[0] != c && s.last() != c,
    ensures
        trimmed(s, c) == s,
{
    lemma_stripped_unchanged(s, only(c));
}

/// The character with an ASCII capital letter made small.
pub fn to_lower(c: char) -> (r: char)
    ensures
        r == lower(c),
{
    if 'A' <= c && c <= 'Z' {
        ((c as u8) + 32) as char
    } else {
        c
    }
}

/// The characters of a text, in order.
pub fn to_chars(text: &str) -> (out: Vec<char>)
    ensures
        out@ == text@,
{
    let mut out: Vec<char> = Vec::new();
    for c in it: text.chars()
        invariant
            it.seq() == text@,
            out@ == it.seq().take(it.index() as int),
    {
        out.push(c);
    }
    out
}

/// The text made of the given characters, in order.
pub fn from_chars(chars: &Vec<char>) -> (out: String)
    ensures
        out@ == chars@,
{
    let mut out = String::new();
    let mut i: usize = 0;
    while i < chars.len()
        invariant
            i <= chars.len(),
            out@ == chars@.take(i as int),
        decreases chars.len() - i,
    {
        out.push(chars[i]);
        i += 1;
    }
    out
}

/// Maps ASCII capital letters to small ones and leaves the rest.
pub fn lowercase(chars: &Vec<char>) -> (out: Vec<char>)
    ensures
        out@ == lowercased(chars@),
{
    let mut out: Vec<char> = Vec::new();
    let mut i: usize = 0;
    while i < chars.len()
        invariant
            i <= chars.len(),
            out@ == lowercased(chars@).take(i as int),
        decreases chars.len() - i,
    {
        out.push(to_lower(chars[i]));
        i += 1;
    }
    out
}

/// Replaces every `from` by `to`.
pub fn replace_char(chars: &Vec<char>, from: char, to: char) -> (out: Vec<char>)
    ensures
        out@ == replaced_char(chars@, from, to),
{
    let mut out: Vec<char> = Vec::new();
    let mut i: usize = 0;
    while i < chars.len()
        invariant
            i <= chars.len(),
            out@ == replaced_char(chars@, from, to).take(i as int),
        decreases chars.len() - i,
    {
        let c = chars[i];
        out.push(if c == from { to } else { c });
        i += 1;
    }
    out
}

/// The characters from index `start` up to, not including, index `end`.
pub fn stretch(chars: &Vec<char>, start: usize, end: usize) -> (out: Vec<char>)
    requires
        start <= end <= chars.len(),
    ensures
        out@ == chars@.subrange(start as int, end as int),
{
    let mut out: Vec<char> = Vec::new();
    let mut i: usize = start;
    while i < end
        invariant
            start <= i <= end <= chars.len(),
            out@ == chars@.subrange(start as int, i as int),
        decreases end - i,
    {
        out.push(chars[i]);
        i += 1;
    }
    out
}

/// Removes the run of `c` at the start and the run of `c` at the end.
pub fn trim_matches(chars: &Vec<char>, c: char) -> (out: Vec<char>)
    ensures
        out@ == trimmed(chars@, c),
{
    let n = chars.len();
    let mut start: usize = 0;
    while start < n && chars[start] == c
        invariant
            start <= n,
            n == chars.len(),
            forall|i: int| 0 <= i < start ==> only(c).contains(chars@[i]),
        decreases n - start,
    {
        start += 1;
    }
    proof {
        lemma_leading(chars@, only(c), start as int);
    }
    if start == n {
        return Vec::new();
    }
    let mut end: usize = n;
    while end > start && chars[end - 1] == c
        invariant
            start < end <= n,
            n == chars.len(),
            !only(c).contains(chars@[start as int]),
            forall|i: int| end <= i < n ==> only(c).contains(chars@[i]),
        decreases end,
    {
        end -= 1;
    }
    proof {
        lemma_trailing(chars@, only(c), n - end);
    }
    stretch(chars, start, end)
}

/// Whether the character has the Unicode property `White_Space`.
pub fn whitespace_char(c: char) -> (r: bool)
    ensures
        r == is_whitespace(c),
{
    ('\u{9}' <= c && c <= '\u{d}') || c == ' ' || c == '\u{85}' || c == '\u{a0}' || c == '\u{1680}'
        || ('\u{2000}' <= c && c <= '\u{200a}') || c == '\u{2028}' || c == '\u{2029}' || c
        == '\u{202f}' || c == '\u{205f}' || c == '\u{3000}'
}

/// Removes the whitespace at the start and the whitespace at the end.
pub fn trim_whitespace(chars: &Vec<char>) -> (out: Vec<char>)
    ensures
        out@ == stripped(chars@, whitespace()),
{
    let n = chars.len();
    let mut start: usize = 0;
    while start < n && whitespace_char(chars[start])
        invariant
            start <= n,
            n == chars.len(),
            forall|i: int| 0 <= i < start ==> whitespace().contains(chars@[i]),
        decreases n - start,
    {
        start += 1;
    }
    proof {
        lemma_leading(chars@, whitespace(), start as int);
    }
    if start == n {
        return Vec::new();
    }
    let mut end: usize = n;
    while end > start && whitespace_char(chars[end - 1])
        invariant
            start < end <= n,
            n == chars.len(),
            !whitespace().contains(chars@[start as int]),
            forall|i: int| end <= i < n ==> whitespace().contains(chars@[i]),
        decreases end,
    {
        end -= 1;
    }
    proof {
        lemma_trailing(chars@, whitespace(), n - end);
    }
    stretch(chars, start, end)
}

} // verus!
