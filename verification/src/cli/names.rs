//! File names: stem and extension, the full path of a sibling, and the
//! numbered names that are tried where a name is taken.

use vstd::prelude::*;
use vstd::set_lib::lemma_len_subset;
use vstd::seq_lib::seq_to_set_is_finite;
use crate::cli::aliasing::{contains_text, texts};
use crate::text::{from_chars, stretch, to_chars};

verus! {

/// The index of the last `c` in the text, or -1 where there is none.
pub open spec fn last_index_of(s: Seq<char>, c: char) -> int
    decreases s.len(),
{
    if s.len() == 0 {
        -1
    } else if s.last() == c {
        s.len() - 1
    } else {
        last_index_of(s.drop_last(), c)
    }
}

/// The name up to its last dot, or the whole name where it has no dot.
pub open spec fn stem_of(name: Seq<char>) -> Seq<char> {
    if last_index_of(name, '.') < 0 {
        name
    } else {
        name.take(last_index_of(name, '.'))
    }
}

/// What follows the last dot of the name, if it has a dot.
pub open spec fn extension_of(name: Seq<char>) -> Option<Seq<char>> {
    if last_index_of(name, '.') < 0 {
        None
    } else {
        Some(name.skip(last_index_of(name, '.') + 1))
    }
}

/// The stem, and after a dot the extension if there is one.
pub open spec fn with_extension(stem: Seq<char>, extension: Option<Seq<char>>) -> Seq<char> {
    match extension {
        None => stem,
        Some(e) => stem + seq!['.'] + e,
    }
}

/// The path with its last component replaced by `name`: the path up to and
/// with its last `/`, then the name.
pub open spec fn sibling(path: Seq<char>, name: Seq<char>) -> Seq<char> {
    path.take(last_index_of(path, '/') + 1) + name
}

/// The decimal digit for a number below ten.
pub open spec fn digit_char(d: nat) -> char {
    ((48 + d) as u8) as char
}

/// The number in decimal digits, without leading zeros.
pub open spec fn decimal_text(n: nat) -> Seq<char>
    decreases n,
{
    if n < 10 {
        seq![digit_char(n)]
    } else {
        decimal_text(n / 10).push(digit_char(n % 10))
    }
}

/// The number that decimal digits stand for.
pub open spec fn decimal_value(s: Seq<char>) -> nat
    decreases s.len(),
{
    if s.len() == 0 {
        0
    } else {
        decimal_value(s.drop_last()) * 10 + ((s.last() as u8 - 48) as nat)
    }
}

/// The `n`-th name that is tried for a stem and an extension: first the
/// plain name, then the stem followed by a dot and a number, counting from
/// zero.
pub open spec fn attempt(stem: Seq<char>, extension: Option<Seq<char>>, n: nat) -> Seq<char> {
    if n == 0 {
        with_extension(stem, extension)
    } else {
        with_extension(stem + seq!['.'] + decimal_text((n - 1) as nat), extension)
    }
}

/// Whether a name can be used: nothing of the directory has it, or it is the
/// name that the entry has already.
pub open spec fn is_free(name: Seq<char>, current: Seq<char>, taken: Seq<Seq<char>>) -> bool {
    name == current || !taken.contains(name)
}

/// The number of the first attempt from the `n`-th on that gives a free
/// name. The search stops at the latest one attempt past the number of
/// entries in the directory.
pub open spec fn first_free_from(
    stem: Seq<char>,
    extension: Option<Seq<char>>,
    current: Seq<char>,
    taken: Seq<Seq<char>>,
    n: nat,
) -> nat
    decreases taken.len() + 1 - n,
{
    if n > taken.len() || is_free(attempt(stem, extension, n), current, taken) {
        n
    } else {
        first_free_from(stem, extension, current, taken, n + 1)
    }
}

/// The first free name for a stem and an extension: the plain name if it is
/// free, else the first numbered one that is.
pub open spec fn free_name(
    stem: Seq<char>,
    extension: Option<Seq<char>>,
    current: Seq<char>,
    taken: Seq<Seq<char>>,
) -> Seq<char> {
    attempt(stem, extension, first_free_from(stem, extension, current, taken, 0))
}

/// An index that holds `c` with no `c` after it is the last index.
pub proof fn lemma_last_index_found(s: Seq<char>, c: char, k: int)
    requires
        -1 <= k < s.len(),
        k >= 0 ==> s[k] == c,
        forall|i: int| k < i < s.len() ==> s[i] != c,
    ensures
        last_index_of(s, c) == k,
    decreases s.len(),
{
    if s.len() > 0 && s.last() != c {
        lemma_last_index_found(s.drop_last(), c, k);
    }
}

/// The digits of a number stand for that number, and there is at least one.
pub proof fn lemma_decimal_value(n: nat)
    ensures
        decimal_value(decimal_text(n)) == n,
        decimal_text(n).len() >= 1,
    decreases n,
{
    if n < 10 {
        assert(decimal_text(n).drop_last() =~= Seq::<char>::empty());
        assert(decimal_value(Seq::<char>::empty()) == 0);
    } else {
        lemma_decimal_value(n / 10);
        assert(decimal_text(n).drop_last() =~= decimal_text(n / 10));
    }
}

/// Two different attempts give two different names.
pub proof fn lemma_attempts_differ(
    stem: Seq<char>,
    extension: Option<Seq<char>>,
    a: nat,
    b: nat,
)
    requires
        a != b,
    ensures
        attempt(stem, extension, a) != attempt(stem, extension, b),
{
    let tail = match extension {
        None => Seq::<char>::empty(),
        Some(e) => seq!['.'] + e,
    };
    let head_a = if a == 0 {
        stem
    } else {
        stem + seq!['.'] + decimal_text((a - 1) as nat)
    };
    let head_b = if b == 0 {
        stem
    } else {
        stem + seq!['.'] + decimal_text((b - 1) as nat)
    };
    assert(attempt(stem, extension, a) =~= head_a + tail);
    assert(attempt(stem, extension, b) =~= head_b + tail);
    if a > 0 {
        lemma_decimal_value((a - 1) as nat);
    }
    if b > 0 {
        lemma_decimal_value((b - 1) as nat);
    }
    if head_a + tail == head_b + tail {
        assert(head_a.len() == head_b.len());
        assert(head_a =~= (head_a + tail).take(head_a.len() as int));
        assert(head_b =~= (head_b + tail).take(head_b.len() as int));
        assert(a > 0 && b > 0);
        assert(decimal_text((a - 1) as nat) =~= head_a.skip(stem.len() as int + 1));
        assert(decimal_text((b - 1) as nat) =~= head_b.skip(stem.len() as int + 1));
    }
}

/// Among the first attempts, one more than the directory has entries, one
/// is not taken.
pub proof fn lemma_some_attempt_is_free(
    stem: Seq<char>,
    extension: Option<Seq<char>>,
    taken: Seq<Seq<char>>,
)
    ensures
        exists|n: nat| n <= taken.len() && !taken.contains(#[trigger] attempt(stem, extension, n)),
{
    if forall|n: nat| n <= taken.len() ==> taken.contains(#[trigger] attempt(stem, extension, n)) {
        let tried = Seq::new(taken.len() + 1, |n: int| attempt(stem, extension, n as nat));
        assert forall|i: int, j: int| 0 <= i < tried.len() && 0 <= j < tried.len() && i != j implies tried[i]
            != tried[j] by {
            lemma_attempts_differ(stem, extension, i as nat, j as nat);
        }
        tried.unique_seq_to_set();
        taken.lemma_cardinality_of_set();
        seq_to_set_is_finite(taken);
        assert forall|name: Seq<char>| tried.to_set().contains(name) implies taken.to_set().contains(
            name,
        ) by {
            let i = choose|i: int| 0 <= i < tried.len() && tried[i] == name;
            assert(taken.contains(attempt(stem, extension, i as nat)));
        }
        lemma_len_subset(tried.to_set(), taken.to_set());
    }
}

/// The search finds a free name, after no more attempts than the directory
/// has entries, and no attempt before it gives a free name.
pub proof fn lemma_first_free_from(
    stem: Seq<char>,
    extension: Option<Seq<char>>,
    current: Seq<char>,
    taken: Seq<Seq<char>>,
    n: nat,
)
    requires
        forall|m: nat| m < n ==> !is_free(#[trigger] attempt(stem, extension, m), current, taken),
    ensures
        n <= first_free_from(stem, extension, current, taken, n) <= taken.len(),
        is_free(
            attempt(stem, extension, first_free_from(stem, extension, current, taken, n)),
            current,
            taken,
        ),
        forall|m: nat|
            m < first_free_from(stem, extension, current, taken, n) ==> !is_free(
                #[trigger] attempt(stem, extension, m),
                current,
                taken,
            ),
    decreases taken.len() + 1 - n,
{
    lemma_some_attempt_is_free(stem, extension, taken);
    let k = choose|k: nat| k <= taken.len() && !taken.contains(#[trigger] attempt(stem, extension, k));
    assert(is_free(attempt(stem, extension, k), current, taken));
    assert(n <= k);
    if !is_free(attempt(stem, extension, n), current, taken) {
        assert forall|m: nat| m < n + 1 implies !is_free(
            #[trigger] attempt(stem, extension, m),
            current,
            taken,
        ) by {}
        lemma_first_free_from(stem, extension, current, taken, n + 1);
    }
}

/// Where a name is taken, the name that is used instead is free: nothing in
/// the directory has it, unless it is the entry's own name.
pub proof fn lemma_free_name_is_free(
    stem: Seq<char>,
    extension: Option<Seq<char>>,
    current: Seq<char>,
    taken: Seq<Seq<char>>,
)
    ensures
        is_free(free_name(stem, extension, current, taken), current, taken),
{
    lemma_first_free_from(stem, extension, current, taken, 0);
}

/// The index of the last `c` among the characters, if there is one.
pub fn find_last(chars: &Vec<char>, c: char) -> (found: Option<usize>)
    ensures
        match found {
            Some(i) => i == last_index_of(chars@, c) && i < chars.len(),
            None => last_index_of(chars@, c) == -1,
        },
{
    let mut i: usize = chars.len();
    while i > 0
        invariant
            i <= chars.len(),
            forall|j: int| i <= j < chars.len() ==> chars@[j] != c,
        decreases i,
    {
        i -= 1;
        if chars[i] == c {
            proof {
                lemma_last_index_found(chars@, c, i as int);
            }
            return Some(i);
        }
    }
    proof {
        lemma_last_index_found(chars@, c, -1);
    }
    None
}

/// Splits a name at its last dot into stem and extension. A name without a
/// dot is all stem.
pub fn split_extension(name: &str) -> (parts: (String, Option<String>))
    ensures
        parts.0@ == stem_of(name@),
        match parts.1 {
            Some(e) => extension_of(name@) == Some(e@),
            None => extension_of(name@) is None,
        },
{
    let chars = to_chars(name);
    match find_last(&chars, '.') {
        Some(dot) => {
            let stem = stretch(&chars, 0, dot);
            let extension = stretch(&chars, dot + 1, chars.len());
            assert(chars@.subrange(0, dot as int) =~= chars@.take(dot as int));
            assert(chars@.subrange(dot + 1, chars.len() as int) =~= chars@.skip(dot + 1));
            (from_chars(&stem), Some(from_chars(&extension)))
        },
        None => (from_chars(&chars), None),
    }
}

/// The text of an extension that may be missing.
pub open spec fn text_of(extension: Option<String>) -> Option<Seq<char>> {
    match extension {
        Some(e) => Some(e@),
        None => None,
    }
}

/// Joins a stem and an extension by a dot. Without an extension the stem is
/// the name.
pub fn join_extension(name: &str, extension: &Option<String>) -> (joined: String)
    ensures
        joined@ == with_extension(name@, text_of(*extension)),
{
    let mut joined = name.to_owned();
    match extension {
        Some(e) => {
            joined.push('.');
            joined.append(e.as_str());
        },
        None => {},
    }
    joined
}

/// The path of the entry called `name` in the directory of `path`.
pub fn with_filename(path: &str, name: &str) -> (out: String)
    ensures
        out@ == sibling(path@, name@),
{
    let chars = to_chars(path);
    let keep = match find_last(&chars, '/') {
        Some(slash) => slash + 1,
        None => 0,
    };
    assert(chars@.subrange(0, keep as int) =~= chars@.take(keep as int));
    let mut out = from_chars(&stretch(&chars, 0, keep));
    out.append(name);
    out
}

/// The number in decimal digits.
pub fn decimal(n: usize) -> (digits: Vec<char>)
    ensures
        digits@ == decimal_text(n as nat),
    decreases n,
{
    if n < 10 {
        let mut digits: Vec<char> = Vec::new();
        digits.push((48 + n as u8) as char);
        digits
    } else {
        let mut digits = decimal(n / 10);
        digits.push((48 + (n % 10) as u8) as char);
        digits
    }
}

/// The `n`-th name that is tried for a stem and an extension.
pub fn nth_attempt(stem: &str, extension: &Option<String>, n: usize) -> (name: String)
    ensures
        name@ == attempt(stem@, text_of(*extension), n as nat),
{
    if n == 0 {
        join_extension(stem, extension)
    } else {
        let mut numbered = stem.to_owned();
        numbered.push('.');
        numbered.append(from_chars(&decimal(n - 1)).as_str());
        join_extension(numbered.as_str(), extension)
    }
}

/// The first name that can be used for an entry: the plain name if it is
/// free, else the first numbered one that is. `taken` holds the names in the
/// entry's directory, `current` the name that the entry has now.
pub fn first_free(stem: &str, extension: &Option<String>, current: &str, taken: &Vec<String>) -> (name:
    String)
    ensures
        name@ == free_name(stem@, text_of(*extension), current@, texts(taken@)),
        is_free(name@, current@, texts(taken@)),
{
    let mut n: usize = 0;
    let mut name = nth_attempt(stem, extension, 0);
    while *name.as_str() != *current && contains_text(taken, name.as_str())
        invariant
            n <= taken.len(),
            name@ == attempt(stem@, text_of(*extension), n as nat),
            forall|m: nat|
                m < n ==> !is_free(
                    #[trigger] attempt(stem@, text_of(*extension), m),
                    current@,
                    texts(taken@),
                ),
            first_free_from(stem@, text_of(*extension), current@, texts(taken@), 0)
                == first_free_from(stem@, text_of(*extension), current@, texts(taken@), n as nat),
        decreases taken.len() - n,
    {
        proof {
            assert forall|m: nat| m < n + 1 implies !is_free(
                #[trigger] attempt(stem@, text_of(*extension), m),
                current@,
                texts(taken@),
            ) by {}
            lemma_first_free_from(
                stem@,
                text_of(*extension),
                current@,
                texts(taken@),
                (n + 1) as nat,
            );
        }
        n += 1;
        name = nth_attempt(stem, extension, n);
    }
    name
}

} // verus!
