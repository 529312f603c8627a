//! The ignore list: literal entries, one per line of a file, that name the
//! paths to leave alone.

use vstd::prelude::*;
use crate::cli::aliasing::texts;
use crate::text::{from_chars, stripped, to_chars, trim_whitespace, whitespace};

verus! {

/// What is known of a path when it is looked at.
#[derive(Debug)]
pub struct PathInfo {
    /// The path in full, resolved.
    pub path: String,
    /// The last component of the path.
    pub name: String,
    /// The path as seen from the working directory.
    pub relative: String,
    /// Whether something is there.
    pub exists: bool,
    /// Whether it is a regular file.
    pub is_file: bool,
    /// Whether it is a directory.
    pub is_dir: bool,
}

impl Clone for PathInfo {
    fn clone(&self) -> (copy: PathInfo)
        ensures
            copy == *self,
    {
        PathInfo {
            path: self.path.clone(),
            name: self.name.clone(),
            relative: self.relative.clone(),
            exists: self.exists,
            is_file: self.is_file,
            is_dir: self.is_dir,
        }
    }
}

/// The stretches of a text between its line feeds. There is always one, and
/// one more for each line feed.
pub open spec fn pieces(s: Seq<char>) -> Seq<Seq<char>>
    decreases s.len(),
{
    if s.len() == 0 {
        seq![Seq::empty()]
    } else if s.last() == '\n' {
        pieces(s.drop_last()).push(Seq::empty())
    } else {
        pieces(s.drop_last()).update(
            pieces(s.drop_last()).len() - 1,
            pieces(s.drop_last()).last().push(s.last()),
        )
    }
}

/// The lines without the whitespace at their ends, those that are then empty
/// left out.
pub open spec fn entries_of(lines: Seq<Seq<char>>) -> Seq<Seq<char>>
    decreases lines.len(),
{
    if lines.len() == 0 {
        Seq::empty()
    } else if stripped(lines.last(), whitespace()).len() > 0 {
        entries_of(lines.drop_last()).push(stripped(lines.last(), whitespace()))
    } else {
        entries_of(lines.drop_last())
    }
}

/// The entries that the contents of an ignore file hold.
pub open spec fn ignore_list(contents: Seq<char>) -> Seq<Seq<char>> {
    entries_of(pieces(contents))
}

/// Whether an entry names the path: by its name, by its path from the
/// working directory, or by its full path.
pub open spec fn names_path(entry: Seq<char>, path: PathInfo) -> bool {
    entry == path.name@ || entry == path.relative@ || entry == path.path@
}

/// Whether one of the lines, without the whitespace at its ends, is not
/// empty and names the path.
pub open spec fn is_ignored(lines: Seq<Seq<char>>, path: PathInfo) -> bool {
    exists|i: int|
        0 <= i < lines.len() && stripped(#[trigger] lines[i], whitespace()).len() > 0 && names_path(
            stripped(lines[i], whitespace()),
            path,
        )
}

/// A text has at least one piece.
pub proof fn lemma_pieces_nonempty(s: Seq<char>)
    ensures
        pieces(s).len() >= 1,
    decreases s.len(),
{
    if s.len() > 0 {
        lemma_pieces_nonempty(s.drop_last());
    }
}

/// Reads the entries of an ignore file from its contents: one per line,
/// whitespace at the ends dropped, empty lines left out.
pub fn ignore_entries(contents: &str) -> (entries: Vec<String>)
    ensures
        texts(entries@) == ignore_list(contents@),
{
    let chars = to_chars(contents);
    let mut entries: Vec<String> = Vec::new();
    let mut current: Vec<char> = Vec::new();
    let mut i: usize = 0;
    assert(chars@.take(0) =~= Seq::empty());
    assert(pieces(chars@.take(0)).drop_last() =~= Seq::empty());
    assert(texts(entries@) =~= Seq::empty());
    while i < chars.len()
        invariant
            i <= chars.len(),
            pieces(chars@.take(i as int)).len() >= 1,
            texts(entries@) == entries_of(pieces(chars@.take(i as int)).drop_last()),
            current@ == pieces(chars@.take(i as int)).last(),
        decreases chars.len() - i,
    {
        let ghost before = pieces(chars@.take(i as int));
        let ghost listed = texts(entries@);
        proof {
            assert(chars@.take(i + 1).drop_last() =~= chars@.take(i as int));
            assert(chars@.take(i + 1).last() == chars@[i as int]);
            lemma_pieces_nonempty(chars@.take(i + 1));
        }
        let c = chars[i];
        if c == '\n' {
            let entry = trim_whitespace(&current);
            if entry.len() > 0 {
                entries.push(from_chars(&entry));
                assert(texts(entries@) =~= listed.push(entry@));
            }
            current = Vec::new();
            assert(pieces(chars@.take(i + 1)).drop_last() =~= before);
        } else {
            current.push(c);
            assert(pieces(chars@.take(i + 1)).drop_last() =~= before.drop_last());
        }
        i += 1;
    }
    assert(chars@.take(chars.len() as int) =~= chars@);
    let ghost listed = texts(entries@);
    let entry = trim_whitespace(&current);
    if entry.len() > 0 {
        entries.push(from_chars(&entry));
        assert(texts(entries@) =~= listed.push(entry@));
    }
    entries
}

/// Whether a line of the ignore list names the path.
pub fn matches_ignore_list(lines: &Vec<String>, path: &PathInfo) -> (ignored: bool)
    ensures
        ignored == is_ignored(texts(lines@), *path),
{
    let mut i: usize = 0;
    while i < lines.len()
        invariant
            i <= lines.len(),
            forall|j: int|
                0 <= j < i ==> !(stripped(#[trigger] texts(lines@)[j], whitespace()).len() > 0
                    && names_path(stripped(texts(lines@)[j], whitespace()), *path)),
        decreases lines.len() - i,
    {
        assert(texts(lines@)[i as int] == lines@[i as int]@);
        let entry = from_chars(&trim_whitespace(&to_chars(lines[i].as_str())));
        if entry.as_str().unicode_len() > 0 && (*entry.as_str() == *path.name.as_str()
            || *entry.as_str() == *path.relative.as_str() || *entry.as_str()
            == *path.path.as_str()) {
            return true;
        }
        i += 1;
    }
    false
}

} // verus!
