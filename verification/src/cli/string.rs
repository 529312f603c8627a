//! The program that slugifies the words it is given.

use vstd::prelude::*;
use vstd::string::StringExecFns;
use crate::cli::aliasing::texts;
use crate::cli::parameters::SlugifyParameters;
use crate::errors::Error;
use crate::pattern::{pattern_text, regex_accepts};
use crate::string::slug_of;

verus! {

/// The texts joined into one, with `between` between each two.
pub open spec fn joined(parts: Seq<Seq<char>>, between: Seq<char>) -> Seq<char>
    decreases parts.len(),
{
    if parts.len() == 0 {
        Seq::empty()
    } else if parts.len() == 1 {
        parts[0]
    } else {
        joined(parts.drop_last(), between) + between + parts.last()
    }
}

/// Joins the texts into one, with `between` between each two.
pub fn join(parts: &Vec<String>, between: &str) -> (out: String)
    ensures
        out@ == joined(texts(parts@), between@),
{
    let mut out = String::new();
    let mut i: usize = 0;
    assert(texts(parts@).take(0) =~= Seq::empty());
    while i < parts.len()
        invariant
            i <= parts.len(),
            out@ == joined(texts(parts@).take(i as int), between@),
        decreases parts.len() - i,
    {
        proof {
            let next = texts(parts@).take(i + 1);
            assert(next.drop_last() =~= texts(parts@).take(i as int));
            assert(next.last() == parts@[i as int]@);
            if i == 0 {
                assert(next[0] == parts@[0]@);
                assert(Seq::<char>::empty() + parts@[0]@ =~= parts@[0]@);
            }
        }
        if i > 0 {
            out.append(between);
        }
        out.append(parts[i].as_str());
        i += 1;
    }
    assert(texts(parts@).take(parts.len() as int) =~= texts(parts@));
    out
}

/// The words to slugify, and how.
#[derive(Debug, Clone)]
pub struct SlugifyString {
    /// The words; they are joined by single spaces.
    pub text: Vec<String>,
    /// The options of the transform.
    pub parameters: SlugifyParameters,
}

impl SlugifyString {
    /// The line to print: the slug of the words joined by spaces, or nothing
    /// where no word was given.
    pub fn slug(&self) -> (r: Result<Option<String>, Error>)
        ensures
            self.text@.len() == 0 ==> r == Ok::<Option<String>, Error>(None),
            self.text@.len() > 0 ==> (r is Ok <==> regex_accepts(
                pattern_text(Some(self.parameters.effective_separator())),
            )),
            self.text@.len() > 0 ==> (r matches Ok(line) ==> line matches Some(slug) && slug@
                == slug_of(
                joined(texts(self.text@), " "@),
                self.parameters.effective_separator(),
                !self.parameters.no_lowercase,
            )),
            r matches Err(e) ==> e is PatternCompilationError,
    {
        if self.text.len() == 0 {
            return Ok(None);
        }
        let line = join(&self.text, " ");
        match self.parameters.slugify_string(line.as_str()) {
            Ok(slug) => Ok(Some(slug)),
            Err(e) => Err(e),
        }
    }
}

} // verus!
