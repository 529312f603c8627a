//! How much a run reports.

use vstd::prelude::*;
use vstd::string::StringExecFns;
use crate::cli::aliasing::{
    heck_aliases, lemma_merged_in_turn, push_all_new, spellings, texts, without_repeats,
};
use crate::text::{from_chars, stripped, to_chars, trim_whitespace, whitespace};

verus! {

/// What `str::to_lowercase` returns for a text: its lowercase equivalent by
/// the Unicode rules.
pub uninterp spec fn unicode_lowercased(text: Seq<char>) -> Seq<char>;

/// Calls `str::to_lowercase`. The result is a function of the text alone.
#[verifier::external_body]
fn to_lowercase(text: &str) -> (out: String)
    ensures
        out@ == unicode_lowercased(text@),
{
    text.to_lowercase()
}

/// The levels of reporting, from silent to most talkative.
#[derive(Clone, Copy, Debug, PartialEq, Eq, Structural, PartialOrd, Ord)]
pub enum Verbosity {
    Off,
    Quiet,
    Warning,
    Info,
    Hint,
    Debug,
}

impl Default for Verbosity {
    fn default() -> (v: Verbosity)
        ensures
            v == Verbosity::Info,
    {
        Verbosity::Info
    }
}

impl From<u8> for Verbosity {
    /// The level with that number; every number above 4 is `Debug`.
    fn from(level: u8) -> (v: Verbosity) {
        match level {
            0 => Verbosity::Off,
            1 => Verbosity::Quiet,
            2 => Verbosity::Warning,
            3 => Verbosity::Info,
            4 => Verbosity::Hint,
            _ => Verbosity::Debug,
        }
    }
}

impl vstd::std_specs::convert::FromSpecImpl<u8> for Verbosity {
    open spec fn obeys_from_spec() -> bool {
        true
    }

    open spec fn from_spec(level: u8) -> Verbosity {
        Verbosity::of_level(level)
    }
}

impl Verbosity {
    /// The level with that number; every number above 4 is `Debug`.
    pub open spec fn of_level(level: u8) -> Verbosity {
        if level == 0 {
            Verbosity::Off
        } else if level == 1 {
            Verbosity::Quiet
        } else if level == 2 {
            Verbosity::Warning
        } else if level == 3 {
            Verbosity::Info
        } else if level == 4 {
            Verbosity::Hint
        } else {
            Verbosity::Debug
        }
    }

    /// The number of the level: 0 for `Off` up to 5 for `Debug`.
    pub open spec fn number(self) -> u8 {
        match self {
            Verbosity::Off => 0,
            Verbosity::Quiet => 1,
            Verbosity::Warning => 2,
            Verbosity::Info => 3,
            Verbosity::Hint => 4,
            Verbosity::Debug => 5,
        }
    }

    /// The three names of the level: its name, a second name, its number.
    pub open spec fn names(self) -> Seq<Seq<char>> {
        match self {
            Verbosity::Off => seq!["none"@, "null"@, "0"@],
            Verbosity::Quiet => seq!["quiet"@, "silent"@, "1"@],
            Verbosity::Warning => seq!["warning"@, "warn"@, "2"@],
            Verbosity::Info => seq!["info"@, "extra"@, "3"@],
            Verbosity::Hint => seq!["hint"@, "tip"@, "4"@],
            Verbosity::Debug => seq!["debug"@, "dbg"@, "5"@],
        }
    }

    /// Every spelling of every name of the level, each once, in the order of
    /// the names.
    pub open spec fn alias_texts(self) -> Seq<Seq<char>> {
        without_repeats(
            without_repeats(spellings(self.names()[0])) + without_repeats(
                spellings(self.names()[1]),
            ) + without_repeats(spellings(self.names()[2])),
        )
    }

    /// The number of the level.
    pub fn level(&self) -> (n: u8)
        ensures
            n == self.number(),
    {
        match self {
            Verbosity::Off => 0,
            Verbosity::Quiet => 1,
            Verbosity::Warning => 2,
            Verbosity::Info => 3,
            Verbosity::Hint => 4,
            Verbosity::Debug => 5,
        }
    }

    /// The three names of the level.
    pub fn variant_names(&self) -> (names: [&'static str; 3])
        ensures
            names@.len() == 3,
            names@[0]@ == self.names()[0],
            names@[1]@ == self.names()[1],
            names@[2]@ == self.names()[2],
    {
        match self {
            Verbosity::Off => ["none", "null", "0"],
            Verbosity::Quiet => ["quiet", "silent", "1"],
            Verbosity::Warning => ["warning", "warn", "2"],
            Verbosity::Info => ["info", "extra", "3"],
            Verbosity::Hint => ["hint", "tip", "4"],
            Verbosity::Debug => ["debug", "dbg", "5"],
        }
    }

    /// The first name of the level, in small letters.
    pub fn to_text(&self) -> (name: String)
        ensures
            name@ == self.names()[0],
    {
        let names = self.variant_names();
        String::from_str(names[0])
    }

    /// Every spelling under which the level is accepted.
    pub fn aliases(&self) -> (aliases: Vec<String>)
        ensures
            texts(aliases@) == self.alias_texts(),
    {
        let names = self.variant_names();
        let mut aliases: Vec<String> = Vec::new();
        assert(texts(aliases@) =~= Seq::empty());
        let first = heck_aliases(names[0]);
        push_all_new(&mut aliases, &first);
        let second = heck_aliases(names[1]);
        push_all_new(&mut aliases, &second);
        let third = heck_aliases(names[2]);
        push_all_new(&mut aliases, &third);
        proof {
            let a = texts(first@);
            let b = texts(second@);
            let c = texts(third@);
            lemma_merged_in_turn(Seq::empty(), a, b);
            lemma_merged_in_turn(Seq::empty(), a + b, c);
        }
        aliases
    }

    /// The six levels, in rising order.
    pub fn variants<'a>() -> (all: &'a [Verbosity])
        ensures
            all@ == Verbosity::all(),
    {
        &[
            Verbosity::Off,
            Verbosity::Quiet,
            Verbosity::Warning,
            Verbosity::Info,
            Verbosity::Hint,
            Verbosity::Debug,
        ]
    }

    /// What a value is compared with: the value without the whitespace at its
    /// ends, in lowercase where case is ignored.
    pub open spec fn wanted(val: Seq<char>, ignore_case: bool) -> Seq<char> {
        if ignore_case {
            unicode_lowercased(stripped(val, whitespace()))
        } else {
            stripped(val, whitespace())
        }
    }

    /// Whether one of the level's spellings, in lowercase where case is
    /// ignored, is the wanted text.
    pub open spec fn answers(self, wanted: Seq<char>, ignore_case: bool) -> bool {
        exists|i: int|
            0 <= i < self.alias_texts().len() && wanted == if ignore_case {
                unicode_lowercased(#[trigger] self.alias_texts()[i])
            } else {
                self.alias_texts()[i]
            }
    }

    /// Whether one of the level's spellings, in lowercase where case is
    /// ignored, is the wanted text.
    pub fn answers_to(&self, wanted: &str, ignore_case: bool) -> (found: bool)
        ensures
            found == self.answers(wanted@, ignore_case),
    {
        let aliases = self.aliases();
        let mut i: usize = 0;
        while i < aliases.len()
            invariant
                i <= aliases.len(),
                texts(aliases@) == self.alias_texts(),
                forall|j: int|
                    0 <= j < i ==> wanted@ != if ignore_case {
                        unicode_lowercased(#[trigger] self.alias_texts()[j])
                    } else {
                        self.alias_texts()[j]
                    },
            decreases aliases.len() - i,
        {
            assert(texts(aliases@)[i as int] == aliases@[i as int]@);
            let same = if ignore_case {
                let folded = to_lowercase(aliases[i].as_str());
                *folded.as_str() == *wanted
            } else {
                *aliases[i].as_str() == *wanted
            };
            if same {
                return true;
            }
            i += 1;
        }
        false
    }

    /// Reads a level from one of its spellings. Whitespace round the value
    /// does not count. The answer is the lowest level that has the spelling;
    /// a value that no level has comes back as the error, as it was compared.
    pub fn from_str(val: &str, ignore_case: bool) -> (r: Result<Verbosity, String>)
        ensures
            match r {
                Ok(v) => v.answers(Verbosity::wanted(val@, ignore_case), ignore_case) && forall|
                    u: Verbosity,
                |
                    u.number() < v.number() ==> !u.answers(
                        Verbosity::wanted(val@, ignore_case),
                        ignore_case,
                    ),
                Err(e) => e@ == Verbosity::wanted(val@, ignore_case) && forall|u: Verbosity|
                    !u.answers(Verbosity::wanted(val@, ignore_case), ignore_case),
            },
    {
        let chars = to_chars(val);
        let trimmed = from_chars(&trim_whitespace(&chars));
        let wanted = if ignore_case {
            to_lowercase(trimmed.as_str())
        } else {
            trimmed
        };
        let all = Verbosity::variants();
        let mut i: usize = 0;
        while i < 6
            invariant
                i <= 6,
                all@ == Verbosity::all(),
                wanted@ == Verbosity::wanted(val@, ignore_case),
                forall|u: Verbosity| u.number() < i ==> !u.answers(wanted@, ignore_case),
            decreases 6 - i,
        {
            let variant = all[i];
            assert(variant.number() == i);
            if variant.answers_to(wanted.as_str(), ignore_case) {
                return Ok(variant);
            }
            assert forall|u: Verbosity| u.number() < i + 1 implies !u.answers(
                wanted@,
                ignore_case,
            ) by {
                if u.number() == i {
                    assert(u == variant);
                }
            }
            i += 1;
        }
        Err(wanted)
    }

    /// The six levels, in rising order.
    pub open spec fn all() -> Seq<Verbosity> {
        seq![
            Verbosity::Off,
            Verbosity::Quiet,
            Verbosity::Warning,
            Verbosity::Info,
            Verbosity::Hint,
            Verbosity::Debug,
        ]
    }
}

} // verus!
