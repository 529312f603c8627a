//! The program that renames paths to their slugs: its options, and what it
//! decides for each path from what is known of the path and its directory.
//! Looking at the filesystem and renaming are left to the caller.

use vstd::prelude::*;
use vstd::string::StringExecFns;
use crate::cli::aliasing::texts;
use crate::cli::ignore::{ignore_entries, ignore_list, is_ignored, matches_ignore_list, PathInfo};
use crate::cli::names::{
    extension_of, first_free, free_name, is_free, join_extension, lemma_free_name_is_free,
    sibling, split_extension, stem_of, with_extension, with_filename,
};
use crate::cli::parameters::SlugifyParameters;
use crate::cli::verbosity::Verbosity;
use crate::errors::Error;
use crate::pattern::{pattern_text, regex_accepts};
use crate::string::slug_of;

verus! {

/// The options of a run.
#[derive(Debug, Clone)]
pub struct SlugifyFilenames {
    /// The paths to rename; without any, the entries of the working
    /// directory are taken.
    pub paths: Vec<String>,
    /// How many levels below the given paths are visited at most.
    pub max_depth: Option<usize>,
    /// The options of the transform.
    pub parameters: SlugifyParameters,
    /// How many times less was asked for.
    pub quiet: u8,
    /// How many times more was asked for.
    pub verbose: u8,
    /// The level that the two counts start from.
    pub verbosity: Verbosity,
    /// Takes a name even where it is taken, and passes over the ignore list.
    pub force: bool,
    /// Reports what is compared.
    pub debug: bool,
    /// Reports what would be renamed, and renames nothing.
    pub dry_run: bool,
    /// Visits what directories hold.
    pub recursive: bool,
    /// The ignore file, where it is not `.slugifyignore`.
    pub slugify_ignore: Option<String>,
}

/// What is to be done with a path.
#[derive(Debug, Clone)]
pub enum Action {
    /// The ignore list names the path: it is left alone.
    Ignore,
    /// The path has its slug as name already, or has no slug: nothing to do.
    Keep,
    /// The path would be renamed to `to`; nothing is renamed.
    Preview { to: String },
    /// `to` is a directory that is there already and is taken as it is:
    /// nothing is renamed, and the walk goes on in it.
    Enter { to: String },
    /// The path is to be renamed to `to`.
    Rename { to: String },
    /// The path cannot be handled.
    Fail(Error),
}

/// The shape of an [`Action`]: which it is, and the path it names.
pub enum Plan {
    Ignore,
    Keep,
    Preview(Seq<char>),
    Enter(Seq<char>),
    Rename(Seq<char>),
    Fail,
}

/// The paths to work on.
#[derive(Debug)]
pub enum Selection {
    /// No path was given.
    NoPaths,
    /// Paths were given, and the ignore list names every one of them.
    AllIgnored,
    /// The paths to visit, in the order in which they were given.
    Targets(Vec<PathInfo>),
}

impl Action {
    /// Which action it is, and the path it names.
    pub open spec fn shape(self) -> Plan {
        match self {
            Action::Ignore => Plan::Ignore,
            Action::Keep => Plan::Keep,
            Action::Preview { to } => Plan::Preview(to@),
            Action::Enter { to } => Plan::Enter(to@),
            Action::Rename { to } => Plan::Rename(to@),
            Action::Fail(_) => Plan::Fail,
        }
    }
}

/// The names of the entries, in order.
pub open spec fn names_of(entries: Seq<PathInfo>) -> Seq<Seq<char>> {
    Seq::new(entries.len(), |i: int| entries[i].name@)
}

/// Whether one of the entries has the name and is a directory.
pub open spec fn holds_dir(entries: Seq<PathInfo>, name: Seq<char>) -> bool {
    exists|i: int| 0 <= i < entries.len() && (#[trigger] entries[i]).name@ == name && entries[i].is_dir
}

/// The entries that exist, in order.
pub open spec fn existing(entries: Seq<PathInfo>) -> Seq<PathInfo>
    decreases entries.len(),
{
    if entries.len() == 0 {
        Seq::empty()
    } else if entries.last().exists {
        existing(entries.drop_last()).push(entries.last())
    } else {
        existing(entries.drop_last())
    }
}

/// The entries that the ignore list does not name, in order.
pub open spec fn not_ignored(entries: Seq<PathInfo>, ignores: Seq<Seq<char>>) -> Seq<PathInfo>
    decreases entries.len(),
{
    if entries.len() == 0 {
        Seq::empty()
    } else if is_ignored(ignores, entries.last()) {
        not_ignored(entries.drop_last(), ignores)
    } else {
        not_ignored(entries.drop_last(), ignores).push(entries.last())
    }
}

/// Where the ignore list names every entry, none is left.
pub proof fn lemma_all_ignored(entries: Seq<PathInfo>, ignores: Seq<Seq<char>>)
    requires
        forall|i: int| 0 <= i < entries.len() ==> is_ignored(ignores, #[trigger] entries[i]),
    ensures
        not_ignored(entries, ignores).len() == 0,
    decreases entries.len(),
{
    if entries.len() > 0 {
        assert(is_ignored(ignores, entries[entries.len() - 1]));
        assert forall|i: int| 0 <= i < entries.drop_last().len() implies is_ignored(
            ignores,
            #[trigger] entries.drop_last()[i],
        ) by {
            assert(entries.drop_last()[i] == entries[i]);
        }
        lemma_all_ignored(entries.drop_last(), ignores);
    }
}

/// The names of the entries.
pub fn entry_names(entries: &Vec<PathInfo>) -> (names: Vec<String>)
    ensures
        texts(names@) == names_of(entries@),
{
    let mut names: Vec<String> = Vec::new();
    let mut i: usize = 0;
    while i < entries.len()
        invariant
            i <= entries.len(),
            texts(names@) == names_of(entries@).take(i as int),
        decreases entries.len() - i,
    {
        let ghost before = texts(names@);
        names.push(entries[i].name.clone());
        assert(texts(names@) =~= before.push(entries@[i as int].name@));
        i += 1;
    }
    assert(names_of(entries@).take(entries.len() as int) =~= names_of(entries@));
    names
}

/// Whether one of the entries has the name and is a directory.
pub fn has_dir(entries: &Vec<PathInfo>, name: &str) -> (found: bool)
    ensures
        found == holds_dir(entries@, name@),
{
    let mut i: usize = 0;
    while i < entries.len()
        invariant
            i <= entries.len(),
            forall|j: int|
                0 <= j < i ==> !((#[trigger] entries@[j]).name@ == name@ && entries@[j].is_dir),
        decreases entries.len() - i,
    {
        if entries[i].is_dir && *entries[i].name.as_str() == *name {
            return true;
        }
        i += 1;
    }
    false
}

impl SlugifyFilenames {
    /// Whether the two counts can be applied to the starting level: it can be
    /// lowered `quiet` times, and the result raised `verbose` times within a
    /// byte.
    pub open spec fn levels_fit(self) -> bool {
        self.quiet <= self.verbosity.number() && self.verbosity.number() - self.quiet
            + self.verbose <= u8::MAX
    }

    /// The slug of a text under the options of the run.
    pub open spec fn slug(self, text: Seq<char>) -> Seq<char> {
        slug_of(text, self.parameters.effective_separator(), !self.parameters.no_lowercase)
    }

    /// Whether the pattern for the separator of the run is accepted.
    pub open spec fn pattern_accepted(self) -> bool {
        regex_accepts(pattern_text(Some(self.parameters.effective_separator())))
    }

    /// The slug of the stem of a file's name, or of the whole name of what is
    /// no regular file.
    pub open spec fn new_stem(self, path: PathInfo) -> Seq<char> {
        if path.is_file {
            self.slug(stem_of(path.name@))
        } else {
            self.slug(path.name@)
        }
    }

    /// The slug of the extension of a file's name, where it has one.
    pub open spec fn new_extension(self, path: PathInfo) -> Option<Seq<char>> {
        if path.is_file {
            match extension_of(path.name@) {
                Some(e) => Some(self.slug(e)),
                None => None,
            }
        } else {
            None
        }
    }

    /// The name that a path is given. Its stem and its extension are
    /// slugified each by itself. With `force` that is the name; without, a
    /// number is put in after the stem where the name is taken, the first
    /// from zero that makes it free.
    pub open spec fn new_name(self, path: PathInfo, taken: Seq<Seq<char>>) -> Seq<char> {
        if self.force {
            with_extension(self.new_stem(path), self.new_extension(path))
        } else {
            free_name(self.new_stem(path), self.new_extension(path), path.name@, taken)
        }
    }

    /// What is done with a path, given the ignore list and the entries of
    /// the path's directory.
    pub open spec fn plan(self, path: PathInfo, ignores: Seq<Seq<char>>, siblings: Seq<PathInfo>) -> Plan {
        let name = self.new_name(path, names_of(siblings));
        if !self.force && is_ignored(ignores, path) {
            Plan::Ignore
        } else if !self.pattern_accepted() {
            Plan::Fail
        } else if name == path.name@ || name.len() == 0 {
            Plan::Keep
        } else if self.dry_run {
            Plan::Preview(sibling(path.path@, name))
        } else if self.force && path.is_dir && holds_dir(siblings, name) {
            Plan::Enter(sibling(path.path@, name))
        } else {
            Plan::Rename(sibling(path.path@, name))
        }
    }

    /// The paths to work on. The ignore list counts only without `force` and
    /// where it has entries.
    pub open spec fn selection(self, paths: Seq<PathInfo>, ignores: Seq<Seq<char>>) -> Option<
        Seq<PathInfo>,
    > {
        if self.force || ignores.len() == 0 {
            Some(paths)
        } else if not_ignored(paths, ignores).len() > 0 {
            Some(not_ignored(paths, ignores))
        } else {
            None
        }
    }

    /// With `dry_run` nothing is ever to be renamed.
    pub proof fn lemma_dry_run_renames_nothing(
        self,
        path: PathInfo,
        ignores: Seq<Seq<char>>,
        siblings: Seq<PathInfo>,
    )
        requires
            self.dry_run,
        ensures
            !(self.plan(path, ignores, siblings) is Rename),
    {
    }

    /// Without `force`, a path is never given a name that another entry of
    /// its directory has.
    pub proof fn lemma_new_name_is_free(self, path: PathInfo, taken: Seq<Seq<char>>)
        requires
            !self.force,
        ensures
            is_free(self.new_name(path, taken), path.name@, taken),
    {
        lemma_free_name_is_free(self.new_stem(path), self.new_extension(path), path.name@, taken);
    }

    /// Checks the options against each other. The two counts must fit the
    /// starting level, and `quiet` does not go with `dry_run`.
    pub fn validate(&self) -> (r: Result<(), Error>)
        ensures
            r is Ok <==> self.levels_fit() && !(self.quiet > 0 && self.dry_run),
            r matches Err(e) ==> e is ConfigError,
    {
        let level = self.verbosity.level();
        if self.quiet > 0 && self.dry_run {
            Err(Error::ConfigError(String::from_str("--quiet cannot be used with --dry-run")))
        } else if self.quiet > level || self.verbose > u8::MAX - (level - self.quiet) {
            Err(Error::ConfigError(String::from_str("verbosity out of range")))
        } else {
            Ok(())
        }
    }

    /// The level of the run: the starting level, lowered `quiet` times and
    /// raised `verbose` times.
    pub fn actual_verbosity(&self) -> (v: Verbosity)
        requires
            self.levels_fit(),
        ensures
            v == Verbosity::of_level(
                (self.verbosity.number() - self.quiet + self.verbose) as u8,
            ),
    {
        Verbosity::from(self.verbosity.level() - self.quiet + self.verbose)
    }

    /// Whether a message of the given level is shown.
    pub fn verbosity_matches(&self, verbosity: Verbosity) -> (shown: bool)
        requires
            self.levels_fit(),
        ensures
            shown == (verbosity.number() <= Verbosity::of_level(
                (self.verbosity.number() - self.quiet + self.verbose) as u8,
            ).number()),
    {
        verbosity.level() <= self.actual_verbosity().level()
    }

    /// The candidates that exist, in order.
    pub fn paths(&self, candidates: &Vec<PathInfo>) -> (found: Vec<PathInfo>)
        ensures
            found@ == existing(candidates@),
    {
        let mut found: Vec<PathInfo> = Vec::new();
        let mut i: usize = 0;
        assert(candidates@.take(0) =~= Seq::empty());
        while i < candidates.len()
            invariant
                i <= candidates.len(),
                found@ == existing(candidates@.take(i as int)),
            decreases candidates.len() - i,
        {
            assert(candidates@.take(i + 1).drop_last() =~= candidates@.take(i as int));
            if candidates[i].exists {
                found.push(candidates[i].clone());
            }
            i += 1;
        }
        assert(candidates@.take(candidates.len() as int) =~= candidates@);
        found
    }

    /// Whether to point out that `recursive` is off though every candidate
    /// is a directory.
    pub fn hints_recursion(&self, candidates: &Vec<PathInfo>) -> (hint: bool)
        ensures
            hint == (!self.recursive && forall|i: int|
                0 <= i < candidates@.len() ==> (#[trigger] candidates@[i]).is_dir),
    {
        if self.recursive {
            return false;
        }
        let mut i: usize = 0;
        while i < candidates.len()
            invariant
                i <= candidates.len(),
                forall|j: int| 0 <= j < i ==> (#[trigger] candidates@[j]).is_dir,
            decreases candidates.len() - i,
        {
            if !candidates[i].is_dir {
                return false;
            }
            i += 1;
        }
        true
    }

    /// The ignore file to read: the one asked for, or `.slugifyignore`.
    /// Asking for one that is not there is an error; `exists` says whether
    /// it is.
    pub fn slugify_ignore_path(&self, exists: bool) -> (r: Result<String, Error>)
        ensures
            match self.slugify_ignore {
                Some(asked) => if exists {
                    r matches Ok(path) && path@ == asked@
                } else {
                    r matches Err(e) && e is IOError && e.message_text()
                        == "the provided slugify ignore file does not exist: "@ + asked@
                },
                None => r matches Ok(path) && path@ == ".slugifyignore"@,
            },
    {
        match &self.slugify_ignore {
            Some(asked) => {
                if exists {
                    Ok(asked.clone())
                } else {
                    let mut message = String::from_str(
                        "the provided slugify ignore file does not exist: ",
                    );
                    message.append(asked.as_str());
                    Err(Error::IOError(message))
                }
            },
            None => Ok(String::from_str(".slugifyignore")),
        }
    }

    /// The entries of the ignore list, from the contents of the ignore file.
    /// Without a file there are none.
    pub fn slugify_ignore_lines(&self, contents: &Option<String>) -> (lines: Vec<String>)
        ensures
            texts(lines@) == match *contents {
                Some(c) => ignore_list(c@),
                None => Seq::empty(),
            },
    {
        match contents {
            Some(c) => ignore_entries(c.as_str()),
            None => {
                let lines: Vec<String> = Vec::new();
                assert(texts(lines@) =~= Seq::empty());
                lines
            },
        }
    }

    /// Whether the ignore list names the path.
    pub fn should_ignore(&self, lines: &Vec<String>, path: &PathInfo) -> (ignored: bool)
        ensures
            ignored == is_ignored(texts(lines@), *path),
    {
        matches_ignore_list(lines, path)
    }

    /// The name that a path is given, where `taken` holds the names in its
    /// directory. It fails only where the pattern for the separator is
    /// refused.
    pub fn unique_new_name(&self, path: &PathInfo, taken: &Vec<String>) -> (r: Result<String, Error>)
        ensures
            r is Ok <==> self.pattern_accepted(),
            r matches Ok(name) ==> name@ == self.new_name(*path, texts(taken@)),
            r matches Ok(name) ==> !self.force ==> is_free(name@, path.name@, texts(taken@)),
            r matches Err(e) ==> e is PatternCompilationError,
    {
        let (stem, extension) = if path.is_file {
            split_extension(path.name.as_str())
        } else {
            (path.name.clone(), None)
        };
        let new_stem = match self.parameters.slugify_string(stem.as_str()) {
            Ok(slug) => slug,
            Err(e) => {
                return Err(e);
            },
        };
        let new_extension = match extension {
            Some(e) => match self.parameters.slugify_string(e.as_str()) {
                Ok(slug) => Some(slug),
                Err(e) => {
                    return Err(e);
                },
            },
            None => None,
        };
        if self.force {
            Ok(join_extension(new_stem.as_str(), &new_extension))
        } else {
            Ok(first_free(new_stem.as_str(), &new_extension, path.name.as_str(), taken))
        }
    }

    /// The path that a path is renamed to: its new name, in its directory.
    pub fn unique_new_path(&self, path: &PathInfo, taken: &Vec<String>) -> (r: Result<String, Error>)
        ensures
            r is Ok <==> self.pattern_accepted(),
            r matches Ok(to) ==> to@ == sibling(path.path@, self.new_name(*path, texts(taken@))),
            r matches Err(e) ==> e is PatternCompilationError,
    {
        match self.unique_new_name(path, taken) {
            Ok(name) => Ok(with_filename(path.path.as_str(), name.as_str())),
            Err(e) => Err(e),
        }
    }

    /// Decides what is done with a path, from the ignore list and the
    /// entries of the path's directory. With `dry_run` it never asks for a
    /// renaming.
    pub fn slugify_file_path(&self, path: &PathInfo, ignores: &Vec<String>, siblings: &Vec<PathInfo>) -> (action:
        Action)
        ensures
            action.shape() == self.plan(*path, texts(ignores@), siblings@),
            action matches Action::Fail(e) ==> e is PatternCompilationError,
            self.dry_run ==> !(action is Rename),
            !self.force && is_ignored(texts(ignores@), *path) ==> action is Ignore,
    {
        if !self.force && self.should_ignore(ignores, path) {
            return Action::Ignore;
        }
        let taken = entry_names(siblings);
        let name = match self.unique_new_name(path, &taken) {
            Ok(name) => name,
            Err(e) => {
                return Action::Fail(e);
            },
        };
        if *name.as_str() == *path.name.as_str() || name.as_str().unicode_len() == 0 {
            return Action::Keep;
        }
        let to = with_filename(path.path.as_str(), name.as_str());
        if self.dry_run {
            Action::Preview { to }
        } else if self.force && path.is_dir && has_dir(siblings, name.as_str()) {
            Action::Enter { to }
        } else {
            Action::Rename { to }
        }
    }

    /// The depth of what a directory holds, where the walk goes into it: one
    /// more than the directory's own. The walk goes into directories only,
    /// only with `recursive`, and only above `max_depth`.
    pub fn descends(&self, is_dir: bool, depth: usize) -> (below: Option<usize>)
        ensures
            below == if self.recursive && is_dir && depth < usize::MAX && (match self.max_depth {
                Some(most) => depth < most,
                None => true,
            }) {
                Some((depth + 1) as usize)
            } else {
                None
            },
    {
        if !self.recursive || !is_dir || depth == usize::MAX {
            return None;
        }
        match self.max_depth {
            Some(most) => if depth < most {
                Some(depth + 1)
            } else {
                None
            },
            None => Some(depth + 1),
        }
    }

    /// Chooses the paths to work on. Without `force`, and where the ignore
    /// list has entries, the paths that it names are left out; where it names
    /// them all, nothing is to be done.
    pub fn select(&self, paths: &Vec<PathInfo>, ignores: &Vec<String>) -> (chosen: Selection)
        ensures
            match chosen {
                Selection::Targets(targets) => self.selection(paths@, texts(ignores@)) == Some(
                    targets@,
                ),
                Selection::AllIgnored => self.selection(paths@, texts(ignores@)) is None
                    && paths@.len() > 0,
                Selection::NoPaths => self.selection(paths@, texts(ignores@)) is None
                    && paths@.len() == 0,
            },
            !self.force && paths@.len() > 0 && (forall|i: int|
                0 <= i < paths@.len() ==> is_ignored(texts(ignores@), #[trigger] paths@[i]))
                ==> chosen is AllIgnored,
    {
        proof {
            if !self.force && paths@.len() > 0 && (forall|i: int|
                0 <= i < paths@.len() ==> is_ignored(texts(ignores@), #[trigger] paths@[i])) {
                lemma_all_ignored(paths@, texts(ignores@));
                assert(is_ignored(texts(ignores@), paths@[0]));
            }
        }
        let mut targets: Vec<PathInfo> = Vec::new();
        let filter = !self.force && ignores.len() > 0;
        let mut i: usize = 0;
        assert(paths@.take(0) =~= Seq::empty());
        while i < paths.len()
            invariant
                i <= paths.len(),
                filter == (!self.force && ignores@.len() > 0),
                targets@ == if filter {
                    not_ignored(paths@.take(i as int), texts(ignores@))
                } else {
                    paths@.take(i as int)
                },
            decreases paths.len() - i,
        {
            assert(paths@.take(i + 1).drop_last() =~= paths@.take(i as int));
            if !(filter && self.should_ignore(ignores, &paths[i])) {
                targets.push(paths[i].clone());
            }
            assert(!filter ==> targets@ =~= paths@.take(i + 1));
            i += 1;
        }
        assert(paths@.take(paths.len() as int) =~= paths@);
        if filter && targets.len() == 0 {
            if paths.len() > 0 {
                Selection::AllIgnored
            } else {
                Selection::NoPaths
            }
        } else {
            Selection::Targets(targets)
        }
    }
}

} // verus!
