//! The order in which paths are visited: a path first, then what it holds,
//! then the path that was given after it.

use vstd::prelude::*;
use vstd::string::StringExecFns;
use crate::cli::filenames::Action;
use crate::cli::ignore::PathInfo;
use crate::cli::verbosity::Verbosity;

verus! {

/// The paths that are still to be visited, each with its depth below the
/// paths that were given.
pub struct Walk {
    /// The path to visit next is the last one.
    stack: Vec<(String, usize)>,
}

/// The paths, each with the given depth.
pub open spec fn at_depth(paths: Seq<String>, depth: usize) -> Seq<(Seq<char>, usize)> {
    Seq::new(paths.len(), |i: int| (paths[i]@, depth))
}

impl Walk {
    /// The paths that are still to be visited, the next one first.
    pub closed spec fn pending(self) -> Seq<(Seq<char>, usize)> {
        Seq::new(
            self.stack@.len(),
            |i: int| (self.stack@[self.stack@.len() - 1 - i].0@, self.stack@[self.stack@.len() - 1 - i].1),
        )
    }

    /// A walk with nothing to visit.
    pub fn new() -> (walk: Walk)
        ensures
            walk.pending() == Seq::<(Seq<char>, usize)>::empty(),
    {
        let walk = Walk { stack: Vec::new() };
        assert(walk.pending() =~= Seq::empty());
        walk
    }

    /// Puts paths in front of those that are still to be visited, in the
    /// order in which they are given, all at one depth.
    pub fn visit_first(&mut self, paths: Vec<String>, depth: usize)
        ensures
            final(self).pending() == at_depth(paths@, depth) + old(self).pending(),
    {
        let mut paths = paths;
        let ghost all = paths@;
        let ghost before = self.pending();
        assert(at_depth(all.skip(all.len() as int), depth) + before =~= before);
        while paths.len() > 0
            invariant
                paths@ == all.take(paths@.len() as int),
                paths@.len() <= all.len(),
                self.pending() == at_depth(all.skip(paths@.len() as int), depth) + before,
            decreases paths.len(),
        {
            let ghost rest = self.pending();
            let ghost n = paths@.len() as int;
            let path = paths.pop().unwrap();
            self.stack.push((path, depth));
            assert(path@ == all[n - 1]@);
            assert(self.pending() =~= seq![(path@, depth)] + rest);
            assert(seq![(path@, depth)] + at_depth(all.skip(n), depth) =~= at_depth(
                all.skip(n - 1),
                depth,
            ));
            assert(paths@ =~= all.take(n - 1));
        }
        assert(all.skip(0) =~= all);
    }

    /// Takes the path to visit next, with its depth.
    pub fn next(&mut self) -> (r: Option<(String, usize)>)
        ensures
            match r {
                Some(entry) => old(self).pending().len() > 0 && (entry.0@, entry.1) == old(
                    self,
                ).pending()[0] && final(self).pending() == old(self).pending().drop_first(),
                None => old(self).pending().len() == 0 && final(self).pending() == old(
                    self,
                ).pending(),
            },
    {
        let ghost before = self.pending();
        let r = self.stack.pop();
        if r.is_some() {
            assert(self.pending() =~= before.drop_first());
        }
        r
    }
}

/// The line that reports a renaming that was done.
pub open spec fn renamed_line(from: Seq<char>, to: Seq<char>) -> Seq<char> {
    from + " -> "@ + to
}

/// The line that reports a renaming that would be done.
pub open spec fn preview_line(from: Seq<char>, to: Seq<char>) -> Seq<char> {
    "would rename "@ + from + " to "@ + to
}

/// The line that reports that a path keeps its name.
pub open spec fn unchanged_line(path: Seq<char>) -> Seq<char> {
    "unchanged: '"@ + path + "'"@
}

/// The line that reports that a path is passed over.
pub open spec fn ignored_line(path: Seq<char>) -> Seq<char> {
    "ignored: '"@ + path + "'"@
}

/// What is reported for an action on a path, and at which level: a renaming
/// and a preview at `Info`, a path that is kept or ignored at `Hint`.
/// Nothing is reported for a directory that is entered as it is, nor for a
/// failure, which is handed on.
pub open spec fn report_of(path: Seq<char>, action: Action) -> Option<(Seq<char>, Verbosity)> {
    match action {
        Action::Ignore => Some((ignored_line(path), Verbosity::Hint)),
        Action::Keep => Some((unchanged_line(path), Verbosity::Hint)),
        Action::Preview { to } => Some((preview_line(path, to@), Verbosity::Info)),
        Action::Rename { to } => Some((renamed_line(path, to@), Verbosity::Info)),
        Action::Enter { to } => None,
        Action::Fail(_) => None,
    }
}

/// The line to report for an action on a path, once it is done, and the
/// level from which it is shown.
pub fn report(path: &PathInfo, action: &Action) -> (r: Option<(String, Verbosity)>)
    ensures
        match r {
            Some(line) => report_of(path.path@, *action) == Some((line.0@, line.1)),
            None => report_of(path.path@, *action) is None,
        },
{
    match action {
        Action::Ignore => {
            let mut line = String::from_str("ignored: '");
            line.append(path.path.as_str());
            line.append("'");
            Some((line, Verbosity::Hint))
        },
        Action::Keep => {
            let mut line = String::from_str("unchanged: '");
            line.append(path.path.as_str());
            line.append("'");
            Some((line, Verbosity::Hint))
        },
        Action::Preview { to } => {
            let mut line = String::from_str("would rename ");
            line.append(path.path.as_str());
            line.append(" to ");
            line.append(to.as_str());
            Some((line, Verbosity::Info))
        },
        Action::Rename { to } => {
            let mut line = path.path.clone();
            line.append(" -> ");
            line.append(to.as_str());
            Some((line, Verbosity::Info))
        },
        Action::Enter { to } => None,
        Action::Fail(_) => None,
    }
}

} // verus!
