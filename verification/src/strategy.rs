//! Strategies that decide, command by command, where a forward scan of the
//! command cache stops.

use crate::outside::{command_name, command_name_of};
use koicore::command::Command;
use vstd::prelude::*;

verus! {

/// Decides, for each command that a scan meets, whether the scan stops there.
///
/// The scan offers the commands in increasing position, each with its position
/// in the command cache; a strategy may keep state from one command to the next.
pub trait ScanStrategy {
    /// Whether the scan stops at `cmd`, which stands at position `pos`.
    fn matches(&mut self, cmd: &Command, pos: usize) -> bool;
}

/// The nesting depth after one step: an increment that stops at the largest
/// `i64`, a decrement that stops at the smallest.
pub open spec fn depth_after(depth: int, name: Seq<char>, start: Seq<char>, end: Seq<char>) -> int {
    if name == start {
        if depth < i64::MAX { depth + 1 } else { depth }
    } else if name == end {
        if depth > i64::MIN { depth - 1 } else { depth }
    } else {
        depth
    }
}

/// Whether the matching scan stops at a command named `name` met at nesting
/// `depth`: at the end marker that closes the outermost level, or at the
/// alternative marker on the outermost level.
pub open spec fn stops_at(
    depth: int,
    name: Seq<char>,
    start: Seq<char>,
    end: Seq<char>,
    alternative: Option<Seq<char>>,
) -> bool {
    if name == start {
        false
    } else if name == end {
        depth_after(depth, name, start, end) == 0
    } else {
        depth == 1 && alternative == Some(name)
    }
}

/// The first index `i` in `from..names.len()` at which the matching scan,
/// entered with nesting `depth`, stops, with the depth after that command;
/// `None` with the depth after the last command when it stops nowhere.
pub open spec fn matching_scan(
    names: Seq<Seq<char>>,
    from: int,
    depth: int,
    start: Seq<char>,
    end: Seq<char>,
    alternative: Option<Seq<char>>,
) -> (Option<int>, int)
    decreases names.len() - from,
{
    if from < 0 || from >= names.len() {
        (None, depth)
    } else {
        let d = depth_after(depth, names[from], start, end);
        if stops_at(depth, names[from], start, end, alternative) {
            (Some(from), d)
        } else {
            matching_scan(names, from + 1, d, start, end, alternative)
        }
    }
}

/// The strategy of `Runtime::jump_to_matching`: it tracks how deeply nested
/// the scan is in `start` ... `end` blocks, and stops at the `end` that closes
/// the level it began on, or at `alternative` on that level.
pub struct MatchingStrategy {
    /// The name of the command that opens a block.
    pub start: String,
    /// The name of the command that closes a block.
    pub end: String,
    /// The name of a command that also ends the scan on the outermost level.
    pub alternative: Option<String>,
    /// The current nesting depth (1 on the level where the scan began).
    pub depth: i64,
}

/// The alternative marker as a sequence of characters.
pub open spec fn alternative_view(alternative: Option<String>) -> Option<Seq<char>> {
    match alternative {
        Some(a) => Some(a@),
        None => None,
    }
}

impl MatchingStrategy {
    /// A strategy on the level where the scan begins (depth 1).
    pub fn new(start: &str, end: &str, alternative: Option<&str>) -> (s: MatchingStrategy)
        ensures
            s.start@ == start@,
            s.end@ == end@,
            alternative_view(s.alternative) == (match alternative {
                Some(a) => Some(a@),
                None => None::<Seq<char>>,
            }),
            s.depth == 1,
    {
        let alt = match alternative {
            Some(a) => Some(a.to_owned()),
            None => None,
        };
        MatchingStrategy { start: start.to_owned(), end: end.to_owned(), alternative: alt, depth: 1 }
    }

    /// Steps over a command named `name`: updates the depth and says whether
    /// the scan stops there.
    pub fn step(&mut self, name: &String) -> (stop: bool)
        ensures
            final(self).start == old(self).start,
            final(self).end == old(self).end,
            final(self).alternative == old(self).alternative,
            final(self).depth == depth_after(old(self).depth as int, name@, old(self).start@, old(self).end@),
            stop == stops_at(
                old(self).depth as int,
                name@,
                old(self).start@,
                old(self).end@,
                alternative_view(old(self).alternative),
            ),
    {
        if *name == self.start {
            if self.depth < i64::MAX {
                self.depth = self.depth + 1;
            }
            false
        } else if *name == self.end {
            if self.depth > i64::MIN {
                self.depth = self.depth - 1;
            }
            self.depth == 0
        } else if self.depth == 1 {
            match &self.alternative {
                Some(alt) => *name == *alt,
                None => false,
            }
        } else {
            false
        }
    }
}

impl ScanStrategy for MatchingStrategy {
    fn matches(&mut self, cmd: &Command, pos: usize) -> (stop: bool)
        ensures
            final(self).start == old(self).start,
            final(self).end == old(self).end,
            final(self).alternative == old(self).alternative,
            final(self).depth == depth_after(
                old(self).depth as int,
                command_name_of(*cmd),
                old(self).start@,
                old(self).end@,
            ),
            stop == stops_at(
                old(self).depth as int,
                command_name_of(*cmd),
                old(self).start@,
                old(self).end@,
                alternative_view(old(self).alternative),
            ),
    {
        let name = command_name(cmd);
        self.step(&name)
    }
}

} // verus!
