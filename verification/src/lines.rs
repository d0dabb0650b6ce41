//! The bounded list of lines that a consumer of the events keeps.

use vstd::prelude::*;

verus! {

/// How many lines are kept.
pub const MAX_LINES: usize = 100;

/// The list after `line` was offered to it: the line goes to the end while
/// there is room, and is dropped once `cap` lines are held; a list that
/// holds more than `cap` is cut back to its first `cap` lines.
pub open spec fn pushed<T>(lines: Seq<T>, line: T, cap: int) -> Seq<T> {
    if lines.len() < cap {
        lines.push(line)
    } else {
        lines.take(cap)
    }
}

/// Offers a line to a list that keeps at most `cap` lines.
pub fn push_capped<T>(lines: &mut Vec<T>, line: T, cap: usize)
    ensures
        final(lines)@ == pushed(old(lines)@, line, cap as int),
        final(lines)@.len() <= cap,
{
    let ghost before = lines@;
    lines.push(line);
    while lines.len() > cap
        invariant
            cap <= lines@.len() || lines@.len() == before.len() + 1,
            lines@.len() <= before.len() + 1,
            lines@ == before.push(line).take(lines@.len() as int),
        decreases lines@.len(),
    {
        lines.pop();
        assert(lines@ =~= before.push(line).take(lines@.len() as int));
    }
    assert(lines@ =~= pushed(before, line, cap as int));
}

} // verus!
