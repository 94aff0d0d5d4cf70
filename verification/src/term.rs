//! The lines that report the steps of a run.

use vstd::prelude::*;
use vstd::string::{StringExecFns, StringSliceAdditionalSpecFns};
use vstd::utf8::encode_utf8;

verus! {

/// The width of the column in which the action of a step is shown.
pub const ACTION_WIDTH: usize = 12;

/// `count` spaces.
pub open spec fn spaces(count: nat) -> Seq<char> {
    Seq::new(count, |i: int| ' ')
}

/// The line for a step: the action, moved to the right end of its column,
/// a space, and the description.
pub open spec fn step_line_of(action: Seq<char>, description: Seq<char>) -> Seq<char> {
    spaces((ACTION_WIDTH - encode_utf8(action).len()) as nat) + action + seq![' '] + description
}

/// The line for a step, for an action that fits its column.
pub fn step_line(action: &str, description: &str) -> (line: String)
    requires
        encode_utf8(action@).len() <= ACTION_WIDTH,
    ensures
        line@ == step_line_of(action@, description@),
{
    let width = action.as_bytes().len();
    let mut line = String::new();
    let mut i: usize = 0;
    proof {
        reveal_strlit(" ");
        assert(" "@ =~= seq![' ']);
        assert(line@ =~= spaces(0));
    }
    while i < ACTION_WIDTH - width
        invariant
            width <= ACTION_WIDTH,
            i <= ACTION_WIDTH - width,
            line@ == spaces(i as nat),
            " "@ == seq![' '],
        decreases ACTION_WIDTH - width - i,
    {
        line.append(" ");
        i = i + 1;
        assert(line@ =~= spaces(i as nat));
    }
    line.append(action);
    line.append(" ");
    line.append(description);
    line
}

} // verus!
