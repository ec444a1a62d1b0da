//! Answers to the question that is asked before a reset.

use vstd::prelude::*;
use crate::trim::{trim, trimmed};

verus! {

/// Whether the answer `line` says yes: whether it is, white space at its ends
/// aside, the single letter `y`, in either case.
pub open spec fn says_yes(line: Seq<char>) -> bool {
    trimmed(line) == seq!['y'] || trimmed(line) == seq!['Y']
}

/// Whether a line that the user typed confirms the reset.
pub fn is_affirmative(line: &str) -> (yes: bool)
    ensures
        yes == says_yes(line@),
{
    let answer = trim(line);
    if answer.unicode_len() != 1 {
        return false;
    }
    let c = answer.get_char(0);
    assert(answer@ =~= seq![c]);
    c == 'y' || c == 'Y'
}

} // verus!
