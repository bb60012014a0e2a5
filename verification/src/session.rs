//! The interactive loop's decision: after each query the user is asked
//! whether to continue, and any answer case-insensitively equal to "yes"
//! keeps the loop going; everything else ends it.

use vstd::prelude::*;
use vstd::string::StrSliceExecFns;

verus! {

/// The two states of the interactive loop.
#[derive(Clone, Copy, Debug, PartialEq, Eq, Structural)]
pub enum LoopState {
    Prompting,
    Terminated,
}

/// Whether a character equals a lower-case ASCII letter up to ASCII case.
pub open spec fn eq_ignore_ascii_case(c: char, lower: char) -> bool {
    c == lower || c as int == lower as int - 32
}

/// The continuation answer that keeps the loop going: "yes", compared
/// case-insensitively.
pub open spec fn is_yes(s: Seq<char>) -> bool {
    &&& s.len() == 3
    &&& eq_ignore_ascii_case(s[0], 'y')
    &&& eq_ignore_ascii_case(s[1], 'e')
    &&& eq_ignore_ascii_case(s[2], 's')
}

/// The state the loop moves to after the continuation prompt is answered.
pub fn next_state(answer: &str) -> (s: LoopState)
    ensures
        s == LoopState::Prompting <==> is_yes(answer@),
        s == LoopState::Terminated <==> !is_yes(answer@),
{
    if answer.unicode_len() != 3 {
        return LoopState::Terminated;
    }
    let c0 = answer.get_char(0);
    let c1 = answer.get_char(1);
    let c2 = answer.get_char(2);
    if (c0 == 'y' || c0 == 'Y') && (c1 == 'e' || c1 == 'E') && (c2 == 's' || c2 == 'S') {
        LoopState::Prompting
    } else {
        LoopState::Terminated
    }
}

} // verus!
