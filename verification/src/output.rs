//! The output writer's one decision: whether to append a newline.

use vstd::prelude::*;

verus! {

/// Whether the printed result should end in a newline: only when the
/// destination is an interactive terminal and the caller did not ask
/// for the newline to be suppressed.
pub fn wants_newline(stdout_is_terminal: bool, omit_newline: bool) -> (r: bool)
    ensures
        r == (stdout_is_terminal && !omit_newline),
{
    stdout_is_terminal && !omit_newline
}

} // verus!
