//! Mapping a child process's termination status to the program's exit code.

use vstd::prelude::*;

verus! {

/// The exit code reported when the child terminated without an exit code
/// (for example, it was killed by a signal).
pub const EXIT_SENTINEL: i32 = -1;

/// Maps the child's termination status to the process exit code: the
/// child's own code when it has one, otherwise the fixed failure sentinel.
pub fn exit_code(status: Option<i32>) -> (r: i32)
    ensures
        status matches Some(n) ==> r == n,
        status is None ==> r == EXIT_SENTINEL,
{
    match status {
        Some(n) => n,
        None => EXIT_SENTINEL,
    }
}

} // verus!
