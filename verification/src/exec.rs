use vstd::prelude::*;

use crate::text::{concat2, concat3};

verus! {

/// The line for a command that is neither a builtin nor found on `$PATH`.
pub fn command_not_found(command: &str) -> (r: String)
    ensures
        r@ == command@ + ": command not found"@,
{
    concat2(command, ": command not found")
}

/// The line for a command that could not be started.
pub fn command_failed(command: &str, err: &str) -> (r: String)
    ensures
        r@ == command@ + ": "@ + err@,
{
    concat3(command, ": ", err)
}

} // verus!
