//! What to print when the waiting for one target ends.

use crate::text::{append_seconds, seconds_text};
use vstd::prelude::*;
use vstd::string::*;

verus! {

/// The lines to print when the waiting for one target ends: `success` where
/// the target was reached, `error` where it was not. `None` prints nothing.
#[derive(Debug, PartialEq)]
pub struct Callback {
    pub success: Option<String>,
    pub error: Option<String>,
}

/// The line that reports a target reached after `millis` milliseconds.
pub open spec fn success_line(address: Seq<char>, millis: nat) -> Seq<char> {
    "Successfully connected to '"@ + address + "' in "@ + seconds_text(millis) + " seconds"@
}

/// The line that reports a target given up after `millis` milliseconds.
pub open spec fn failure_line(address: Seq<char>, millis: nat) -> Seq<char> {
    "Failed to connect to '"@ + address + "' in "@ + seconds_text(millis) + " seconds"@
}

/// Prints nothing, whatever the end.
pub fn silent() -> (r: Callback)
    ensures
        r.success is None,
        r.error is None,
{
    Callback { success: None, error: None }
}

/// Reports the end in one line, which names the address and the seconds that
/// have passed.
pub fn simple(address: String, millis: u64) -> (r: Callback)
    ensures
        r.success is Some && r.success->0@ == success_line(address@, millis as nat),
        r.error is Some && r.error->0@ == failure_line(address@, millis as nat),
{
    let mut success: String = String::from_str("Successfully connected to '");
    success.append(address.as_str());
    success.append("' in ");
    append_seconds(&mut success, millis);
    success.append(" seconds");
    let mut error: String = String::from_str("Failed to connect to '");
    error.append(address.as_str());
    error.append("' in ");
    append_seconds(&mut error, millis);
    error.append(" seconds");
    Callback { success: Some(success), error: Some(error) }
}

} // verus!
