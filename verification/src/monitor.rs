//! The completion notifications that the monitor prints.

use vstd::prelude::*;
use vstd::string::*;

verus! {

/// The event name of a completion with status `status`.
pub fn event_name(status: &str) -> (r: String)
    ensures
        r@ == "codex-app.turn."@ + status@,
{
    let mut e = String::from_str("codex-app.turn.");
    e.append(status);
    e
}

} // verus!
