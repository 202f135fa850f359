//! U up? -- a remote-host availability checker.
//!
//! The crate holds the verified core of the checker: the probe result
//! payload with its two renderings, the ping backend's sequence counter
//! and result construction, the run-loop scheduler state machine with
//! its aggregation policy, and the dotted-quad address recognizer.
//! Network and terminal I/O live outside, in the surrounding program.
use vstd::prelude::*;

pub mod context;
pub mod ipv4;
pub mod ping;
pub mod scheduler;

verus! {

/// Name of the probe backend selected when none is given on the
/// command line.
pub fn get_type_default() -> (r: &'static str)
    ensures
        r@ == "ping"@,
{
    "ping"
}

} // verus!
