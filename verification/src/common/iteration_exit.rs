//! How one round of a connection's loop ends.

use vstd::prelude::*;

verus! {

/// What the loop of a connection does after a step.
#[derive(Clone, Copy, Debug, PartialEq, Eq, Structural)]
pub enum IterationExit {
    /// Wait until the transport is ready again.
    NotReady,
    /// Leave the loop: the connection is done.
    ExitEarly,
    /// Go on with the next step.
    Continue,
}

} // verus!
