//! The credit-return handle that a client's request handler gets.

use crate::common::increase_in_window::IncreaseInWindow;
use vstd::prelude::*;

verus! {

/// The handle by which the consumer of a response hands credit back.
#[derive(Clone, Copy, Debug, PartialEq, Eq, Structural)]
pub struct ClientIncreaseInWindow(pub IncreaseInWindow);

} // verus!
