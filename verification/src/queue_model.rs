//! The unbounded queue of the `futures` crate, as this crate uses it: made
//! here, filled here, and emptied by its consumer. What a queue holds at any
//! moment depends on its consumer, so the items below promise nothing about
//! it.

use futures::sync::mpsc::{unbounded, UnboundedReceiver, UnboundedSender};
use vstd::prelude::*;

verus! {

/// `futures::sync::mpsc::UnboundedSender`: the sending side of a queue,
/// carried through as it is.
#[verifier::external_type_specification]
#[verifier::external_body]
#[verifier::reject_recursive_types(T)]
pub struct ExUnboundedSender<T>(UnboundedSender<T>);

/// `futures::sync::mpsc::UnboundedReceiver`: the receiving side of a queue,
/// carried through as it is.
#[verifier::external_type_specification]
#[verifier::external_body]
#[verifier::reject_recursive_types(T)]
pub struct ExUnboundedReceiver<T>(UnboundedReceiver<T>);

/// `futures::sync::mpsc::unbounded`: a new queue without a bound, as its
/// sending and its receiving side.
#[verifier::external_body]
pub(crate) fn queue_new<T>() -> (r: (UnboundedSender<T>, UnboundedReceiver<T>)) {
    unbounded()
}

/// `UnboundedSender::unbounded_send`: puts an item into the queue. The
/// result says whether the queue took it; it does not once the receiving
/// side is gone, which nothing here can know beforehand, so nothing is
/// promised of the result. (The outside function gives up where the queue
/// already holds `usize::MAX >> 1` items; memory runs out before.)
#[verifier::external_body]
pub(crate) fn queue_send<T>(sender: &UnboundedSender<T>, item: T) -> (delivered: bool) {
    sender.unbounded_send(item).is_ok()
}

} // verus!
