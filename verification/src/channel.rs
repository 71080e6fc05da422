//! The two ends of `crossbeam_channel` queues that the engine holds.
//!
//! The far ends live on other threads, so what a receive returns and
//! whether a send is delivered depend on what those threads did: the
//! contracts here promise nothing about either.

use crossbeam_channel::{Receiver, Sender};
use vstd::prelude::*;

verus! {

#[verifier::external_type_specification]
#[verifier::external_body]
#[verifier::reject_recursive_types(T)]
pub struct ExSender<T>(Sender<T>);

#[verifier::external_type_specification]
#[verifier::external_body]
#[verifier::reject_recursive_types(T)]
pub struct ExReceiver<T>(Receiver<T>);

/// `crossbeam_channel::Receiver::try_recv`: takes the next message if one is
/// waiting, without blocking. An empty and a disconnected channel both give
/// `None`.
#[verifier::external_body]
pub(crate) fn try_recv<T>(rx: &Receiver<T>) -> Option<T> {
    rx.try_recv().ok()
}

/// `crossbeam_channel::Sender::try_send`: hands `message` to the channel
/// without blocking. Returns whether the channel took it; it does not when
/// it is full or disconnected.
#[verifier::external_body]
pub(crate) fn try_send<T>(tx: &Sender<T>, message: T) -> bool {
    tx.try_send(message).is_ok()
}

} // verus!
