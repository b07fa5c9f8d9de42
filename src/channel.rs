//! The unbounded channels that carry paths and events between the
//! producers and the actor.
use vstd::prelude::*;
use std::sync::mpsc::{Receiver, Sender, SyncSender};

verus! {

/// std's `mpsc::Sender`, carried through unopened.
#[verifier::external_type_specification]
#[verifier::external_body]
#[verifier::reject_recursive_types(T)]
pub struct ExSender<T>(Sender<T>);

/// std's `mpsc::SyncSender`, the sending end of a bounded channel, carried
/// through unopened.
#[verifier::external_type_specification]
#[verifier::external_body]
#[verifier::reject_recursive_types(T)]
pub struct ExSyncSender<T>(SyncSender<T>);

/// std's `mpsc::Receiver`, carried through unopened.
#[verifier::external_type_specification]
#[verifier::external_body]
#[verifier::reject_recursive_types(T)]
pub struct ExReceiver<T>(Receiver<T>);

/// Relies on std's `mpsc::channel`: a new unbounded channel, as its sending
/// and its receiving end.
#[verifier::external_body]
pub(crate) fn channel<T>() -> (r: (Sender<T>, Receiver<T>)) {
    std::sync::mpsc::channel()
}

/// Relies on std's `Sender::send`: true when the value was handed to the
/// channel, false when the receiving end is gone.
#[verifier::external_body]
pub(crate) fn send<T>(s: &Sender<T>, v: T) -> (r: bool) {
    s.send(v).is_ok()
}

/// Relies on std's `SyncSender::send`: waits while the channel is full; true
/// when the value was handed to the channel, false when the receiving end is
/// gone.
#[verifier::external_body]
pub(crate) fn send_bounded<T>(s: &SyncSender<T>, v: T) -> (r: bool) {
    s.send(v).is_ok()
}

} // verus!
