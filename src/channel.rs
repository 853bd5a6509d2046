//! The tokio channels that carry requests to an actor and replies back.

use vstd::prelude::*;

use tokio::sync::mpsc::{UnboundedReceiver, UnboundedSender};
use tokio::sync::oneshot::{Receiver, Sender};

verus! {

#[verifier::external_type_specification]
#[verifier::external_body]
#[verifier::reject_recursive_types(T)]
pub struct ExOneshotSender<T>(Sender<T>);

#[verifier::external_type_specification]
#[verifier::external_body]
#[verifier::reject_recursive_types(T)]
pub struct ExOneshotReceiver<T>(Receiver<T>);

#[verifier::external_type_specification]
#[verifier::external_body]
pub struct ExRecvError(tokio::sync::oneshot::error::RecvError);

#[verifier::external_type_specification]
#[verifier::external_body]
#[verifier::reject_recursive_types(T)]
pub struct ExUnboundedSender<T>(UnboundedSender<T>);

#[verifier::external_type_specification]
#[verifier::external_body]
#[verifier::reject_recursive_types(T)]
pub struct ExUnboundedReceiver<T>(UnboundedReceiver<T>);

/// Relies on tokio's `oneshot::channel`: a new reply slot and its receiving end.
pub assume_specification<T>[ tokio::sync::oneshot::channel::<T> ]() -> (Sender<T>, Receiver<T>);

/// Relies on tokio's `oneshot::Sender::send`: when the value cannot be
/// delivered it is handed back unchanged.
pub assume_specification<T>[ Sender::<T>::send ](s: Sender<T>, t: T) -> (r: Result<(), T>)
    ensures
        r matches Err(v) ==> v == t,
;

/// Relies on tokio's `mpsc::unbounded_channel`: a new mailbox and its single consumer.
pub assume_specification<T>[ tokio::sync::mpsc::unbounded_channel::<T> ]() -> (
    UnboundedSender<T>,
    UnboundedReceiver<T>,
);

/// Relies on `Clone` for tokio's `mpsc::UnboundedSender`, which clones the
/// `Arc` of the channel: one more producer of the same mailbox.
pub assume_specification<T>[ <UnboundedSender<T> as Clone>::clone ](s: &UnboundedSender<T>) -> (r: UnboundedSender<T>)
    ensures
        r == *s,
;

/// Relies on tokio's `mpsc::UnboundedSender::send`, which never waits: when
/// the mailbox is closed the message is handed back unchanged.
#[verifier::external_body]
pub(crate) fn post<T>(mailbox: &UnboundedSender<T>, message: T) -> (r: Result<(), T>)
    ensures
        r matches Err(m) ==> m == message,
{
    mailbox.send(message).map_err(|e| e.0)
}

#[verifier::external_type_specification]
#[verifier::external_body]
#[verifier::reject_recursive_types(T)]
pub struct ExStdSender<T>(std::sync::mpsc::Sender<T>);

#[verifier::external_type_specification]
#[verifier::external_body]
#[verifier::reject_recursive_types(T)]
pub struct ExStdReceiver<T>(std::sync::mpsc::Receiver<T>);

/// Relies on `std::sync::mpsc::channel`: a new channel for a blocked caller's reply.
#[verifier::external_body]
pub(crate) fn blocking_channel<T>() -> (std::sync::mpsc::Sender<T>, std::sync::mpsc::Receiver<T>) {
    std::sync::mpsc::channel()
}

/// Relies on `std::sync::mpsc::Sender::send`, which never blocks: when the
/// receiving end is gone the value is handed back unchanged.
#[verifier::external_body]
pub(crate) fn send_blocking_reply<T>(reply: std::sync::mpsc::Sender<T>, value: T) -> (r: Result<(), T>)
    ensures
        r matches Err(v) ==> v == value,
{
    reply.send(value).map_err(|e| e.0)
}

/// Relies on `std::sync::mpsc::Receiver::recv`, turned into an `Option`:
/// it parks the thread until a value comes, and gives `None` once every
/// sending end is gone without one.
#[verifier::external_body]
pub(crate) fn receive_blocking<T>(receiver: std::sync::mpsc::Receiver<T>) -> Option<T> {
    receiver.recv().ok()
}

} // verus!
