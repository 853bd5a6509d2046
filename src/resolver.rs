//! The one-shot reply channel between a request's sender and its handler.
//!
//! A [`Resolver`] is consumed once: [`Resolver::resolve`] delivers the answer,
//! dropping it delivers "no answer". A noop resolver discards the answer.

use vstd::prelude::*;

use tokio::sync::oneshot::Receiver;

use crate::channel::{blocking_channel, receive_blocking, send_blocking_reply};

verus! {

/// Where an answer goes: nowhere, to an async caller, or to a blocked caller.
#[verifier::reject_recursive_types(T)]
enum ReplySlot<T> {
    Discard,
    Awaited(tokio::sync::oneshot::Sender<T>),
    Blocked(std::sync::mpsc::Sender<T>),
}

impl<T> ReplySlot<T> {
    fn deliver(self, value: T) {
        match self {
            ReplySlot::Discard => {},
            ReplySlot::Awaited(reply) => {
                let _ = reply.send(value);
            },
            ReplySlot::Blocked(reply) => {
                let _ = send_blocking_reply(reply, value);
            },
        }
    }
}

/// The answering end of a request, carrying the request itself as `meta`.
#[verifier::reject_recursive_types(T)]
pub struct Resolver<M, T> {
    meta: M,
    reply: ReplySlot<T>,
}

impl<M, T> Resolver<M, T> {
    /// The request carried.
    pub closed spec fn meta(&self) -> M {
        self.meta
    }

    /// Whether the answer is discarded rather than delivered.
    pub closed spec fn is_noop(&self) -> bool {
        self.reply is Discard
    }

    /// A resolver whose answer nobody waits for.
    pub fn noop(meta: M) -> (r: Self)
        ensures
            r.meta() == meta,
            r.is_noop(),
    {
        Resolver { meta, reply: ReplySlot::Discard }
    }

    /// Whether somebody waits for the answer.
    pub fn expects_answer(&self) -> (r: bool)
        ensures
            r == !self.is_noop(),
    {
        match self.reply {
            ReplySlot::Discard => false,
            _ => true,
        }
    }

    pub fn get_meta(&self) -> (r: &M)
        ensures
            *r == self.meta(),
    {
        &self.meta
    }

    /// Delivers `value` to the waiting end, if it is still there.
    pub fn resolve(self, value: T) {
        self.reply.deliver(value)
    }

    /// Separates the request from the reply slot, which keeps its mode.
    pub fn split(self) -> (r: (ThinResolver<T>, M))
        ensures
            r.1 == self.meta(),
            r.0.is_noop() == self.is_noop(),
    {
        (ThinResolver { reply: self.reply }, self.meta)
    }
}

/// A reply slot without its request.
#[verifier::reject_recursive_types(T)]
pub struct ThinResolver<T> {
    reply: ReplySlot<T>,
}

impl<T> ThinResolver<T> {
    pub closed spec fn is_noop(&self) -> bool {
        self.reply is Discard
    }

    /// Delivers `value` to the waiting end, if it is still there.
    pub fn resolve(self, value: T) {
        self.reply.deliver(value)
    }
}

/// The waiting end of a request, for an async caller.
#[verifier::reject_recursive_types(T)]
pub struct AsyncResolvable<T> {
    receiver: Receiver<T>,
}

impl<T> AsyncResolvable<T> {
    pub fn new() -> (r: (AsyncResolvable<T>, Resolver<(), T>))
        ensures
            !r.1.is_noop(),
    {
        Self::new_with_meta(())
    }

    /// A linked pair; the resolver carries `meta`.
    pub fn new_with_meta<M>(meta: M) -> (r: (AsyncResolvable<T>, Resolver<M, T>))
        ensures
            r.1.meta() == meta,
            !r.1.is_noop(),
    {
        let (sender, receiver) = tokio::sync::oneshot::channel();
        (AsyncResolvable { receiver }, Resolver { meta, reply: ReplySlot::Awaited(sender) })
    }

    /// The receiver to await: it yields the answer, or an error when the
    /// resolver was dropped without one.
    pub fn into_receiver(self) -> Receiver<T> {
        self.receiver
    }
}

/// The waiting end of a request, for a caller that blocks its thread.
#[verifier::reject_recursive_types(T)]
pub struct SyncResolvable<T> {
    receiver: std::sync::mpsc::Receiver<T>,
}

impl<T> SyncResolvable<T> {
    pub fn new() -> (r: (SyncResolvable<T>, Resolver<(), T>))
        ensures
            !r.1.is_noop(),
    {
        Self::new_with_meta(())
    }

    /// A linked pair; the resolver carries `meta`.
    pub fn new_with_meta<M>(meta: M) -> (r: (SyncResolvable<T>, Resolver<M, T>))
        ensures
            r.1.meta() == meta,
            !r.1.is_noop(),
    {
        let (sender, receiver) = blocking_channel();
        (SyncResolvable { receiver }, Resolver { meta, reply: ReplySlot::Blocked(sender) })
    }

    /// Blocks the thread until the answer arrives; `None` when the resolver
    /// was dropped without one. On a thread that drives an async runtime it
    /// holds that thread, and the tasks waiting on it, until then.
    pub fn wait(self) -> Option<T> {
        receive_blocking(self.receiver)
    }
}

} // verus!
