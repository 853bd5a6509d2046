//! Actor handles and the three ways of sending a request through them:
//! await the reply, fire and forget, or block for the reply.
//!
//! A handle is a producer of the actor's mailbox. Each request travels as
//! an envelope `E` that packs the request with its reply slot; the actor's
//! runner takes envelopes off the mailbox one at a time, in order.

use vstd::prelude::*;

use core::marker::PhantomData;
use std::sync::Arc;
use tokio::sync::mpsc::{UnboundedReceiver, UnboundedSender};

use crate::channel::post;
use crate::error::{ActorError, ActorErrorView};
use crate::resolver::{AsyncResolvable, Resolver, SyncResolvable};

verus! {

/// A type whose instances are reached through a cloneable handle wrapper.
pub trait HasHandleWrapper {
    type HandleWrapper: Clone + Send + Sync + 'static;
}

/// A handle wrapper that the injector cannot build by itself; an instance
/// has to be bound before it is requested.
pub trait ManuallyInjectableInstance: Sized + Send + Sync + 'static {
    type Inner: HasHandleWrapper<HandleWrapper = Self>;
}

/// The element type of an actor's mailbox, able to carry a request of type
/// `M` together with the slot its answer goes to.
pub trait Envelope<M>: Sized {
    type Answer;

    fn pack(resolver: Resolver<M, Self::Answer>) -> Self;
}

/// Converts a message on its way into the message the actor handles.
pub trait Transform<M> {
    type Output;

    /// Whether `message` can be converted.
    spec fn accepts(&self, message: M) -> bool;

    /// Whether `output` is what `message` converts to.
    spec fn converts(&self, message: M, output: Self::Output) -> bool;

    fn apply(&self, message: M) -> (r: Self::Output)
        requires
            self.accepts(message),
        ensures
            self.converts(message, r),
    ;
}

/// Passes a message on unchanged.
pub struct Identity;

impl<M> Transform<M> for Identity {
    type Output = M;

    open spec fn accepts(&self, message: M) -> bool {
        true
    }

    open spec fn converts(&self, message: M, output: M) -> bool {
        output == message
    }

    fn apply(&self, message: M) -> (r: M) {
        message
    }
}

/// Converts messages with a function or closure.
pub struct FnTransform<F> {
    f: F,
}

impl<F> FnTransform<F> {
    /// The function applied.
    pub closed spec fn function(&self) -> F {
        self.f
    }

    pub fn new(f: F) -> (r: Self)
        ensures
            r.function() == f,
    {
        FnTransform { f }
    }
}

impl<M, N, F: Fn(M) -> N> Transform<M> for FnTransform<F> {
    type Output = N;

    open spec fn accepts(&self, message: M) -> bool {
        self.function().requires((message,))
    }

    open spec fn converts(&self, message: M, output: N) -> bool {
        self.function().ensures((message,), output)
    }

    fn apply(&self, message: M) -> (r: N) {
        (self.f)(message)
    }
}

/// What a blocked or awaiting caller gets from what its reply slot yielded:
/// the answer, or `MailboxClosed` when the slot was dropped without one.
pub fn reply_or_closed<A>(received: Option<A>) -> (r: Result<A, ActorError>)
    ensures
        match received {
            Some(a) => r matches Ok(x) && x == a,
            None => r matches Err(e) && e@ == ActorErrorView::MailboxClosed,
        },
{
    match received {
        Some(a) => Ok(a),
        None => Err(ActorError::MailboxClosed),
    }
}

/// Packs `request` into an envelope and puts it on `mailbox`; when the
/// mailbox is closed the envelope, and with it the reply slot, is dropped.
fn enqueue<M, E: Envelope<M>>(mailbox: &UnboundedSender<E>, request: Resolver<M, E::Answer>) {
    let _ = post(mailbox, E::pack(request));
}

/// A shared handle of an actor: cloneable; the mailbox closes when the last
/// handle is dropped.
#[verifier::reject_recursive_types(E)]
pub struct ComponentHandle<E> {
    sender: UnboundedSender<E>,
}

impl<E> ComponentHandle<E> {
    /// The mailbox this handle feeds.
    pub closed spec fn mailbox(&self) -> UnboundedSender<E> {
        self.sender
    }

    /// A new mailbox: its consumer, for the actor's runner, and a handle.
    pub fn create() -> (UnboundedReceiver<E>, Self) {
        let (sender, receiver) = tokio::sync::mpsc::unbounded_channel();
        (receiver, ComponentHandle { sender })
    }

    /// Puts `request` on this handle's mailbox. Each send mode below builds
    /// its request with a public constructor whose contract fixes it:
    /// [`Resolver::noop`], [`SyncResolvable::new_with_meta`] or
    /// [`AsyncResolvable::new_with_meta`], each carrying the message itself.
    pub fn enqueue<M>(&self, request: Resolver<M, <E as Envelope<M>>::Answer>)
        where
            E: Envelope<M>,
    {
        enqueue(&self.sender, request)
    }

    /// Enqueues `message` with a reply slot that discards the answer; never
    /// waits.
    pub fn dispatch_sync_nowait<M>(&self, message: M)
        where
            E: Envelope<M>,
    {
        self.enqueue(Resolver::noop(message))
    }

    /// Enqueues `message` and blocks the thread until its answer comes back,
    /// or until the request is dropped unanswered.
    pub fn dispatch_sync<M>(&self, message: M) -> (r: Result<<E as Envelope<M>>::Answer, ActorError>)
        where
            E: Envelope<M>,
        ensures
            r matches Err(e) ==> e@ == ActorErrorView::MailboxClosed,
    {
        let (waiting, request) = SyncResolvable::new_with_meta(message);
        self.enqueue(request);
        reply_or_closed(waiting.wait())
    }

    /// Enqueues `message`; an async caller awaits the returned end.
    pub fn request<M>(&self, message: M) -> AsyncResolvable<<E as Envelope<M>>::Answer>
        where
            E: Envelope<M>,
    {
        let (waiting, request) = AsyncResolvable::new_with_meta(message);
        self.enqueue(request);
        waiting
    }

    /// A sender bound to this actor's mailbox for messages of type `M`.
    pub fn make_sender<M>(&self) -> (r: MessageSender<M, E, Identity>)
        where
            E: Envelope<M>,
        ensures
            r.mailbox() == self.mailbox(),
            r.transformer() == Identity,
    {
        MessageSender::create(self.sender.clone(), Identity)
    }

    /// A sender bound to this actor's mailbox that converts each message with
    /// `transformer` before it is enqueued.
    pub fn make_transforming_sender<M, T: Transform<M>>(&self, transformer: T) -> (r:
        MessageSender<M, E, T>)
        where
            E: Envelope<T::Output>,
        ensures
            r.mailbox() == self.mailbox(),
            r.transformer() == transformer,
    {
        MessageSender::create(self.sender.clone(), transformer)
    }
}

impl<E> Clone for ComponentHandle<E> {
    fn clone(&self) -> (r: Self)
        ensures
            r.mailbox() == self.mailbox(),
    {
        ComponentHandle { sender: self.sender.clone() }
    }
}

/// A handle of an actor that is not meant to be cloned.
#[verifier::reject_recursive_types(E)]
pub struct ComponentHandleUnique<E> {
    sender: UnboundedSender<E>,
}

impl<E> ComponentHandleUnique<E> {
    /// The mailbox this handle feeds.
    pub closed spec fn mailbox(&self) -> UnboundedSender<E> {
        self.sender
    }

    /// A new mailbox: its consumer, for the actor's runner, and a handle.
    pub fn create() -> (UnboundedReceiver<E>, Self) {
        let (sender, receiver) = tokio::sync::mpsc::unbounded_channel();
        (receiver, ComponentHandleUnique { sender })
    }

    /// A unique handle of the mailbox that `handle` feeds.
    pub fn from_shared(handle: ComponentHandle<E>) -> (r: Self)
        ensures
            r.mailbox() == handle.mailbox(),
    {
        ComponentHandleUnique { sender: handle.sender }
    }

    /// Puts `request` on this handle's mailbox, as [`ComponentHandle::enqueue`] does.
    pub fn enqueue<M>(&self, request: Resolver<M, <E as Envelope<M>>::Answer>)
        where
            E: Envelope<M>,
    {
        enqueue(&self.sender, request)
    }

    /// Enqueues `message` with a reply slot that discards the answer; never
    /// waits.
    pub fn dispatch_sync_nowait<M>(&self, message: M)
        where
            E: Envelope<M>,
    {
        self.enqueue(Resolver::noop(message))
    }

    /// Enqueues `message` and blocks the thread until its answer comes back,
    /// or until the request is dropped unanswered.
    pub fn dispatch_sync<M>(&self, message: M) -> (r: Result<<E as Envelope<M>>::Answer, ActorError>)
        where
            E: Envelope<M>,
        ensures
            r matches Err(e) ==> e@ == ActorErrorView::MailboxClosed,
    {
        let (waiting, request) = SyncResolvable::new_with_meta(message);
        self.enqueue(request);
        reply_or_closed(waiting.wait())
    }

    /// Enqueues `message`; an async caller awaits the returned end.
    pub fn request<M>(&self, message: M) -> AsyncResolvable<<E as Envelope<M>>::Answer>
        where
            E: Envelope<M>,
    {
        let (waiting, request) = AsyncResolvable::new_with_meta(message);
        self.enqueue(request);
        waiting
    }

    /// A sender bound to this actor's mailbox for messages of type `M`.
    pub fn make_sender<M>(&self) -> (r: MessageSender<M, E, Identity>)
        where
            E: Envelope<M>,
        ensures
            r.mailbox() == self.mailbox(),
            r.transformer() == Identity,
    {
        MessageSender::create(self.sender.clone(), Identity)
    }

    /// A sender bound to this actor's mailbox that converts each message with
    /// `transformer` before it is enqueued.
    pub fn make_transforming_sender<M, T: Transform<M>>(&self, transformer: T) -> (r:
        MessageSender<M, E, T>)
        where
            E: Envelope<T::Output>,
        ensures
            r.mailbox() == self.mailbox(),
            r.transformer() == transformer,
    {
        MessageSender::create(self.sender.clone(), transformer)
    }
}

impl<E> From<ComponentHandle<E>> for ComponentHandleUnique<E> {
    fn from(value: ComponentHandle<E>) -> Self {
        ComponentHandleUnique::from_shared(value)
    }
}

impl<E> vstd::std_specs::convert::FromSpecImpl<ComponentHandle<E>> for ComponentHandleUnique<E> {
    open spec fn obeys_from_spec() -> bool {
        true
    }

    /// The unique handle feeds the same mailbox.
    closed spec fn from_spec(v: ComponentHandle<E>) -> Self {
        ComponentHandleUnique { sender: v.sender }
    }
}

/// A sender bound to one actor's mailbox for messages of type `M`, converted
/// by `T` on their way in.
#[verifier::reject_recursive_types(E)]
pub struct MessageSender<M, E, T> {
    sender: UnboundedSender<E>,
    transformer: Arc<T>,
    message: PhantomData<M>,
}

impl<M, E, T> MessageSender<M, E, T> {
    /// The mailbox this sender feeds.
    pub closed spec fn mailbox(&self) -> UnboundedSender<E> {
        self.sender
    }

    /// The conversion applied to each message.
    pub closed spec fn transformer(&self) -> T {
        *self.transformer
    }
}

impl<M, E, T: Transform<M>> MessageSender<M, E, T> where E: Envelope<T::Output> {
    fn create(sender: UnboundedSender<E>, transformer: T) -> (r: Self)
        ensures
            r.mailbox() == sender,
            r.transformer() == transformer,
    {
        MessageSender { sender, transformer: Arc::new(transformer), message: PhantomData }
    }

    /// The request that [`Self::dispatch_sync_nowait`] enqueues for `message`:
    /// the converted message, once, with a slot that discards the answer.
    pub fn discarding_request(&self, message: M) -> (r: Resolver<T::Output, <E as Envelope<T::Output>>::Answer>)
        requires
            self.transformer().accepts(message),
        ensures
            self.transformer().converts(message, r.meta()),
            r.is_noop(),
    {
        Resolver::noop(self.transformer.apply(message))
    }

    /// The request that [`Self::dispatch_sync`] enqueues for `message`: the
    /// converted message, once, with a slot whose answer the returned end
    /// waits for.
    pub fn blocking_request(&self, message: M) -> (r: (
        SyncResolvable<<E as Envelope<T::Output>>::Answer>,
        Resolver<T::Output, <E as Envelope<T::Output>>::Answer>,
    ))
        requires
            self.transformer().accepts(message),
        ensures
            self.transformer().converts(message, r.1.meta()),
            !r.1.is_noop(),
    {
        SyncResolvable::new_with_meta(self.transformer.apply(message))
    }

    /// The request that [`Self::request`] enqueues for `message`: the
    /// converted message, once, with a slot whose answer the returned end
    /// yields.
    pub fn awaited_request(&self, message: M) -> (r: (
        AsyncResolvable<<E as Envelope<T::Output>>::Answer>,
        Resolver<T::Output, <E as Envelope<T::Output>>::Answer>,
    ))
        requires
            self.transformer().accepts(message),
        ensures
            self.transformer().converts(message, r.1.meta()),
            !r.1.is_noop(),
    {
        AsyncResolvable::new_with_meta(self.transformer.apply(message))
    }

    /// Puts `request` on this sender's mailbox.
    pub fn enqueue(&self, request: Resolver<T::Output, <E as Envelope<T::Output>>::Answer>) {
        enqueue(&self.sender, request)
    }

    /// Enqueues [`Self::discarding_request`] for `message`; never waits.
    pub fn dispatch_sync_nowait(&self, message: M)
        requires
            self.transformer().accepts(message),
    {
        self.enqueue(self.discarding_request(message))
    }

    /// Enqueues [`Self::blocking_request`] for `message` and blocks the
    /// thread until its answer comes back, or until the request is dropped
    /// unanswered.
    pub fn dispatch_sync(&self, message: M) -> (r: Result<<E as Envelope<T::Output>>::Answer, ActorError>)
        requires
            self.transformer().accepts(message),
        ensures
            r matches Err(e) ==> e@ == ActorErrorView::MailboxClosed,
    {
        let (waiting, request) = self.blocking_request(message);
        self.enqueue(request);
        reply_or_closed(waiting.wait())
    }

    /// Enqueues [`Self::awaited_request`] for `message`; an async caller
    /// awaits the returned end.
    pub fn request(&self, message: M) -> AsyncResolvable<<E as Envelope<T::Output>>::Answer>
        requires
            self.transformer().accepts(message),
    {
        let (waiting, request) = self.awaited_request(message);
        self.enqueue(request);
        waiting
    }
}

impl<M, E, T> Clone for MessageSender<M, E, T> {
    fn clone(&self) -> (r: Self)
        ensures
            r.mailbox() == self.mailbox(),
            r.transformer() == self.transformer(),
    {
        MessageSender {
            sender: self.sender.clone(),
            transformer: self.transformer.clone(),
            message: PhantomData,
        }
    }
}

} // verus!
