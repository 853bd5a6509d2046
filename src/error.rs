//! The errors that dispatch and resolution report.

use vstd::prelude::*;

use crate::binding::TypeKey;

verus! {

/// What a failed dispatch or resolution reports.
#[derive(Clone, Debug)]
pub enum ActorError {
    /// The actor's mailbox closed, or its handler ended, before a reply came.
    MailboxClosed,
    /// A resolution reached a key that its own chain is still building; the
    /// type names that chain is building, in the order it started them.
    CircularDependency(Vec<String>),
    /// An abstract type was requested with no implementation bound to it.
    UnknownBinding(String),
    /// The constructor or handler of the named type panicked.
    HandlerPanicked(String),
    /// Following the bindings from this type key does not end within as many
    /// steps as there are bindings: they run in a loop.
    CircularBinding(TypeKey),
}

/// The value an [`ActorError`] carries, with strings as character sequences.
pub enum ActorErrorView {
    MailboxClosed,
    CircularDependency(Seq<Seq<char>>),
    UnknownBinding(Seq<char>),
    HandlerPanicked(Seq<char>),
    CircularBinding(TypeKey),
}

impl View for ActorError {
    type V = ActorErrorView;

    open spec fn view(&self) -> ActorErrorView {
        match self {
            ActorError::MailboxClosed => ActorErrorView::MailboxClosed,
            ActorError::CircularDependency(names) => ActorErrorView::CircularDependency(
                names.deep_view(),
            ),
            ActorError::UnknownBinding(n) => ActorErrorView::UnknownBinding(n@),
            ActorError::HandlerPanicked(n) => ActorErrorView::HandlerPanicked(n@),
            ActorError::CircularBinding(t) => ActorErrorView::CircularBinding(*t),
        }
    }
}

} // verus!
