//! A value that arrives once, with the receivers of the callers that asked
//! for it before it arrived.

use vstd::prelude::*;

use tokio::sync::oneshot::{Receiver, Sender};

verus! {

/// The value, once set, and one reply slot per caller still waiting for it.
#[verifier::reject_recursive_types(T)]
pub struct LazyInner<T> {
    value: Option<T>,
    receivers: Vec<Sender<T>>,
}

impl<T: Clone> LazyInner<T> {
    pub closed spec fn value(&self) -> Option<T> {
        self.value
    }

    /// How many callers wait for the value.
    pub closed spec fn waiting(&self) -> nat {
        self.receivers@.len()
    }

    /// Nobody waits once the value is there.
    pub closed spec fn wf(&self) -> bool {
        self.value is Some ==> self.receivers@.len() == 0
    }

    pub fn new() -> (r: Self)
        ensures
            r.wf(),
            r.value() is None,
            r.waiting() == 0,
    {
        LazyInner { value: None, receivers: Vec::new() }
    }

    /// Hands each waiting caller a copy of `value`; none is left waiting.
    fn release(&mut self, value: &T)
        ensures
            final(self).value == old(self).value,
            final(self).receivers@.len() == 0,
    {
        while self.receivers.len() > 0
            invariant
                self.value == old(self).value,
            decreases self.receivers@.len(),
        {
            if let Some(waiter) = self.receivers.pop() {
                let _ = waiter.send(value.clone());
            }
        }
    }

    /// A receiver that yields the value: at once when it is there, else when
    /// it is set.
    pub fn get(&mut self) -> (r: Receiver<T>)
        requires
            old(self).wf(),
        ensures
            final(self).wf(),
            final(self).value() == old(self).value(),
            final(self).waiting() == if old(self).value() is Some {
                0
            } else {
                old(self).waiting() + 1
            },
    {
        let (sender, receiver) = tokio::sync::oneshot::channel();
        self.receivers.push(sender);
        let current = self.value.clone();
        if let Some(value) = current {
            self.release(&value);
        }
        receiver
    }

    /// Stores the value and hands it to every caller waiting for it.
    pub fn set(&mut self, value: T)
        ensures
            final(self).wf(),
            final(self).value() == Some(value),
            final(self).waiting() == 0,
    {
        self.release(&value);
        self.value = Some(value);
    }
}

} // verus!
