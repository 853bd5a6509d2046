//! The key under which the injector caches a singleton.

use vstd::prelude::*;

verus! {

/// Identifies a type for the injector; the caller assigns one per Rust type.
pub type TypeKey = u64;

/// What a [`Binding`] denotes: a type key and, for a named binding, its name.
pub type BindingKey = (TypeKey, Option<Seq<char>>);

/// The key of a singleton: a type, optionally qualified by a name.
/// Named and unnamed bindings of one type are distinct keys.
pub enum Binding {
    Unnamed(TypeKey),
    Named(TypeKey, String),
}

impl View for Binding {
    type V = BindingKey;

    open spec fn view(&self) -> BindingKey {
        match self {
            Binding::Unnamed(t) => (*t, None),
            Binding::Named(t, n) => (*t, Some(n@)),
        }
    }
}

impl Clone for Binding {
    fn clone(&self) -> (r: Self)
        ensures
            r@ == self@,
    {
        match self {
            Binding::Unnamed(t) => Binding::Unnamed(*t),
            Binding::Named(t, n) => Binding::Named(*t, n.clone()),
        }
    }
}

impl Binding {
    /// The type this binding is keyed by.
    pub fn type_key(&self) -> (r: TypeKey)
        ensures
            r == self@.0,
    {
        match self {
            Binding::Unnamed(t) => *t,
            Binding::Named(t, _) => *t,
        }
    }

    /// The same binding with its type replaced; a name is kept.
    pub fn redirected(&self, to: TypeKey) -> (r: Binding)
        ensures
            r@ == (to, self@.1),
    {
        match self {
            Binding::Unnamed(_) => Binding::Unnamed(to),
            Binding::Named(_, n) => Binding::Named(to, n.clone()),
        }
    }

    /// Whether two bindings denote the same key.
    pub fn same(&self, other: &Binding) -> (r: bool)
        ensures
            r == (self@ == other@),
    {
        match (self, other) {
            (Binding::Unnamed(a), Binding::Unnamed(b)) => *a == *b,
            (Binding::Named(a, n), Binding::Named(b, m)) => *a == *b && *n == *m,
            _ => false,
        }
    }
}

} // verus!
