//! The injector's bookkeeping: which singletons exist, which are being built
//! by which resolution chain, and which abstract types redirect to which.
//!
//! The caller holds this state under a lock, stores one shared cell per
//! singleton in it, and drives the cells' construction outside the lock.

use vstd::prelude::*;

use std::collections::HashMap;

use crate::binding::{Binding, BindingKey, TypeKey};
use crate::error::{ActorError, ActorErrorView};
use crate::table::Table;

verus! {

broadcast use vstd::std_specs::hash::group_hash_axioms;

/// A singleton being built: its key, its type's name, and the chain building it.
pub type LoadingView = (BindingKey, Seq<char>, u64);

/// Where the type key `k` leads by following at most `fuel` bindings; `None`
/// when the bindings still go on after that many steps.
pub open spec fn alias_target(m: Map<TypeKey, TypeKey>, k: TypeKey, fuel: nat) -> Option<TypeKey>
    decreases fuel,
{
    if !m.contains_key(k) {
        Some(k)
    } else if fuel == 0 {
        None
    } else {
        alias_target(m, m[k], (fuel - 1) as nat)
    }
}

/// The type key reached from `k` after `i` steps along the bindings, or the
/// key where the bindings end, if they end sooner.
pub open spec fn walk(m: Map<TypeKey, TypeKey>, k: TypeKey, i: nat) -> TypeKey
    decreases i,
{
    if i == 0 || !m.contains_key(k) {
        k
    } else {
        walk(m, m[k], (i - 1) as nat)
    }
}

proof fn lemma_unended_walk_stays_bound(m: Map<TypeKey, TypeKey>, k: TypeKey, fuel: nat)
    requires
        alias_target(m, k, fuel) is None,
    ensures
        forall|i: nat| i <= fuel ==> m.contains_key(#[trigger] walk(m, k, i)),
    decreases fuel,
{
    if fuel > 0 {
        lemma_unended_walk_stays_bound(m, m[k], (fuel - 1) as nat);
        assert forall|i: nat| i <= fuel implies m.contains_key(#[trigger] walk(m, k, i)) by {
            if i > 0 {
                assert(walk(m, k, i) == walk(m, m[k], (i - 1) as nat));
            }
        }
    }
}

/// The type names that `chain` is building, oldest first.
pub open spec fn chain_names(s: Seq<LoadingView>, chain: u64) -> Seq<Seq<char>>
    decreases s.len(),
{
    if s.len() == 0 {
        Seq::empty()
    } else {
        let rest = chain_names(s.drop_last(), chain);
        if s.last().2 == chain {
            rest.push(s.last().1)
        } else {
            rest
        }
    }
}

/// `s` without the entry for `k`.
pub open spec fn without_key(s: Seq<LoadingView>, k: BindingKey) -> Seq<LoadingView>
    decreases s.len(),
{
    if s.len() == 0 {
        Seq::empty()
    } else {
        let rest = without_key(s.drop_last(), k);
        if s.last().0 == k {
            rest
        } else {
            rest.push(s.last())
        }
    }
}

/// Whether `chain` is building the singleton `k`.
pub open spec fn loading_in(s: Seq<LoadingView>, k: BindingKey, chain: u64) -> bool {
    exists|i: int| 0 <= i < s.len() && s[i].0 == k && s[i].2 == chain
}

/// Whether some singleton is being built by `chain`.
pub open spec fn chain_in_use(s: Seq<LoadingView>, chain: u64) -> bool {
    exists|i: int| 0 <= i < s.len() && s[i].2 == chain
}

/// No key is being built twice.
pub open spec fn distinct_keys(s: Seq<LoadingView>) -> bool {
    forall|i: int, j: int| 0 <= i < j < s.len() ==> s[i].0 != s[j].0
}

proof fn lemma_without_absent(s: Seq<LoadingView>, k: BindingKey)
    requires
        forall|i: int| 0 <= i < s.len() ==> s[i].0 != k,
    ensures
        without_key(s, k) == s,
    decreases s.len(),
{
    if s.len() > 0 {
        lemma_without_absent(s.drop_last(), k);
        assert(s.drop_last().push(s.last()) =~= s);
    }
}

proof fn lemma_without_present(s: Seq<LoadingView>, k: BindingKey, i: int)
    requires
        distinct_keys(s),
        0 <= i < s.len(),
        s[i].0 == k,
    ensures
        without_key(s, k) == s.remove(i),
    decreases s.len(),
{
    let last = s.len() - 1;
    if i == last {
        assert forall|j: int| 0 <= j < s.drop_last().len() implies s.drop_last()[j].0 != k by {
            assert(s[j].0 != s[last].0);
        }
        lemma_without_absent(s.drop_last(), k);
        assert(s.remove(i) =~= s.drop_last());
    } else {
        assert(s[i].0 != s[last].0);
        lemma_without_present(s.drop_last(), k, i);
        assert(s.remove(i) =~= s.drop_last().remove(i).push(s.last()));
    }
}

/// Every type name that `chain` is building is in its list.
pub proof fn lemma_chain_names_complete(s: Seq<LoadingView>, chain: u64, i: int)
    requires
        0 <= i < s.len(),
        s[i].2 == chain,
    ensures
        chain_names(s, chain).contains(s[i].1),
    decreases s.len(),
{
    if i == s.len() - 1 {
        assert(chain_names(s, chain).last() == s[i].1);
    } else {
        lemma_chain_names_complete(s.drop_last(), chain, i);
        let rest = chain_names(s.drop_last(), chain);
        let j = choose|j: int| 0 <= j < rest.len() && rest[j] == s[i].1;
        if s.last().2 == chain {
            assert(chain_names(s, chain)[j] == s[i].1);
        }
    }
}

/// A singleton under construction.
struct Loading {
    binding: Binding,
    label: String,
    chain: u64,
}

impl View for Loading {
    type V = LoadingView;

    closed spec fn view(&self) -> LoadingView {
        (self.binding@, self.label@, self.chain)
    }
}

/// What a resolution found for the key it was led to.
pub enum Resolution {
    /// A cell is stored under the key: await it.
    Cached(Binding),
    /// Nothing is stored under the key: build it.
    Construct(Binding),
}

pub enum ResolutionView {
    Cached(BindingKey),
    Construct(BindingKey),
}

impl View for Resolution {
    type V = ResolutionView;

    open spec fn view(&self) -> ResolutionView {
        match self {
            Resolution::Cached(b) => ResolutionView::Cached(b@),
            Resolution::Construct(b) => ResolutionView::Construct(b@),
        }
    }
}

impl<V> Default for InjectorInner<V> {
    fn default() -> (r: Self)
        ensures
            r.wf(),
            r.instances() == Map::<BindingKey, V>::empty(),
            r.loading() == Seq::<LoadingView>::empty(),
            r.bindings() == Map::<TypeKey, TypeKey>::empty(),
    {
        InjectorInner::new()
    }
}

/// The injector's state, with one shared cell of type `V` per singleton.
pub struct InjectorInner<V> {
    instances: Table<Binding, V>,
    loading: Vec<Loading>,
    mappings: HashMap<TypeKey, TypeKey>,
    next_chain: u64,
}

impl<V> InjectorInner<V> {
    /// The cell stored under each key.
    pub closed spec fn instances(&self) -> Map<BindingKey, V> {
        self.instances.view()
    }

    /// The singletons under construction, in the order they were started.
    pub closed spec fn loading(&self) -> Seq<LoadingView> {
        self.loading@.map_values(|e: Loading| e@)
    }

    /// The abstract type keys redirected to implementation keys.
    pub closed spec fn bindings(&self) -> Map<TypeKey, TypeKey> {
        self.mappings@
    }

    /// How many bindings are recorded; a chain of redirections longer than
    /// this must run in a loop.
    pub open spec fn binding_count(&self) -> nat {
        self.bindings().dom().len()
    }

    /// The chain identifier that [`Self::new_chain`] hands out next.
    pub closed spec fn next_chain_id(&self) -> u64 {
        self.next_chain
    }

    /// The table of cells is well formed, no key is being built twice, and every
    /// key being built has its cell stored.
    pub closed spec fn wf(&self) -> bool {
        &&& self.instances.wf()
        &&& distinct_keys(self.loading())
        &&& forall|i: int|
            0 <= i < self.loading().len() ==> #[trigger] self.instances().contains_key(
                self.loading()[i].0,
            )
    }

    /// The implementation key that the type key `k` resolves to.
    pub open spec fn target(&self, k: TypeKey) -> Option<TypeKey> {
        alias_target(self.bindings(), k, self.binding_count())
    }

    /// What resolving `requested` within `chain` finds.
    pub open spec fn lookup_spec(&self, requested: BindingKey, chain: u64) -> Result<
        ResolutionView,
        ActorErrorView,
    > {
        match self.target(requested.0) {
            None => Err(ActorErrorView::CircularBinding(requested.0)),
            Some(t) => {
                let k = (t, requested.1);
                if !self.instances().contains_key(k) {
                    Ok(ResolutionView::Construct(k))
                } else if loading_in(self.loading(), k, chain) {
                    Err(ActorErrorView::CircularDependency(chain_names(self.loading(), chain)))
                } else {
                    Ok(ResolutionView::Cached(k))
                }
            },
        }
    }

    /// Changing nothing but the bindings or the chain counter keeps the state well formed.
    proof fn lemma_same_entries(a: &Self, b: &Self)
        requires
            a.wf(),
            b.instances == a.instances,
            b.loading == a.loading,
        ensures
            b.wf(),
    {
        assert(b.loading() == a.loading());
        assert forall|i: int| 0 <= i < b.loading().len() implies #[trigger] b.instances().contains_key(
            b.loading()[i].0,
        ) by {
            assert(a.instances().contains_key(a.loading()[i].0));
        }
    }

    pub fn new() -> (r: Self)
        ensures
            r.wf(),
            r.instances() == Map::<BindingKey, V>::empty(),
            r.loading() == Seq::<LoadingView>::empty(),
            r.bindings() == Map::<TypeKey, TypeKey>::empty(),
            r.next_chain_id() == 0,
    {
        let r = InjectorInner {
            instances: Table::new(),
            loading: Vec::new(),
            mappings: HashMap::new(),
            next_chain: 0,
        };
        assert(r.loading() =~= Seq::<LoadingView>::empty());
        r
    }
    /// Hands out a chain identifier for a new top-level resolution; the
    /// constructions it sets off resolve under the same identifier. The
    /// counter moves on either way; `None` when the identifier it reached
    /// (after wrapping around) still belongs to a chain building something.
    pub fn new_chain(&mut self) -> (r: Option<u64>)
        requires
            old(self).wf(),
        ensures
            final(self).wf(),
            r == if chain_in_use(old(self).loading(), old(self).next_chain_id()) {
                None
            } else {
                Some(old(self).next_chain_id())
            },
            final(self).next_chain_id() == if old(self).next_chain_id() < u64::MAX {
                (old(self).next_chain_id() + 1) as u64
            } else {
                0
            },
            final(self).instances() == old(self).instances(),
            final(self).loading() == old(self).loading(),
            final(self).bindings() == old(self).bindings(),
    {
        let candidate = self.next_chain;
        let used = self.chain_used(candidate);
        self.next_chain = if candidate < u64::MAX { candidate + 1 } else { 0 };
        proof {
            Self::lemma_same_entries(&*old(self), &*self);
        }
        if used {
            None
        } else {
            Some(candidate)
        }
    }

    /// Whether `chain` is building some singleton.
    fn chain_used(&self, chain: u64) -> (r: bool)
        ensures
            r == chain_in_use(self.loading(), chain),
    {
        let mut i: usize = 0;
        while i < self.loading.len()
            invariant
                i <= self.loading@.len(),
                forall|j: int| 0 <= j < i ==> self.loading()[j].2 != chain,
            decreases self.loading@.len() - i,
        {
            if self.loading[i].chain == chain {
                assert(self.loading()[i as int].2 == chain);
                return true;
            }
            i += 1;
        }
        false
    }

    /// Redirects the abstract type key `from` to the implementation key `to`,
    /// replacing an earlier redirection of `from`.
    pub fn bind(&mut self, from: TypeKey, to: TypeKey)
        requires
            old(self).wf(),
        ensures
            final(self).wf(),
            final(self).bindings() == old(self).bindings().insert(from, to),
            final(self).instances() == old(self).instances(),
            final(self).loading() == old(self).loading(),
            final(self).next_chain_id() == old(self).next_chain_id(),
    {
        self.mappings.insert(from, to);
        proof {
            Self::lemma_same_entries(&*old(self), &*self);
        }
    }

    /// Stores a ready-made cell as the unnamed singleton of `type_key`.
    pub fn bind_value(&mut self, type_key: TypeKey, value: V)
        requires
            old(self).wf(),
        ensures
            final(self).wf(),
            final(self).instances() == old(self).instances().insert((type_key, None), value),
            final(self).loading() == old(self).loading(),
            final(self).bindings() == old(self).bindings(),
            final(self).next_chain_id() == old(self).next_chain_id(),
    {
        let ghost before = self.instances();
        self.instances.insert(Binding::Unnamed(type_key), value);
        assert forall|i: int| 0 <= i < self.loading().len() implies #[trigger] self.instances().contains_key(
            self.loading()[i].0,
        ) by {
            assert(before.contains_key(self.loading()[i].0));
        }
    }

    /// What the well-formedness of the state gives callers: no key is being
    /// built twice, and a key being built has its cell stored.
    pub proof fn lemma_wf_facts(&self)
        requires
            self.wf(),
        ensures
            distinct_keys(self.loading()),
            forall|i: int|
                0 <= i < self.loading().len() ==> #[trigger] self.instances().contains_key(
                    self.loading()[i].0,
                ),
    {
    }

    /// The cell stored under `key`.
    pub fn instance(&self, key: &Binding) -> (r: Option<&V>)
        requires
            self.wf(),
        ensures
            r.is_some() == self.instances().contains_key(key@),
            r matches Some(v) ==> *v == self.instances()[key@],
    {
        self.instances.get(key)
    }

    /// The key that `requested` leads to through the bindings; its name is kept.
    pub fn target_of(&self, requested: &Binding) -> (r: Result<Binding, ActorError>)
        requires
            self.wf(),
        ensures
            match self.target(requested@.0) {
                Some(t) => r matches Ok(b) && b@ == (t, requested@.1),
                None => r matches Err(e) && e@ == ActorErrorView::CircularBinding(requested@.0),
            },
    {
        let n = self.mappings.len();
        let mut current: TypeKey = requested.type_key();
        let mut steps: usize = 0;
        loop
            invariant
                self.wf(),
                steps <= n,
                n == self.binding_count(),
                self.target(requested@.0) == alias_target(
                    self.bindings(),
                    current,
                    (n - steps) as nat,
                ),
            decreases n - steps,
        {
            match self.mappings.get(&current) {
                None => {
                    return Ok(requested.redirected(current));
                },
                Some(next) => {
                    if steps == n {
                        return Err(ActorError::CircularBinding(requested.type_key()));
                    }
                    current = *next;
                    steps += 1;
                },
            }
        }
    }

    /// Where the entry for `key` stands among the singletons under construction.
    fn loading_position(&self, key: &Binding) -> (r: Option<usize>)
        requires
            self.wf(),
        ensures
            match r {
                Some(i) => i < self.loading().len() && self.loading()[i as int].0 == key@,
                None => forall|i: int| 0 <= i < self.loading().len() ==> self.loading()[i].0 != key@,
            },
    {
        let mut i: usize = 0;
        while i < self.loading.len()
            invariant
                i <= self.loading@.len(),
                forall|j: int| 0 <= j < i ==> self.loading()[j].0 != key@,
            decreases self.loading@.len() - i,
        {
            if self.loading[i].binding.same(key) {
                return Some(i);
            }
            i += 1;
        }
        None
    }

    /// The type names that `chain` is building, oldest first.
    fn names_in_chain(&self, chain: u64) -> (r: Vec<String>)
        ensures
            r.deep_view() == chain_names(self.loading(), chain),
    {
        let mut names: Vec<String> = Vec::new();
        let mut i: usize = 0;
        while i < self.loading.len()
            invariant
                i <= self.loading@.len(),
                names.deep_view() == chain_names(self.loading().take(i as int), chain),
            decreases self.loading@.len() - i,
        {
            let ghost before = names.deep_view();
            assert(self.loading().take(i + 1).drop_last() =~= self.loading().take(i as int));
            if self.loading[i].chain == chain {
                names.push(self.loading[i].label.clone());
                assert(names.deep_view() =~= before.push(self.loading()[i as int].1));
            }
            i += 1;
        }
        assert(self.loading().take(self.loading@.len() as int) =~= self.loading());
        names
    }

    /// Resolves `requested` for `chain`: follows the bindings, then reports a
    /// stored cell, a key to build, or a cycle when the chain is already
    /// building that key.
    pub fn lookup(&self, requested: &Binding, chain: u64) -> (r: Result<Resolution, ActorError>)
        requires
            self.wf(),
        ensures
            match self.lookup_spec(requested@, chain) {
                Ok(v) => r matches Ok(x) && x@ == v,
                Err(e) => r matches Err(x) && x@ == e,
            },
    {
        let key = match self.target_of(requested) {
            Ok(k) => k,
            Err(e) => {
                return Err(e);
            },
        };
        if !self.instances.contains(&key) {
            return Ok(Resolution::Construct(key));
        }
        match self.loading_position(&key) {
            Some(i) => {
                if self.loading[i].chain == chain {
                    return Err(ActorError::CircularDependency(self.names_in_chain(chain)));
                }
                assert forall|j: int|
                    0 <= j < self.loading().len() && self.loading()[j].0 == key@ implies self.loading()[j].2
                    != chain by {
                    if j != i {
                        if j < i {
                            assert(self.loading()[j].0 != self.loading()[i as int].0);
                        } else {
                            assert(self.loading()[i as int].0 != self.loading()[j].0);
                        }
                    }
                }
            },
            None => {},
        }
        Ok(Resolution::Cached(key))
    }

    /// Resolves `requested` for `chain` as [`Self::lookup`] does and, when
    /// the key it leads to has to be built, records at once that `chain`
    /// builds it with `cell`. Under one write lock this leaves no room for
    /// another resolution between the decision and the record.
    pub fn resolve_or_begin(
        &mut self,
        requested: &Binding,
        label: String,
        chain: u64,
        cell: V,
    ) -> (r: Result<Resolution, ActorError>)
        requires
            old(self).wf(),
        ensures
            final(self).wf(),
            match old(self).lookup_spec(requested@, chain) {
                Ok(v) => r matches Ok(x) && x@ == v,
                Err(e) => r matches Err(x) && x@ == e,
            },
            match old(self).lookup_spec(requested@, chain) {
                Ok(ResolutionView::Construct(k)) => {
                    &&& final(self).instances() == old(self).instances().insert(k, cell)
                    &&& final(self).loading() == old(self).loading().push((k, label@, chain))
                },
                _ => {
                    &&& final(self).instances() == old(self).instances()
                    &&& final(self).loading() == old(self).loading()
                },
            },
            final(self).bindings() == old(self).bindings(),
            final(self).next_chain_id() == old(self).next_chain_id(),
    {
        let found = self.lookup(requested, chain);
        match found {
            Ok(Resolution::Construct(key)) => {
                self.begin_construction(key.clone(), label, chain, cell);
                Ok(Resolution::Construct(key))
            },
            other => other,
        }
    }

    /// Records that `chain` starts building `key`, whose cell is `cell`.
    pub fn begin_construction(&mut self, key: Binding, label: String, chain: u64, cell: V)
        requires
            old(self).wf(),
            !old(self).instances().contains_key(key@),
        ensures
            final(self).wf(),
            final(self).instances() == old(self).instances().insert(key@, cell),
            final(self).loading() == old(self).loading().push((key@, label@, chain)),
            final(self).bindings() == old(self).bindings(),
            final(self).next_chain_id() == old(self).next_chain_id(),
    {
        let ghost before = self.loading();
        let ghost cached = self.instances();
        let ghost kv = key@;
        self.instances.insert(key.clone(), cell);
        self.loading.push(Loading { binding: key, label, chain });
        assert(self.loading() =~= before.push((kv, label@, chain)));
        assert forall|i: int| 0 <= i < before.len() implies before[i].0 != kv by {
            assert(cached.contains_key(before[i].0));
        }
        assert forall|i: int| 0 <= i < self.loading().len() implies #[trigger] self.instances().contains_key(
            self.loading()[i].0,
        ) by {
            if i < before.len() {
                assert(cached.contains_key(before[i].0));
            }
        }
    }

    /// Drops `key` from `loading` and `instances` together.
    fn drop_loading(&mut self, key: &Binding)
        requires
            old(self).wf(),
        ensures
            final(self).wf(),
            final(self).instances() == old(self).instances(),
            final(self).loading() == without_key(old(self).loading(), key@),
            final(self).bindings() == old(self).bindings(),
            final(self).next_chain_id() == old(self).next_chain_id(),
            forall|i: int| 0 <= i < final(self).loading().len() ==> final(self).loading()[i].0 != key@,
    {
        let ghost before = self.loading();
        match self.loading_position(key) {
            Some(i) => {
                self.loading.remove(i);
                assert(self.loading() =~= before.remove(i as int));
                proof {
                    lemma_without_present(before, key@, i as int);
                }
                assert forall|x: int, y: int| 0 <= x < y < self.loading().len() implies self.loading()[x].0
                    != self.loading()[y].0 by {
                    let bx = if x < i { x } else { x + 1 };
                    let by_ = if y < i { y } else { y + 1 };
                    assert(before[bx].0 != before[by_].0);
                }
                assert forall|x: int| 0 <= x < self.loading().len() implies {
                    &&& #[trigger] self.instances().contains_key(self.loading()[x].0)
                    &&& self.loading()[x].0 != key@
                } by {
                    let bx = if x < i { x } else { x + 1 };
                    assert(old(self).instances().contains_key(old(self).loading()[bx].0));
                    assert(before[bx].0 != before[i as int].0);
                }
            },
            None => {
                proof {
                    lemma_without_absent(before, key@);
                }
            },
        }
    }

    /// `chain` has built `key`: it stops counting as under construction, and
    /// its cell stays stored, holding the value or the failure it ended with.
    pub fn finish_construction(&mut self, key: &Binding)
        requires
            old(self).wf(),
        ensures
            final(self).wf(),
            final(self).instances() == old(self).instances(),
            final(self).loading() == without_key(old(self).loading(), key@),
            final(self).bindings() == old(self).bindings(),
            final(self).next_chain_id() == old(self).next_chain_id(),
    {
        self.drop_loading(key);
    }

    /// Building `key` failed part way: it stops counting as under
    /// construction and its cell is no longer stored, so nothing partial stays.
    pub fn abandon_construction(&mut self, key: &Binding)
        requires
            old(self).wf(),
        ensures
            final(self).wf(),
            final(self).instances() == old(self).instances().remove(key@),
            final(self).loading() == without_key(old(self).loading(), key@),
            final(self).bindings() == old(self).bindings(),
            final(self).next_chain_id() == old(self).next_chain_id(),
    {
        self.drop_loading(key);
        let ghost before = self.instances();
        self.instances.remove(key);
        assert forall|i: int| 0 <= i < self.loading().len() implies #[trigger] self.instances().contains_key(
            self.loading()[i].0,
        ) by {
            assert(before.contains_key(self.loading()[i].0));
        }
    }

    /// Ends the construction of `key` by how it came out: a cycle leaves
    /// nothing behind, while a built value, or any other failure, stays
    /// stored in its cell for every later resolution to find.
    pub fn end_construction<T>(&mut self, key: &Binding, outcome: &Result<T, ActorError>)
        requires
            old(self).wf(),
        ensures
            final(self).wf(),
            final(self).instances() == if outcome matches Err(ActorError::CircularDependency(_)) {
                old(self).instances().remove(key@)
            } else {
                old(self).instances()
            },
            final(self).loading() == without_key(old(self).loading(), key@),
            final(self).bindings() == old(self).bindings(),
            final(self).next_chain_id() == old(self).next_chain_id(),
    {
        match outcome {
            Err(ActorError::CircularDependency(_)) => self.abandon_construction(key),
            _ => self.finish_construction(key),
        }
    }

    /// A binding loop is reported only for a real loop: along the bindings
    /// from `k`, every key reached within as many steps as there are bindings
    /// is itself bound, and one of them is reached twice.
    pub proof fn lemma_binding_loop_is_real(&self, k: TypeKey)
        requires
            self.wf(),
            self.target(k) is None,
        ensures
            forall|i: nat|
                i <= self.binding_count() ==> self.bindings().contains_key(
                    #[trigger] walk(self.bindings(), k, i),
                ),
            exists|i: nat, j: nat|
                i < j <= self.binding_count() && walk(self.bindings(), k, i) == walk(
                    self.bindings(),
                    k,
                    j,
                ),
    {
        let m = self.bindings();
        let n = self.binding_count();
        lemma_unended_walk_stays_bound(m, k, n);
        let s = Seq::new((n + 1) as nat, |i: int| walk(m, k, i as nat));
        assert forall|x: TypeKey| s.to_set().contains(x) implies m.dom().contains(x) by {
            let idx = choose|idx: int| 0 <= idx < s.len() && s[idx] == x;
            assert(m.contains_key(walk(m, k, idx as nat)));
        }
        vstd::set_lib::lemma_len_subset(s.to_set(), m.dom());
        if s.no_duplicates() {
            s.unique_seq_to_set();
            assert(false);
        }
        let (a, b) = choose|a: int, b: int|
            0 <= a < s.len() && 0 <= b < s.len() && a != b && s[a] == s[b];
        if a < b {
            assert(walk(m, k, a as nat) == walk(m, k, b as nat));
        } else {
            assert(walk(m, k, b as nat) == walk(m, k, a as nat));
        }
    }

    /// Bindings chained `a` to `b` and `b` to `c`, with `c` bound to nothing,
    /// make `a` resolve to `c`: a request for `a` finds exactly what a
    /// request for `c` finds, under any name and in any chain.
    pub proof fn lemma_binding_chain(
        &self,
        a: TypeKey,
        b: TypeKey,
        c: TypeKey,
        name: Option<Seq<char>>,
        chain: u64,
    )
        requires
            self.wf(),
            self.bindings().contains_key(a),
            self.bindings()[a] == b,
            self.bindings().contains_key(b),
            self.bindings()[b] == c,
            !self.bindings().contains_key(c),
        ensures
            self.target(a) == Some(c),
            self.target(c) == Some(c),
            self.lookup_spec((a, name), chain) == self.lookup_spec((c, name), chain),
    {
        let m = self.bindings();
        assert(a != b);
        assert(set![a, b].subset_of(m.dom()));
        vstd::set_lib::lemma_len_subset(set![a, b], m.dom());
        let n = self.binding_count();
        assert(alias_target(m, c, (n - 2) as nat) == Some(c));
        assert(alias_target(m, b, (n - 1) as nat) == Some(c));
        assert(alias_target(m, a, n) == Some(c));
    }

    /// Once a cell is stored under the key that `requested` leads to, no
    /// resolution of `requested` builds it again, from any chain: one that
    /// succeeds reports that key, whose single cell all callers share, and a
    /// chain that is itself building the key gets a cycle instead.
    pub proof fn lemma_single_construction(&self, requested: BindingKey, chain: u64)
        requires
            self.wf(),
            self.target(requested.0) is Some,
            self.instances().contains_key((self.target(requested.0)->Some_0, requested.1)),
        ensures
            ({
                let k = (self.target(requested.0)->Some_0, requested.1);
                match self.lookup_spec(requested, chain) {
                    Ok(v) => v == ResolutionView::Cached(k) && !loading_in(
                        self.loading(),
                        k,
                        chain,
                    ),
                    Err(e) => e is CircularDependency && loading_in(self.loading(), k, chain),
                }
            }),
    {
    }

    /// A chain that asks for a key it is still building gets a cycle, and the
    /// cycle names every type that chain is building, the asked-for one included.
    pub proof fn lemma_cycle_detected(&self, requested: BindingKey, chain: u64, i: int)
        requires
            self.wf(),
            self.target(requested.0) is Some,
            0 <= i < self.loading().len(),
            self.loading()[i].0 == (self.target(requested.0)->Some_0, requested.1),
            self.loading()[i].2 == chain,
        ensures
            self.lookup_spec(requested, chain) == Err::<ResolutionView, ActorErrorView>(
                ActorErrorView::CircularDependency(chain_names(self.loading(), chain)),
            ),
            forall|j: int|
                0 <= j < self.loading().len() && self.loading()[j].2 == chain ==> chain_names(
                    self.loading(),
                    chain,
                ).contains(#[trigger] self.loading()[j].1),
    {
        assert(self.instances().contains_key(self.loading()[i].0));
        assert forall|j: int|
            0 <= j < self.loading().len() && self.loading()[j].2 == chain implies chain_names(
                self.loading(),
                chain,
            ).contains(#[trigger] self.loading()[j].1) by {
            lemma_chain_names_complete(self.loading(), chain, j);
        }
    }

    /// A key that a chain was told to build, then built and finished, is found
    /// again by the next resolution from any chain, with the cell that was built.
    pub proof fn lemma_get_after_construction(
        s0: &Self,
        s1: &Self,
        s2: &Self,
        requested: BindingKey,
        key: BindingKey,
        label: Seq<char>,
        chain: u64,
        cell: V,
        next: u64,
    )
        requires
            s0.wf(),
            s0.lookup_spec(requested, chain) == Ok::<ResolutionView, ActorErrorView>(
                ResolutionView::Construct(key),
            ),
            s1.wf(),
            s1.instances() == s0.instances().insert(key, cell),
            s1.loading() == s0.loading().push((key, label, chain)),
            s1.bindings() == s0.bindings(),
            s2.wf(),
            s2.instances() == s1.instances(),
            s2.loading() == without_key(s1.loading(), key),
            s2.bindings() == s1.bindings(),
        ensures
            s2.lookup_spec(requested, next) == Ok::<ResolutionView, ActorErrorView>(
                ResolutionView::Cached(key),
            ),
            s2.instances()[key] == cell,
    {
        let l0 = s0.loading();
        assert(s1.loading().drop_last() =~= l0);
        assert forall|i: int| 0 <= i < l0.len() implies l0[i].0 != key by {
            assert(s0.instances().contains_key(l0[i].0));
        }
        lemma_without_absent(l0, key);
        assert(s2.loading() == l0);
    }

    /// A value bound with [`Self::bind_value`] is what the next unnamed
    /// resolution of its type finds, unless the type is redirected elsewhere
    /// or the resolving chain is itself building it.
    pub proof fn lemma_bound_value_found(
        s0: &Self,
        s1: &Self,
        type_key: TypeKey,
        value: V,
        chain: u64,
    )
        requires
            s0.wf(),
            s1.wf(),
            s1.instances() == s0.instances().insert((type_key, None), value),
            s1.loading() == s0.loading(),
            s1.bindings() == s0.bindings(),
            !s0.bindings().contains_key(type_key),
            !loading_in(s0.loading(), (type_key, None), chain),
        ensures
            s1.lookup_spec((type_key, None), chain) == Ok::<ResolutionView, ActorErrorView>(
                ResolutionView::Cached((type_key, None)),
            ),
            s1.instances()[(type_key, None)] == value,
    {
    }

    /// A resolution that found a stored cell finds the same cell when it is
    /// asked again, from any chain not itself building that key.
    pub proof fn lemma_found_again(&self, requested: BindingKey, chain: u64, next: u64, key: BindingKey)
        requires
            self.wf(),
            self.lookup_spec(requested, chain) == Ok::<ResolutionView, ActorErrorView>(
                ResolutionView::Cached(key),
            ),
            !loading_in(self.loading(), key, next),
        ensures
            self.lookup_spec(requested, next) == Ok::<ResolutionView, ActorErrorView>(
                ResolutionView::Cached(key),
            ),
            self.instances().contains_key(key),
    {
    }
}

} // verus!
