//! Two-way bindings.
//!
//! A [`Binding`] is a handle of a shared signal: it carries the signal's
//! identity, and the value lives in a [`SignalStore`]. Copies of a binding
//! are handles of the same signal, so what one writes the others read.
use std::marker::PhantomData;

use vstd::prelude::*;

use crate::runtime::{ReactiveRuntime, SignalId, SignalNotifications};
use crate::shared::SignalStore;
use crate::signal::{Signal, set_outcome, written};

verus! {

/// A UI-agnostic two-way binding of a shared signal.
///
/// UI layers adapt this type to concrete controls without this crate
/// depending on those controls.
pub struct Binding<T> {
    id: SignalId,
    marker: PhantomData<T>,
}

impl<T> Binding<T> {
    /// The identity of the bound signal.
    pub closed spec fn spec_id(&self) -> SignalId {
        self.id
    }

    /// Bind `signal`: its value moves into `store`, where every copy of the
    /// binding reaches it.
    pub fn new(signal: Signal<T>, store: &mut SignalStore<T>) -> (b: Self)
        requires
            old(store).wf(),
        ensures
            b.spec_id() == signal.spec_id(),
            final(store).wf(),
            final(store).stored(old(store), signal.spec_id(), signal.spec_value()),
    {
        let id = signal.id();
        store.insert(signal);
        Binding { id, marker: PhantomData }
    }

    /// The identity of the bound signal.
    pub fn id(&self) -> (id: SignalId)
        ensures
            id == self.spec_id(),
    {
        self.id
    }

    /// Return the underlying signal.
    pub fn signal<'a>(&self, store: &'a SignalStore<T>) -> (s: &'a Signal<T>)
        requires
            store.contains(self.spec_id()),
        ensures
            s.spec_id() == self.spec_id(),
            s.spec_value() == store.value(self.spec_id()),
    {
        store.signal(self.id)
    }

    /// Read with dependency tracking and without cloning.
    pub fn read<'a>(&self, rt: &mut ReactiveRuntime, store: &'a SignalStore<T>) -> (v: &'a T)
        requires
            old(rt).wf(),
            store.contains(self.spec_id()),
        ensures
            final(rt).wf(),
            *v == store.value(self.spec_id()),
            final(rt)@ == old(rt)@.after_track(self.spec_id()),
    {
        store.read(rt, self.id)
    }

    /// Mutate the bound value and notify dependents when asked to.
    pub fn update(
        &self,
        rt: &mut ReactiveRuntime,
        store: &mut SignalStore<T>,
        update: impl FnOnce(&T) -> (T, bool),
    ) -> (n: SignalNotifications)
        requires
            old(rt).wf(),
            old(store).wf(),
            old(store).contains(self.spec_id()),
            call_requires(update, (&old(store).value(self.spec_id()),)),
        ensures
            final(rt).wf(),
            final(store).wf(),
            final(store).stored(old(store), self.spec_id(), final(store).value(self.spec_id())),
            exists|r: (T, bool)|
                {
                    &&& #[trigger] call_ensures(update, (&old(store).value(self.spec_id()),), r)
                    &&& final(store).value(self.spec_id()) == r.0
                    &&& written(old(rt)@, final(rt)@, self.spec_id(), r.1, n)
                },
    {
        store.update(rt, self.id, update)
    }

    /// Mutate the bound value without notifying dependents.
    pub fn update_silent(&self, store: &mut SignalStore<T>, f: impl FnOnce(&T) -> T)
        requires
            old(store).wf(),
            old(store).contains(self.spec_id()),
            call_requires(f, (&old(store).value(self.spec_id()),)),
        ensures
            final(store).wf(),
            final(store).stored(old(store), self.spec_id(), final(store).value(self.spec_id())),
            call_ensures(f, (&old(store).value(self.spec_id()),), final(store).value(self.spec_id())),
    {
        store.update_silent(self.id, f);
    }

    /// Set the bound value without notifying dependents.
    pub fn set_silent(&self, store: &mut SignalStore<T>, value: T)
        requires
            old(store).wf(),
            old(store).contains(self.spec_id()),
        ensures
            final(store).wf(),
            final(store).stored(old(store), self.spec_id(), value),
    {
        store.set_silent(self.id, value);
    }

    /// Set the bound value and notify dependents when it changed.
    pub fn set(&self, rt: &mut ReactiveRuntime, store: &mut SignalStore<T>, value: T) -> (n:
        SignalNotifications) where
        T: PartialEq,
        requires
            old(rt).wf(),
            old(store).wf(),
            old(store).contains(self.spec_id()),
        ensures
            final(rt).wf(),
            final(store).wf(),
            final(store).stored(old(store), self.spec_id(), final(store).value(self.spec_id())),
            set_outcome(
                old(store).value(self.spec_id()),
                final(store).value(self.spec_id()),
                value,
                old(rt)@,
                final(rt)@,
                self.spec_id(),
                n,
            ),
    {
        store.set(rt, self.id, value)
    }
}

impl<T> Clone for Binding<T> {
    /// Another handle of the same signal.
    fn clone(&self) -> (b: Self)
        ensures
            b.spec_id() == self.spec_id(),
    {
        Binding { id: self.id, marker: PhantomData }
    }
}

impl<T: Clone> Binding<T> {
    /// Clone the bound value with dependency tracking.
    pub fn get(&self, rt: &mut ReactiveRuntime, store: &SignalStore<T>) -> (v: T)
        requires
            old(rt).wf(),
            store.contains(self.spec_id()),
        ensures
            final(rt).wf(),
            cloned(store.value(self.spec_id()), v),
            final(rt)@ == old(rt)@.after_track(self.spec_id()),
    {
        store.get(rt, self.id)
    }
}

} // verus!
