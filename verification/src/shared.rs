//! Shared signals.
//!
//! A [`SignalStore`] holds the values of shared signals of one type, keyed
//! by their identity. [`ReadSignal`], [`WriteSignal`] and [`Binding`] are
//! handles that carry only an identity: they read and write the value in the
//! store, so that what one handle writes is what every handle of the same
//! signal reads.
use vstd::prelude::*;

use std::marker::PhantomData;

use crate::runtime::{ReactiveRuntime, RuntimeView, SignalId, SignalNotifications};
use crate::signal::{Signal, set_outcome, written};

verus! {

broadcast use vstd::seq_lib::group_seq_properties;

/// The values of shared signals of one type, by identity.
pub struct SignalStore<T> {
    entries: Vec<Signal<T>>,
}

impl<T> SignalStore<T> {
    /// The identities held, in insertion order.
    pub closed spec fn ids(&self) -> Seq<SignalId> {
        self.entries@.map_values(|s: Signal<T>| s.spec_id())
    }

    /// Whether the store holds a value for `id`.
    pub open spec fn contains(&self, id: SignalId) -> bool {
        self.ids().contains(id)
    }

    /// The value held for `id`.
    pub closed spec fn value(&self, id: SignalId) -> T {
        self.entries@[self.ids().index_of_first(id)->0].spec_value()
    }

    /// No identity is held twice.
    pub closed spec fn wf(&self) -> bool {
        self.ids().no_duplicates()
    }

    /// `self` holds what `before` holds, except that the value of `id` is
    /// `value` (added when `before` had none).
    pub open spec fn stored(&self, before: &Self, id: SignalId, value: T) -> bool {
        &&& forall|j: SignalId| #[trigger] self.contains(j) == (before.contains(j) || j == id)
        &&& self.value(id) == value
        &&& forall|j: SignalId| before.contains(j) && j != id ==> #[trigger] self.value(j) == before.value(j)
    }

    proof fn lemma_entry(&self, i: int)
        requires
            self.wf(),
            0 <= i < self.entries@.len(),
        ensures
            self.ids()[i] == self.entries@[i].spec_id(),
            self.ids().index_of_first(self.entries@[i].spec_id()) == Some(i),
            self.value(self.entries@[i].spec_id()) == self.entries@[i].spec_value(),
    {
        let id = self.entries@[i].spec_id();
        self.ids().index_of_first_ensures(id);
        assert(self.ids()[i] == id);
    }

    /// Replacing the entry at `i` by a signal of the same identity stores its value.
    proof fn lemma_replaced(before: &Self, after: &Self, i: int, s: Signal<T>)
        requires
            before.wf(),
            0 <= i < before.entries@.len(),
            s.spec_id() == before.entries@[i].spec_id(),
            after.entries@ == before.entries@.update(i, s),
        ensures
            after.wf(),
            after.stored(before, s.spec_id(), s.spec_value()),
    {
        assert(after.ids() =~= before.ids());
        after.lemma_entry(i);
        assert forall|j: SignalId| before.contains(j) && j != s.spec_id() implies #[trigger] after.value(j)
            == before.value(j) by {
            let k = before.ids().index_of(j);
            before.lemma_entry(k);
            after.lemma_entry(k);
        }
    }

    /// Appending a signal of a new identity stores its value.
    proof fn lemma_pushed(before: &Self, after: &Self, s: Signal<T>)
        requires
            before.wf(),
            !before.contains(s.spec_id()),
            after.entries@ == before.entries@.push(s),
        ensures
            after.wf(),
            after.stored(before, s.spec_id(), s.spec_value()),
    {
        assert(after.ids() =~= before.ids().push(s.spec_id()));
        after.lemma_entry(before.entries@.len() as int);
        assert forall|j: SignalId| before.contains(j) && j != s.spec_id() implies #[trigger] after.value(j)
            == before.value(j) by {
            let k = before.ids().index_of(j);
            before.lemma_entry(k);
            after.lemma_entry(k);
        }
    }

    /// An empty store.
    pub fn new() -> (s: Self)
        ensures
            s.wf(),
            forall|j: SignalId| !s.contains(j),
    {
        let s = SignalStore { entries: Vec::new() };
        proof {
            assert(s.ids() =~= Seq::<SignalId>::empty());
        }
        s
    }

    fn position(&self, id: SignalId) -> (r: Option<usize>)
        ensures
            match r {
                Some(i) => i < self.entries@.len() && self.entries@[i as int].spec_id() == id
                    && self.ids().index_of_first(id) == Some(i as int),
                None => !self.contains(id),
            },
    {
        proof {
            self.ids().index_of_first_ensures(id);
        }
        let mut i: usize = 0;
        while i < self.entries.len()
            invariant
                i <= self.entries.len(),
                forall|j: int| 0 <= j < i ==> self.ids()[j] != id,
                match self.ids().index_of_first(id) {
                    Some(index) => {
                        &&& 0 <= index < self.ids().len()
                        &&& self.ids()[index] == id
                        &&& forall|j: int| 0 <= j < index < self.ids().len() ==> self.ids()[j] != id
                    },
                    None => !self.ids().contains(id),
                },
            decreases self.entries.len() - i,
        {
            if self.entries[i].id() == id {
                proof {
                    assert(self.ids()[i as int] == id);
                }
                return Some(i);
            }
            i = i + 1;
        }
        None
    }

    /// Whether the store holds a value for `id`.
    pub fn contains_signal(&self, id: SignalId) -> (b: bool)
        ensures
            b == self.contains(id),
    {
        match self.position(id) {
            Some(i) => {
                proof {
                    assert(self.ids()[i as int] == id);
                }
                true
            },
            None => false,
        }
    }

    /// Hand `signal` to the store: from now on its value lives here.
    pub fn insert(&mut self, signal: Signal<T>)
        requires
            old(self).wf(),
        ensures
            final(self).wf(),
            final(self).stored(old(self), signal.spec_id(), signal.spec_value()),
    {
        let ghost before = *self;
        match self.position(signal.id()) {
            Some(i) => {
                self.entries.remove(i);
                self.entries.insert(i, signal);
                proof {
                    assert(self.entries@ =~= before.entries@.update(i as int, signal));
                    Self::lemma_replaced(&before, self, i as int, signal);
                }
            },
            None => {
                self.entries.push(signal);
                proof {
                    Self::lemma_pushed(&before, self, signal);
                }
            },
        }
    }

    /// The signal of `id`.
    pub fn signal(&self, id: SignalId) -> (s: &Signal<T>)
        requires
            self.contains(id),
        ensures
            s.spec_id() == id,
            s.spec_value() == self.value(id),
    {
        match self.position(id) {
            Some(i) => &self.entries[i],
            None => {
                proof {
                    assert(false);
                }
                &self.entries[0]
            },
        }
    }

    /// The position of `id`, which the store holds.
    fn index_of(&self, id: SignalId) -> (i: usize)
        requires
            self.wf(),
            self.contains(id),
        ensures
            i < self.entries@.len(),
            self.entries@[i as int].spec_id() == id,
            self.entries@[i as int].spec_value() == self.value(id),
    {
        match self.position(id) {
            Some(i) => {
                proof {
                    self.lemma_entry(i as int);
                }
                i
            },
            None => {
                proof {
                    assert(false);
                }
                0
            },
        }
    }

    /// Read the value of `id` with dependency tracking.
    pub fn read<'a>(&'a self, rt: &mut ReactiveRuntime, id: SignalId) -> (v: &'a T)
        requires
            old(rt).wf(),
            self.contains(id),
        ensures
            final(rt).wf(),
            *v == self.value(id),
            final(rt)@ == old(rt)@.after_track(id),
    {
        self.signal(id).read(rt)
    }

    /// Set the value of `id` and wake its observers when it changed.
    pub fn set(&mut self, rt: &mut ReactiveRuntime, id: SignalId, value: T) -> (n: SignalNotifications) where
        T: PartialEq,
        requires
            old(rt).wf(),
            old(self).wf(),
            old(self).contains(id),
        ensures
            final(rt).wf(),
            final(self).wf(),
            final(self).stored(old(self), id, final(self).value(id)),
            set_outcome(old(self).value(id), final(self).value(id), value, old(rt)@, final(rt)@, id, n),
    {
        let ghost before = *self;
        let i = self.index_of(id);
        let mut s = self.entries.remove(i);
        let n = s.set(rt, value);
        self.entries.insert(i, s);
        proof {
            assert(self.entries@ =~= before.entries@.update(i as int, s));
            Self::lemma_replaced(&before, self, i as int, s);
        }
        n
    }

    /// Mutate the value of `id` and wake its observers when asked to.
    pub fn update(
        &mut self,
        rt: &mut ReactiveRuntime,
        id: SignalId,
        update: impl FnOnce(&T) -> (T, bool),
    ) -> (n: SignalNotifications)
        requires
            old(rt).wf(),
            old(self).wf(),
            old(self).contains(id),
            call_requires(update, (&old(self).value(id),)),
        ensures
            final(rt).wf(),
            final(self).wf(),
            final(self).stored(old(self), id, final(self).value(id)),
            exists|r: (T, bool)|
                {
                    &&& #[trigger] call_ensures(update, (&old(self).value(id),), r)
                    &&& final(self).value(id) == r.0
                    &&& written(old(rt)@, final(rt)@, id, r.1, n)
                },
    {
        let ghost before = *self;
        let i = self.index_of(id);
        let mut s = self.entries.remove(i);
        let n = s.update(rt, update);
        self.entries.insert(i, s);
        proof {
            assert(self.entries@ =~= before.entries@.update(i as int, s));
            Self::lemma_replaced(&before, self, i as int, s);
        }
        n
    }

    /// Mutate the value of `id` without waking its observers.
    pub fn update_silent(&mut self, id: SignalId, f: impl FnOnce(&T) -> T)
        requires
            old(self).wf(),
            old(self).contains(id),
            call_requires(f, (&old(self).value(id),)),
        ensures
            final(self).wf(),
            final(self).stored(old(self), id, final(self).value(id)),
            call_ensures(f, (&old(self).value(id),), final(self).value(id)),
    {
        let ghost before = *self;
        let i = self.index_of(id);
        let mut s = self.entries.remove(i);
        s.update_silent(f);
        self.entries.insert(i, s);
        proof {
            assert(self.entries@ =~= before.entries@.update(i as int, s));
            Self::lemma_replaced(&before, self, i as int, s);
        }
    }

    /// Set the value of `id` without waking its observers.
    pub fn set_silent(&mut self, id: SignalId, value: T)
        requires
            old(self).wf(),
            old(self).contains(id),
        ensures
            final(self).wf(),
            final(self).stored(old(self), id, value),
    {
        let ghost before = *self;
        let i = self.index_of(id);
        let mut s = self.entries.remove(i);
        s.set_silent(value);
        self.entries.insert(i, s);
        proof {
            assert(self.entries@ =~= before.entries@.update(i as int, s));
            Self::lemma_replaced(&before, self, i as int, s);
        }
    }
}

impl<T: Clone> SignalStore<T> {
    /// Clone the value of `id` with dependency tracking.
    pub fn get(&self, rt: &mut ReactiveRuntime, id: SignalId) -> (v: T)
        requires
            old(rt).wf(),
            self.contains(id),
        ensures
            final(rt).wf(),
            cloned(self.value(id), v),
            final(rt)@ == old(rt)@.after_track(id),
    {
        self.signal(id).get(rt)
    }
}

/// Read-only handle of a shared signal.
pub struct ReadSignal<T> {
    id: SignalId,
    marker: PhantomData<T>,
}

impl<T> ReadSignal<T> {
    /// The identity of the signal.
    pub closed spec fn spec_id(&self) -> SignalId {
        self.id
    }

    /// A read handle of the signal `id`.
    pub fn new(id: SignalId) -> (r: Self)
        ensures
            r.spec_id() == id,
    {
        ReadSignal { id, marker: PhantomData }
    }

    /// Return the source signal identity.
    pub fn id(&self) -> (id: SignalId)
        ensures
            id == self.spec_id(),
    {
        self.id
    }

    /// Read with dependency tracking and without cloning.
    pub fn read<'a>(&self, rt: &mut ReactiveRuntime, store: &'a SignalStore<T>) -> (v: &'a T)
        requires
            old(rt).wf(),
            store.contains(self.spec_id()),
        ensures
            final(rt).wf(),
            *v == store.value(self.spec_id()),
            final(rt)@ == old(rt)@.after_track(self.spec_id()),
    {
        store.read(rt, self.id)
    }

    /// Read without dependency tracking and without cloning.
    pub fn peek<'a>(&self, store: &'a SignalStore<T>) -> (v: &'a T)
        requires
            store.contains(self.spec_id()),
        ensures
            *v == store.value(self.spec_id()),
    {
        store.signal(self.id).peek()
    }
}

impl<T: Clone> ReadSignal<T> {
    /// Clone the current value with dependency tracking.
    pub fn get(&self, rt: &mut ReactiveRuntime, store: &SignalStore<T>) -> (v: T)
        requires
            old(rt).wf(),
            store.contains(self.spec_id()),
        ensures
            final(rt).wf(),
            cloned(store.value(self.spec_id()), v),
            final(rt)@ == old(rt)@.after_track(self.spec_id()),
    {
        store.get(rt, self.id)
    }

    /// Clone the current value without dependency tracking.
    pub fn get_untracked(&self, store: &SignalStore<T>) -> (v: T)
        requires
            store.contains(self.spec_id()),
        ensures
            cloned(store.value(self.spec_id()), v),
    {
        store.signal(self.id).get_untracked()
    }
}

/// Write-only handle of a shared signal.
pub struct WriteSignal<T> {
    id: SignalId,
    marker: PhantomData<T>,
}

impl<T> WriteSignal<T> {
    /// The identity of the signal.
    pub closed spec fn spec_id(&self) -> SignalId {
        self.id
    }

    /// A write handle of the signal `id`.
    pub fn new(id: SignalId) -> (w: Self)
        ensures
            w.spec_id() == id,
    {
        WriteSignal { id, marker: PhantomData }
    }

    /// Return the source signal identity.
    pub fn id(&self) -> (id: SignalId)
        ensures
            id == self.spec_id(),
    {
        self.id
    }

    /// Set the signal and notify dependents when the value changed.
    pub fn set(&self, rt: &mut ReactiveRuntime, store: &mut SignalStore<T>, value: T) -> (n:
        SignalNotifications) where
        T: PartialEq,
        requires
            old(rt).wf(),
            old(store).wf(),
            old(store).contains(self.spec_id()),
        ensures
            final(rt).wf(),
            final(store).wf(),
            final(store).stored(old(store), self.spec_id(), final(store).value(self.spec_id())),
            set_outcome(
                old(store).value(self.spec_id()),
                final(store).value(self.spec_id()),
                value,
                old(rt)@,
                final(rt)@,
                self.spec_id(),
                n,
            ),
    {
        store.set(rt, self.id, value)
    }

    /// Mutate the signal and notify dependents when asked to.
    pub fn update(
        &self,
        rt: &mut ReactiveRuntime,
        store: &mut SignalStore<T>,
        update: impl FnOnce(&T) -> (T, bool),
    ) -> (n: SignalNotifications)
        requires
            old(rt).wf(),
            old(store).wf(),
            old(store).contains(self.spec_id()),
            call_requires(update, (&old(store).value(self.spec_id()),)),
        ensures
            final(rt).wf(),
            final(store).wf(),
            final(store).stored(old(store), self.spec_id(), final(store).value(self.spec_id())),
            exists|r: (T, bool)|
                {
                    &&& #[trigger] call_ensures(update, (&old(store).value(self.spec_id()),), r)
                    &&& final(store).value(self.spec_id()) == r.0
                    &&& written(old(rt)@, final(rt)@, self.spec_id(), r.1, n)
                },
    {
        store.update(rt, self.id, update)
    }
}

} // verus!
