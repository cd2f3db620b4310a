//! Keyed single selection.
//!
//! A [`Selector`] holds the selected key and, for each key a reader asked
//! about with [`Selector::is_selected`], a per-key flag signal. Every flag
//! always equals "this key is selected", so changing the selection only
//! wakes the readers of the whole selection and of the previous and next
//! keys' flags.
use vstd::prelude::*;

use crate::key_vec::{contains_key, push_id};
use crate::runtime::{ReactiveRuntime, RuntimeView, SignalId, SignalNotifications};
use crate::signal::Signal;

verus! {

broadcast use {vstd::seq_lib::group_seq_properties, vstd::set_lib::group_set_properties};

/// The flag signal registered for one key.
struct KeyFlag {
    key: u64,
    flag: Signal<bool>,
}

/// The key that "next" (`forward`) or "previous" navigation selects in
/// `keys` from `current`: the neighbour of the current key, wrapping around,
/// or the first (last) key when the current key is missing; `None` when
/// `keys` is empty.
pub open spec fn step_target(keys: Seq<u64>, current: Option<u64>, forward: bool) -> Option<u64> {
    if keys.len() == 0 {
        None
    } else {
        let pos = match current {
            Some(c) => keys.index_of_first(c),
            None => None,
        };
        let index = match pos {
            Some(i) => if forward {
                (i + 1) % (keys.len() as int)
            } else if i == 0 {
                keys.len() - 1
            } else {
                i - 1
            },
            None => if forward {
                0
            } else {
                keys.len() - 1
            },
        };
        Some(keys[index])
    }
}

/// The first (`first`) or last key of `keys`.
pub open spec fn boundary_target(keys: Seq<u64>, first: bool) -> Option<u64> {
    if keys.len() == 0 {
        None
    } else if first {
        Some(keys[0])
    } else {
        Some(keys[keys.len() - 1])
    }
}

/// The selection after reconciling `current` against `keys`: a missing key
/// is cleared, or replaced by the first key when `select_first`.
pub open spec fn reconciled(keys: Seq<u64>, current: Option<u64>, select_first: bool) -> Option<u64> {
    match current {
        Some(c) if keys.contains(c) => current,
        _ => if select_first {
            boundary_target(keys, true)
        } else {
            None
        },
    }
}

fn find_key(keys: &Vec<u64>, x: u64) -> (r: Option<usize>)
    ensures
        match r {
            Some(i) => i < keys@.len() && keys@[i as int] == x && keys@.index_of_first(x) == Some(i as int),
            None => !keys@.contains(x) && keys@.index_of_first(x) == None::<int>,
        },
{
    proof {
        keys@.index_of_first_ensures(x);
    }
    let mut i: usize = 0;
    while i < keys.len()
        invariant
            i <= keys.len(),
            forall|j: int| 0 <= j < i ==> keys@[j] != x,
            match keys@.index_of_first(x) {
                Some(index) => {
                    &&& 0 <= index < keys@.len()
                    &&& keys@[index] == x
                    &&& forall|j: int| 0 <= j < index < keys@.len() ==> keys@[j] != x
                },
                None => !keys@.contains(x),
            },
        decreases keys.len() - i,
    {
        if keys[i] == x {
            return Some(i);
        }
        i = i + 1;
    }
    None
}

/// `ks` holds, in order, a key that `key` may return for each item.
pub open spec fn keys_of<T, F: Fn(&T) -> u64>(items: Seq<T>, key: F, ks: Seq<u64>) -> bool {
    &&& ks.len() == items.len()
    &&& forall|i: int| 0 <= i < items.len() ==> call_ensures(key, (&items[i],), #[trigger] ks[i])
}

/// Whether `key` can be called on every item.
pub open spec fn keys_callable<T, F: Fn(&T) -> u64>(items: Seq<T>, key: F) -> bool {
    forall|i: int| 0 <= i < items.len() ==> call_requires(key, (&#[trigger] items[i],))
}

/// Map every item to its key, in order.
pub fn collect_keys<T, F: Fn(&T) -> u64>(items: &Vec<T>, key: &F) -> (ks: Vec<u64>)
    requires
        keys_callable(items@, *key),
    ensures
        keys_of(items@, *key, ks@),
{
    let mut ks: Vec<u64> = Vec::new();
    let mut i: usize = 0;
    while i < items.len()
        invariant
            i <= items.len(),
            ks@.len() == i,
            keys_callable(items@, *key),
            forall|j: int| 0 <= j < i ==> call_ensures(*key, (&items@[j],), #[trigger] ks@[j]),
        decreases items.len() - i,
    {
        let k = key(&items[i]);
        ks.push(k);
        i = i + 1;
    }
    ks
}

/// The key that "next" (`forward`) or "previous" navigation selects in
/// `keys` from `current`.
pub fn relative_key(keys: &Vec<u64>, current: Option<u64>, forward: bool) -> (t: Option<u64>)
    ensures
        t == step_target(keys@, current, forward),
{
    if keys.len() == 0 {
        return None;
    }
    let position = match current {
        Some(c) => find_key(keys, c),
        None => None,
    };
    let len = keys.len();
    let index = match position {
        Some(i) => if forward {
            (i + 1) % len
        } else if i == 0 {
            len - 1
        } else {
            i - 1
        },
        None => if forward {
            0
        } else {
            len - 1
        },
    };
    Some(keys[index])
}

/// The first (`first`) or last key of `keys`, if any.
pub fn boundary_key(keys: &Vec<u64>, first: bool) -> (t: Option<u64>)
    ensures
        t == boundary_target(keys@, first),
{
    if keys.len() == 0 {
        None
    } else if first {
        Some(keys[0])
    } else {
        Some(keys[keys.len() - 1])
    }
}

/// The selection after reconciling `current` against `keys`.
pub fn reconciled_key(keys: &Vec<u64>, current: Option<u64>, select_first: bool) -> (t: Option<u64>)
    ensures
        t == reconciled(keys@, current, select_first),
{
    let present = match current {
        Some(c) => contains_key(keys, c),
        None => false,
    };
    if present {
        current
    } else if select_first {
        boundary_key(keys, true)
    } else {
        None
    }
}

/// Fine-grained keyed selection state.
///
/// Useful for list-shaped UIs where each row only needs to know whether its
/// own key is selected.
pub struct Selector {
    selected: Signal<Option<u64>>,
    keyed: Vec<KeyFlag>,
}

impl Selector {
    /// The selected key.
    pub closed spec fn spec_selected(&self) -> Option<u64> {
        self.selected.spec_value()
    }

    /// The identity of the selected-key signal.
    pub closed spec fn spec_id(&self) -> SignalId {
        self.selected.spec_id()
    }

    /// The keys that have a flag signal, in registration order.
    pub closed spec fn keyed_keys(&self) -> Seq<u64> {
        self.keyed@.map_values(|f: KeyFlag| f.key)
    }

    /// The identity of the flag signal of `key`.
    pub closed spec fn flag_id(&self, key: u64) -> SignalId {
        self.keyed@[self.keyed_keys().index_of_first(key)->0].flag.spec_id()
    }

    /// The flag signals of `key`, if it has one.
    pub open spec fn flag_ids(&self, key: Option<u64>) -> Set<SignalId> {
        match key {
            Some(k) => if self.keyed_keys().contains(k) {
                Set::empty().insert(self.flag_id(k))
            } else {
                Set::empty()
            },
            None => Set::empty(),
        }
    }

    /// No key has two flags, and every flag says whether its key is selected.
    pub closed spec fn wf(&self) -> bool {
        &&& self.keyed_keys().no_duplicates()
        &&& forall|i: int|
            0 <= i < self.keyed@.len() ==> (#[trigger] self.keyed@[i]).flag.spec_value() == (
            self.selected.spec_value() == Some(self.keyed@[i].key))
    }

    /// The signals a change of the selection from `from` to `to` writes.
    pub open spec fn touched(&self, from: Option<u64>, to: Option<u64>) -> Set<SignalId> {
        if from == to {
            Set::empty()
        } else {
            Set::empty().insert(self.spec_id()).union(self.flag_ids(from)).union(self.flag_ids(to))
        }
    }

    /// Both selectors own the same signals.
    pub open spec fn same_signals(&self, other: &Self) -> bool {
        &&& self.spec_id() == other.spec_id()
        &&& self.keyed_keys() == other.keyed_keys()
        &&& forall|k: u64| #[trigger] self.keyed_keys().contains(k) ==> self.flag_id(k) == other.flag_id(k)
    }

    proof fn lemma_flag(&self, i: int)
        requires
            self.keyed_keys().no_duplicates(),
            0 <= i < self.keyed@.len(),
        ensures
            self.keyed_keys().index_of_first(self.keyed@[i].key) == Some(i),
            self.flag_id(self.keyed@[i].key) == self.keyed@[i].flag.spec_id(),
            self.keyed_keys()[i] == self.keyed@[i].key,
    {
        let k = self.keyed@[i].key;
        self.keyed_keys().index_of_first_ensures(k);
        assert(self.keyed_keys()[i] == k);
    }

    /// Create a selector with the current selected key.
    pub fn new(rt: &mut ReactiveRuntime, selected: Option<u64>) -> (s: Self)
        requires
            old(rt).wf(),
            old(rt)@.next_signal < u64::MAX,
        ensures
            final(rt).wf(),
            s.wf(),
            s.spec_selected() == selected,
            s.spec_id() == SignalId(old(rt)@.next_signal),
            s.keyed_keys().len() == 0,
            final(rt)@ == (RuntimeView { next_signal: (old(rt)@.next_signal + 1) as u64, ..old(rt)@ }),
    {
        let s = Selector { selected: Signal::new(rt, selected), keyed: Vec::new() };
        proof {
            assert(s.keyed_keys() =~= Seq::<u64>::empty());
        }
        s
    }

    /// Return the underlying selected-key signal.
    pub fn selected_signal(&self) -> (s: &Signal<Option<u64>>)
        ensures
            s.spec_id() == self.spec_id(),
            s.spec_value() == self.spec_selected(),
    {
        &self.selected
    }

    /// The selected key, with dependency tracking.
    pub fn get(&self, rt: &mut ReactiveRuntime) -> (k: Option<u64>)
        requires
            old(rt).wf(),
        ensures
            final(rt).wf(),
            k == self.spec_selected(),
            final(rt)@ == old(rt)@.after_track(self.spec_id()),
    {
        *self.selected.read(rt)
    }

    /// The selected key, without dependency tracking.
    pub fn get_untracked(&self) -> (k: Option<u64>)
        ensures
            k == self.spec_selected(),
    {
        *self.selected.peek()
    }

    /// The keys that currently have a flag signal.
    pub fn keyed_signal_keys(&self) -> (keys: Vec<u64>)
        ensures
            keys@ == self.keyed_keys(),
    {
        let mut keys: Vec<u64> = Vec::new();
        let mut i: usize = 0;
        while i < self.keyed.len()
            invariant
                i <= self.keyed.len(),
                keys@ == self.keyed_keys().subrange(0, i as int),
            decreases self.keyed.len() - i,
        {
            keys.push(self.keyed[i].key);
            proof {
                assert(keys@ =~= self.keyed_keys().subrange(0, i + 1));
            }
            i = i + 1;
        }
        proof {
            assert(self.keyed_keys().subrange(0, self.keyed@.len() as int) =~= self.keyed_keys());
        }
        keys
    }

    fn find_flag(&self, key: u64) -> (r: Option<usize>)
        ensures
            match r {
                Some(i) => i < self.keyed@.len() && self.keyed@[i as int].key == key && self.keyed_keys().contains(key),
                None => !self.keyed_keys().contains(key),
            },
    {
        let mut i: usize = 0;
        while i < self.keyed.len()
            invariant
                i <= self.keyed.len(),
                forall|j: int| 0 <= j < i ==> self.keyed@[j].key != key,
            decreases self.keyed.len() - i,
        {
            if self.keyed[i].key == key {
                proof {
                    assert(self.keyed_keys()[i as int] == key);
                }
                return Some(i);
            }
            i = i + 1;
        }
        proof {
            if self.keyed_keys().contains(key) {
                let j = choose|j: int| 0 <= j < self.keyed_keys().len() && self.keyed_keys()[j] == key;
                assert(self.keyed@[j].key == key);
            }
        }
        None
    }

    /// Whether `key` is selected, reading only `key`'s flag signal with
    /// dependency tracking. The flag is created on first use.
    pub fn is_selected(&mut self, rt: &mut ReactiveRuntime, key: u64) -> (b: bool)
        requires
            old(rt).wf(),
            old(self).wf(),
            old(rt)@.next_signal < u64::MAX,
        ensures
            final(rt).wf(),
            final(self).wf(),
            b == (old(self).spec_selected() == Some(key)),
            final(self).spec_selected() == old(self).spec_selected(),
            final(self).spec_id() == old(self).spec_id(),
            final(self).keyed_keys().contains(key),
            forall|k: u64| #[trigger] old(self).keyed_keys().contains(k) ==> final(self).keyed_keys().contains(k)
                && final(self).flag_id(k) == old(self).flag_id(k),
            forall|k: u64| final(self).keyed_keys().contains(k) ==> old(self).keyed_keys().contains(k) || k == key,
            old(self).keyed_keys().contains(key) ==> final(rt)@ == old(rt)@.after_track(old(self).flag_id(key))
                && final(self).keyed_keys() == old(self).keyed_keys(),
            !old(self).keyed_keys().contains(key) ==> {
                &&& final(self).flag_id(key) == SignalId(old(rt)@.next_signal)
                &&& final(rt)@ == (RuntimeView {
                    next_signal: (old(rt)@.next_signal + 1) as u64,
                    ..old(rt)@
                }).after_track(SignalId(old(rt)@.next_signal))
            },
    {
        match self.find_flag(key) {
            Some(i) => {
                proof {
                    self.lemma_flag(i as int);
                }
                *self.keyed[i].flag.read(rt)
            },
            None => {
                let is_selected = match *self.selected.peek() {
                    Some(k) => k == key,
                    None => false,
                };
                let flag = Signal::new(rt, is_selected);
                let ghost before = self.keyed@;
                self.keyed.push(KeyFlag { key, flag });
                let n = self.keyed.len();
                proof {
                    assert(self.keyed_keys() =~= old(self).keyed_keys().push(key));
                    assert forall|k: u64| old(self).keyed_keys().contains(k) implies self.keyed_keys().contains(k) && self.flag_id(k) == old(self).flag_id(k) by {
                        let j = choose|j: int| 0 <= j < old(self).keyed_keys().len() && old(self).keyed_keys()[j] == k;
                        old(self).lemma_flag(j);
                        assert(self.keyed@[j] == before[j]);
                        self.lemma_flag(j);
                    }
                    self.lemma_flag(n - 1);
                }
                *self.keyed[n - 1].flag.read(rt)
            },
        }
    }

    /// Overwrite the flag value of entry `i`, keeping its key and identity.
    fn write_flag(&mut self, i: usize, value: bool) -> (id: SignalId)
        requires
            i < old(self).keyed@.len(),
        ensures
            final(self).selected == old(self).selected,
            final(self).keyed@.len() == old(self).keyed@.len(),
            forall|j: int| 0 <= j < old(self).keyed@.len() && j != i ==> final(self).keyed@[j] == old(self).keyed@[j],
            final(self).keyed@[i as int].key == old(self).keyed@[i as int].key,
            final(self).keyed@[i as int].flag.spec_id() == old(self).keyed@[i as int].flag.spec_id(),
            final(self).keyed@[i as int].flag.spec_value() == value,
            id == old(self).keyed@[i as int].flag.spec_id(),
    {
        let mut entry = self.keyed.remove(i);
        entry.flag.set_silent(value);
        let id = entry.flag.id();
        self.keyed.insert(i, entry);
        id
    }

    /// Overwrite the flag of `key`, if it has one, recording its identity in
    /// `ids`.
    fn write_key_flag(&mut self, key: u64, value: bool, ids: &mut Vec<SignalId>)
        requires
            old(self).keyed_keys().no_duplicates(),
        ensures
            final(self).selected == old(self).selected,
            final(self).keyed@.len() == old(self).keyed@.len(),
            final(self).keyed_keys() == old(self).keyed_keys(),
            forall|j: int|
                0 <= j < old(self).keyed@.len() ==> (#[trigger] final(self).keyed@[j]).key == old(self).keyed@[j].key
                    && final(self).keyed@[j].flag.spec_id() == old(self).keyed@[j].flag.spec_id()
                    && final(self).keyed@[j].flag.spec_value() == if old(self).keyed@[j].key == key {
                    value
                } else {
                    old(self).keyed@[j].flag.spec_value()
                },
            final(ids)@.to_set() == old(ids)@.to_set().union(old(self).flag_ids(Some(key))),
    {
        match self.find_flag(key) {
            Some(i) => {
                let id = self.write_flag(i, value);
                push_id(ids, id);
                proof {
                    old(self).lemma_flag(i as int);
                    assert(self.keyed_keys() =~= old(self).keyed_keys());
                    assert forall|j: int| 0 <= j < old(self).keyed@.len() && j != i implies old(self).keyed@[j].key != key by {
                        old(self).lemma_flag(j);
                    }
                    assert(old(self).flag_ids(Some(key)) =~= Set::empty().insert(id));
                    assert(ids@.to_set() =~= old(ids)@.to_set().union(old(self).flag_ids(Some(key))));
                }
            },
            None => {
                proof {
                    assert(old(self).flag_ids(Some(key)) =~= Set::empty());
                    assert(old(ids)@.to_set().union(Set::empty()) =~= old(ids)@.to_set());
                    assert forall|j: int| 0 <= j < old(self).keyed@.len() implies old(self).keyed@[j].key != key by {
                        assert(old(self).keyed_keys()[j] == old(self).keyed@[j].key);
                    }
                }
            },
        }
    }

    /// Store the selection and correct the flags of the previous and the new
    /// key without notifying; returns the signals written.
    pub(crate) fn apply(&mut self, selected: Option<u64>) -> (ids: Vec<SignalId>)
        requires
            old(self).wf(),
        ensures
            final(self).wf(),
            final(self).spec_selected() == selected,
            final(self).same_signals(old(self)),
            ids@.to_set() == old(self).touched(old(self).spec_selected(), selected),
    {
        let previous = *self.selected.peek();
        let mut ids: Vec<SignalId> = Vec::new();
        if previous == selected {
            proof {
                assert(ids@.to_set() =~= Set::<SignalId>::empty());
            }
            return ids;
        }
        push_id(&mut ids, self.selected.id());
        proof {
            assert(ids@.to_set() =~= Set::empty().insert(old(self).spec_id()));
        }
        self.selected.set_silent(selected);
        proof {
            assert(self.keyed_keys() == old(self).keyed_keys());
        }
        let ghost start = self.keyed@;
        if let Some(p) = previous {
            self.write_key_flag(p, false, &mut ids);
        } else {
            proof {
                assert(old(self).flag_ids(previous) =~= Set::empty());
                assert(ids@.to_set() =~= ids@.to_set().union(Set::empty()));
            }
        }
        let ghost mid = self.keyed@;
        let ghost mid_state = *self;
        proof {
            if let Some(k) = selected {
                assert(mid_state.keyed_keys() == old(self).keyed_keys());
                if old(self).keyed_keys().contains(k) {
                    let idx = old(self).keyed_keys().index_of_first(k)->0;
                    old(self).keyed_keys().index_of_first_ensures(k);
                    assert(mid[idx].flag.spec_id() == start[idx].flag.spec_id());
                }
                assert(mid_state.flag_ids(selected) == old(self).flag_ids(selected));
            }
        }
        if let Some(k) = selected {
            self.write_key_flag(k, true, &mut ids);
        } else {
            proof {
                assert(old(self).flag_ids(selected) =~= Set::empty());
                assert(ids@.to_set() =~= ids@.to_set().union(Set::empty()));
            }
        }
        proof {
            assert(self.keyed@.len() == start.len());
            assert forall|j: int| 0 <= j < self.keyed@.len() implies (#[trigger] self.keyed@[j]).flag.spec_value() == (
            self.selected.spec_value() == Some(self.keyed@[j].key)) by {
                assert(mid[j].key == start[j].key);
                assert(start[j] == old(self).keyed@[j]);
            }
            assert forall|k: u64| self.keyed_keys().contains(k) implies self.flag_id(k) == old(self).flag_id(k) by {
                let j = choose|j: int| 0 <= j < self.keyed_keys().len() && self.keyed_keys()[j] == k;
                assert(mid[j].key == start[j].key);
                self.lemma_flag(j);
                old(self).lemma_flag(j);
            }
            assert(ids@.to_set() =~= old(self).touched(previous, selected));
        }
        ids
    }

    /// Set the selected key. Readers of the selection and of the previous and
    /// next keys' flags are woken as one batch; setting the current key wakes
    /// nobody.
    pub fn set(&mut self, rt: &mut ReactiveRuntime, selected: Option<u64>) -> (n: SignalNotifications)
        requires
            old(rt).wf(),
            old(self).wf(),
        ensures
            final(rt).wf(),
            final(self).wf(),
            final(self).spec_selected() == selected,
            final(self).same_signals(old(self)),
            old(rt)@.wrote(final(rt)@, old(self).touched(old(self).spec_selected(), selected), n),
    {
        let ids = self.apply(selected);
        rt.notify_all(&ids)
    }

    /// Select a key.
    pub fn select(&mut self, rt: &mut ReactiveRuntime, key: u64) -> (n: SignalNotifications)
        requires
            old(rt).wf(),
            old(self).wf(),
        ensures
            final(rt).wf(),
            final(self).wf(),
            final(self).spec_selected() == Some(key),
            final(self).same_signals(old(self)),
            old(rt)@.wrote(final(rt)@, old(self).touched(old(self).spec_selected(), Some(key)), n),
    {
        self.set(rt, Some(key))
    }

    /// Clear the current selection.
    pub fn clear(&mut self, rt: &mut ReactiveRuntime) -> (n: SignalNotifications)
        requires
            old(rt).wf(),
            old(self).wf(),
        ensures
            final(rt).wf(),
            final(self).wf(),
            final(self).spec_selected() == None::<u64>,
            final(self).same_signals(old(self)),
            old(rt)@.wrote(final(rt)@, old(self).touched(old(self).spec_selected(), None), n),
    {
        self.set(rt, None)
    }

    /// Select the next (`forward`) or previous key of `keys`.
    fn select_relative(&mut self, rt: &mut ReactiveRuntime, keys: &Vec<u64>, forward: bool) -> (r: (
        bool,
        SignalNotifications,
    ))
        requires
            old(rt).wf(),
            old(self).wf(),
        ensures
            final(rt).wf(),
            final(self).wf(),
            final(self).spec_selected() == step_target(keys@, old(self).spec_selected(), forward),
            r.0 == (final(self).spec_selected() != old(self).spec_selected()),
            final(self).same_signals(old(self)),
            old(rt)@.wrote(
                final(rt)@,
                old(self).touched(old(self).spec_selected(), final(self).spec_selected()),
                r.1,
            ),
    {
        let current = *self.selected.peek();
        let target = relative_key(keys, current, forward);
        let changed = current != target;
        let n = self.set(rt, target);
        (changed, n)
    }

    /// Select the next key from an ordered key set, wrapping around.
    ///
    /// When the current selection is missing from `keys`, this selects the
    /// first key. When `keys` is empty, this clears the selection. Returns
    /// whether the selected key changed.
    pub fn select_next(&mut self, rt: &mut ReactiveRuntime, keys: &Vec<u64>) -> (r: (
        bool,
        SignalNotifications,
    ))
        requires
            old(rt).wf(),
            old(self).wf(),
        ensures
            final(rt).wf(),
            final(self).wf(),
            final(self).spec_selected() == step_target(keys@, old(self).spec_selected(), true),
            r.0 == (final(self).spec_selected() != old(self).spec_selected()),
            final(self).same_signals(old(self)),
            old(rt)@.wrote(
                final(rt)@,
                old(self).touched(old(self).spec_selected(), final(self).spec_selected()),
                r.1,
            ),
    {
        self.select_relative(rt, keys, true)
    }

    /// Select the previous key from an ordered key set, wrapping around.
    ///
    /// When the current selection is missing from `keys`, this selects the
    /// last key. When `keys` is empty, this clears the selection. Returns
    /// whether the selected key changed.
    pub fn select_previous(&mut self, rt: &mut ReactiveRuntime, keys: &Vec<u64>) -> (r: (
        bool,
        SignalNotifications,
    ))
        requires
            old(rt).wf(),
            old(self).wf(),
        ensures
            final(rt).wf(),
            final(self).wf(),
            final(self).spec_selected() == step_target(keys@, old(self).spec_selected(), false),
            r.0 == (final(self).spec_selected() != old(self).spec_selected()),
            final(self).same_signals(old(self)),
            old(rt)@.wrote(
                final(rt)@,
                old(self).touched(old(self).spec_selected(), final(self).spec_selected()),
                r.1,
            ),
    {
        self.select_relative(rt, keys, false)
    }

    /// Select the first key of an ordered key set; an empty set clears the
    /// selection. Returns whether the selected key changed.
    pub fn select_first(&mut self, rt: &mut ReactiveRuntime, keys: &Vec<u64>) -> (r: (
        bool,
        SignalNotifications,
    ))
        requires
            old(rt).wf(),
            old(self).wf(),
        ensures
            final(rt).wf(),
            final(self).wf(),
            final(self).spec_selected() == boundary_target(keys@, true),
            r.0 == (final(self).spec_selected() != old(self).spec_selected()),
            final(self).same_signals(old(self)),
            old(rt)@.wrote(
                final(rt)@,
                old(self).touched(old(self).spec_selected(), final(self).spec_selected()),
                r.1,
            ),
    {
        let target = boundary_key(keys, true);
        let changed = *self.selected.peek() != target;
        let n = self.set(rt, target);
        (changed, n)
    }

    /// Select the last key of an ordered key set; an empty set clears the
    /// selection. Returns whether the selected key changed.
    pub fn select_last(&mut self, rt: &mut ReactiveRuntime, keys: &Vec<u64>) -> (r: (
        bool,
        SignalNotifications,
    ))
        requires
            old(rt).wf(),
            old(self).wf(),
        ensures
            final(rt).wf(),
            final(self).wf(),
            final(self).spec_selected() == boundary_target(keys@, false),
            r.0 == (final(self).spec_selected() != old(self).spec_selected()),
            final(self).same_signals(old(self)),
            old(rt)@.wrote(
                final(rt)@,
                old(self).touched(old(self).spec_selected(), final(self).spec_selected()),
                r.1,
            ),
    {
        let target = boundary_key(keys, false);
        let changed = *self.selected.peek() != target;
        let n = self.set(rt, target);
        (changed, n)
    }

    /// Drop the flag signals of keys not in `keys`. The selected key itself
    /// is unchanged.
    pub fn retain_keys(&mut self, keys: &Vec<u64>)
        requires
            old(self).wf(),
        ensures
            final(self).wf(),
            final(self).spec_selected() == old(self).spec_selected(),
            final(self).spec_id() == old(self).spec_id(),
            final(self).keyed_keys().to_set() == old(self).keyed_keys().to_set().intersect(keys@.to_set()),
            forall|k: u64| #[trigger] final(self).keyed_keys().contains(k) ==> final(self).flag_id(k) == old(self).flag_id(k),
    {
        let ghost start = self.keyed@;
        let mut kept: Vec<KeyFlag> = Vec::new();
        while self.keyed.len() > 0
            invariant
                old(self).wf(),
                start == old(self).keyed@,
                self.keyed@.len() <= start.len(),
                self.keyed@ == start.subrange(start.len() - self.keyed@.len(), start.len() as int),
                self.selected == old(self).selected,
                kept@.map_values(|f: KeyFlag| f.key).no_duplicates(),
                forall|j: int| 0 <= j < kept@.len() ==> (#[trigger] kept@[j]).flag.spec_value() == (
                    self.selected.spec_value() == Some(kept@[j].key)),
                forall|j: int| 0 <= j < kept@.len() ==> keys@.contains((#[trigger] kept@[j]).key),
                forall|j: int| 0 <= j < kept@.len() ==> exists|mm: int| 0 <= mm < start.len() - self.keyed@.len() && start[mm] == #[trigger] kept@[j],
                forall|mm: int| 0 <= mm < start.len() - self.keyed@.len() && keys@.contains(start[mm].key) ==> exists|j: int| 0 <= j < kept@.len() && #[trigger] kept@[j] == start[mm],
            decreases self.keyed.len(),
        {
            let entry = self.keyed.remove(0);
            let ghost m = start.len() - self.keyed@.len() - 1;
            let ghost before = kept@;
            proof {
                assert(entry == start[m]);
                assert(self.keyed@ =~= start.subrange(start.len() - self.keyed@.len(), start.len() as int));
            }
            if contains_key(keys, entry.key) {
                proof {
                    assert forall|j: int| 0 <= j < kept@.len() implies kept@[j].key != entry.key by {
                        let mm = choose|mm: int| 0 <= mm < m && start[mm] == kept@[j];
                        old(self).lemma_flag(mm);
                        old(self).lemma_flag(m);
                    }
                    lemma_keys_push(kept@, entry);
                }
                kept.push(entry);
                proof {
                    assert forall|j: int| 0 <= j < kept@.len() implies exists|mm: int| 0 <= mm < m + 1 && start[mm] == #[trigger] kept@[j] by {
                        if j < before.len() {
                            let mm = choose|mm: int| 0 <= mm < m && start[mm] == before[j];
                            assert(start[mm] == kept@[j]);
                        } else {
                            assert(start[m] == kept@[j]);
                        }
                    }
                    assert forall|mm: int| 0 <= mm < m + 1 && keys@.contains(start[mm].key) implies exists|j: int| 0 <= j < kept@.len() && #[trigger] kept@[j] == start[mm] by {
                        if mm < m {
                            let j = choose|j: int| 0 <= j < before.len() && before[j] == start[mm];
                            assert(kept@[j] == start[mm]);
                        } else {
                            assert(kept@[before.len() as int] == start[mm]);
                        }
                    }
                }
            } else {
                proof {
                    assert forall|j: int| 0 <= j < kept@.len() implies exists|mm: int| 0 <= mm < m + 1 && start[mm] == #[trigger] kept@[j] by {
                        let mm = choose|mm: int| 0 <= mm < m && start[mm] == before[j];
                    }
                }
            }
        }
        self.keyed = kept;
        proof {
            assert forall|j: int| 0 <= j < self.keyed@.len() implies (#[trigger] self.keyed@[j]).flag.spec_value() == (
            self.selected.spec_value() == Some(self.keyed@[j].key)) by {}
            assert forall|k: u64| self.keyed_keys().to_set().contains(k) <==> old(self).keyed_keys().to_set().intersect(keys@.to_set()).contains(k) by {
                if self.keyed_keys().contains(k) {
                    let j = choose|j: int| 0 <= j < self.keyed_keys().len() && self.keyed_keys()[j] == k;
                    let m = choose|m: int| 0 <= m < start.len() && start[m] == self.keyed@[j];
                    assert(old(self).keyed_keys()[m] == k);
                }
                if old(self).keyed_keys().contains(k) && keys@.contains(k) {
                    let m = choose|m: int| 0 <= m < old(self).keyed_keys().len() && old(self).keyed_keys()[m] == k;
                    let j = choose|j: int| 0 <= j < self.keyed@.len() && self.keyed@[j] == start[m];
                    assert(self.keyed_keys()[j] == k);
                }
            }
            assert(self.keyed_keys().to_set() =~= old(self).keyed_keys().to_set().intersect(keys@.to_set()));
            assert forall|k: u64| final(self).keyed_keys().contains(k) implies final(self).flag_id(k) == old(self).flag_id(k) by {
                let j = choose|j: int| 0 <= j < self.keyed_keys().len() && self.keyed_keys()[j] == k;
                let m = choose|m: int| 0 <= m < start.len() && start[m] == self.keyed@[j];
                self.lemma_flag(j);
                old(self).lemma_flag(m);
            }
        }
    }

    /// Reconcile with the currently available keys: clear a selected key that
    /// is no longer present, then drop the flags of removed keys. Returns
    /// whether the selection was cleared.
    pub fn reconcile_keys(&mut self, rt: &mut ReactiveRuntime, keys: &Vec<u64>) -> (r: (
        bool,
        SignalNotifications,
    ))
        requires
            old(rt).wf(),
            old(self).wf(),
        ensures
            final(rt).wf(),
            final(self).wf(),
            final(self).spec_selected() == reconciled(keys@, old(self).spec_selected(), false),
            r.0 == (final(self).spec_selected() != old(self).spec_selected()),
            final(self).spec_id() == old(self).spec_id(),
            final(self).keyed_keys().to_set() == old(self).keyed_keys().to_set().intersect(keys@.to_set()),
            old(rt)@.wrote(
                final(rt)@,
                old(self).touched(old(self).spec_selected(), final(self).spec_selected()),
                r.1,
            ),
    {
        self.reconcile(rt, keys, false)
    }

    /// Reconcile with the currently available keys, selecting the first key
    /// when the selected key is missing (or clearing when `keys` is empty),
    /// then drop the flags of removed keys. Returns whether the selection
    /// changed.
    pub fn reconcile_or_select_first(&mut self, rt: &mut ReactiveRuntime, keys: &Vec<u64>) -> (r: (
        bool,
        SignalNotifications,
    ))
        requires
            old(rt).wf(),
            old(self).wf(),
        ensures
            final(rt).wf(),
            final(self).wf(),
            final(self).spec_selected() == reconciled(keys@, old(self).spec_selected(), true),
            r.0 == (final(self).spec_selected() != old(self).spec_selected()),
            final(self).spec_id() == old(self).spec_id(),
            final(self).keyed_keys().to_set() == old(self).keyed_keys().to_set().intersect(keys@.to_set()),
            old(rt)@.wrote(
                final(rt)@,
                old(self).touched(old(self).spec_selected(), final(self).spec_selected()),
                r.1,
            ),
    {
        self.reconcile(rt, keys, true)
    }

    fn reconcile(&mut self, rt: &mut ReactiveRuntime, keys: &Vec<u64>, select_first: bool) -> (r: (
        bool,
        SignalNotifications,
    ))
        requires
            old(rt).wf(),
            old(self).wf(),
        ensures
            final(rt).wf(),
            final(self).wf(),
            final(self).spec_selected() == reconciled(keys@, old(self).spec_selected(), select_first),
            r.0 == (final(self).spec_selected() != old(self).spec_selected()),
            final(self).spec_id() == old(self).spec_id(),
            final(self).keyed_keys().to_set() == old(self).keyed_keys().to_set().intersect(keys@.to_set()),
            old(rt)@.wrote(
                final(rt)@,
                old(self).touched(old(self).spec_selected(), final(self).spec_selected()),
                r.1,
            ),
    {
        let (changed, ids) = self.reconcile_silent(keys, select_first);
        let n = rt.notify_all(&ids);
        (changed, n)
    }

    /// Reconcile without notifying; returns whether the selection changed
    /// and the signals written.
    pub(crate) fn reconcile_silent(&mut self, keys: &Vec<u64>, select_first: bool) -> (r: (bool, Vec<SignalId>))
        requires
            old(self).wf(),
        ensures
            final(self).wf(),
            final(self).spec_selected() == reconciled(keys@, old(self).spec_selected(), select_first),
            r.0 == (final(self).spec_selected() != old(self).spec_selected()),
            final(self).spec_id() == old(self).spec_id(),
            final(self).keyed_keys().to_set() == old(self).keyed_keys().to_set().intersect(keys@.to_set()),
            r.1@.to_set() == old(self).touched(old(self).spec_selected(), final(self).spec_selected()),
    {
        let current = *self.selected.peek();
        let target = reconciled_key(keys, current, select_first);
        let changed = current != target;
        let ids = self.apply(target);
        let ghost mid = self.keyed_keys();
        self.retain_keys(keys);
        proof {
            assert(mid == old(self).keyed_keys());
        }
        (changed, ids)
    }

    /// Select the next key of an ordered item collection; `key` maps each
    /// item to its selection key. Same as [`Selector::select_next`] on the
    /// mapped keys.
    pub fn select_next_by<T, F: Fn(&T) -> u64>(
        &mut self,
        rt: &mut ReactiveRuntime,
        items: &Vec<T>,
        key: F,
    ) -> (r: (bool, SignalNotifications))
        requires
            old(rt).wf(),
            old(self).wf(),
            keys_callable(items@, key),
        ensures
            final(rt).wf(),
            final(self).wf(),
            exists|ks: Seq<u64>|
                keys_of(items@, key, ks) && final(self).spec_selected() == step_target(
                    ks,
                    old(self).spec_selected(),
                    true,
                ),
            r.0 == (final(self).spec_selected() != old(self).spec_selected()),
            final(self).same_signals(old(self)),
            old(rt)@.wrote(
                final(rt)@,
                old(self).touched(old(self).spec_selected(), final(self).spec_selected()),
                r.1,
            ),
    {
        let ks = collect_keys(items, &key);
        self.select_next(rt, &ks)
    }

    /// Select the previous key of an ordered item collection; `key` maps
    /// each item to its selection key. Same as [`Selector::select_previous`]
    /// on the mapped keys.
    pub fn select_previous_by<T, F: Fn(&T) -> u64>(
        &mut self,
        rt: &mut ReactiveRuntime,
        items: &Vec<T>,
        key: F,
    ) -> (r: (bool, SignalNotifications))
        requires
            old(rt).wf(),
            old(self).wf(),
            keys_callable(items@, key),
        ensures
            final(rt).wf(),
            final(self).wf(),
            exists|ks: Seq<u64>|
                keys_of(items@, key, ks) && final(self).spec_selected() == step_target(
                    ks,
                    old(self).spec_selected(),
                    false,
                ),
            r.0 == (final(self).spec_selected() != old(self).spec_selected()),
            final(self).same_signals(old(self)),
            old(rt)@.wrote(
                final(rt)@,
                old(self).touched(old(self).spec_selected(), final(self).spec_selected()),
                r.1,
            ),
    {
        let ks = collect_keys(items, &key);
        self.select_previous(rt, &ks)
    }

    /// Select the first key of an ordered item collection; `key` maps each
    /// item to its selection key.
    pub fn select_first_by<T, F: Fn(&T) -> u64>(
        &mut self,
        rt: &mut ReactiveRuntime,
        items: &Vec<T>,
        key: F,
    ) -> (r: (bool, SignalNotifications))
        requires
            old(rt).wf(),
            old(self).wf(),
            keys_callable(items@, key),
        ensures
            final(rt).wf(),
            final(self).wf(),
            exists|ks: Seq<u64>|
                keys_of(items@, key, ks) && final(self).spec_selected() == boundary_target(ks, true),
            r.0 == (final(self).spec_selected() != old(self).spec_selected()),
            final(self).same_signals(old(self)),
            old(rt)@.wrote(
                final(rt)@,
                old(self).touched(old(self).spec_selected(), final(self).spec_selected()),
                r.1,
            ),
    {
        let ks = collect_keys(items, &key);
        self.select_first(rt, &ks)
    }

    /// Select the last key of an ordered item collection; `key` maps each
    /// item to its selection key.
    pub fn select_last_by<T, F: Fn(&T) -> u64>(
        &mut self,
        rt: &mut ReactiveRuntime,
        items: &Vec<T>,
        key: F,
    ) -> (r: (bool, SignalNotifications))
        requires
            old(rt).wf(),
            old(self).wf(),
            keys_callable(items@, key),
        ensures
            final(rt).wf(),
            final(self).wf(),
            exists|ks: Seq<u64>|
                keys_of(items@, key, ks) && final(self).spec_selected() == boundary_target(ks, false),
            r.0 == (final(self).spec_selected() != old(self).spec_selected()),
            final(self).same_signals(old(self)),
            old(rt)@.wrote(
                final(rt)@,
                old(self).touched(old(self).spec_selected(), final(self).spec_selected()),
                r.1,
            ),
    {
        let ks = collect_keys(items, &key);
        self.select_last(rt, &ks)
    }

    /// Drop the flag signals of item keys that are no longer relevant; `key`
    /// maps each item to its selection key. The selected key is unchanged.
    pub fn retain_keys_by<T, F: Fn(&T) -> u64>(&mut self, items: &Vec<T>, key: F)
        requires
            old(self).wf(),
            keys_callable(items@, key),
        ensures
            final(self).wf(),
            final(self).spec_selected() == old(self).spec_selected(),
            final(self).spec_id() == old(self).spec_id(),
            exists|ks: Seq<u64>|
                keys_of(items@, key, ks) && final(self).keyed_keys().to_set()
                    == old(self).keyed_keys().to_set().intersect(ks.to_set()),
            forall|k: u64| #[trigger] final(self).keyed_keys().contains(k) ==> final(self).flag_id(k) == old(self).flag_id(k),
    {
        let ks = collect_keys(items, &key);
        self.retain_keys(&ks);
    }

    /// Reconcile with the currently available item keys; `key` maps each
    /// item to its selection key. Same as [`Selector::reconcile_keys`] on the
    /// mapped keys.
    pub fn reconcile_keys_by<T, F: Fn(&T) -> u64>(
        &mut self,
        rt: &mut ReactiveRuntime,
        items: &Vec<T>,
        key: F,
    ) -> (r: (bool, SignalNotifications))
        requires
            old(rt).wf(),
            old(self).wf(),
            keys_callable(items@, key),
        ensures
            final(rt).wf(),
            final(self).wf(),
            exists|ks: Seq<u64>|
                keys_of(items@, key, ks) && final(self).spec_selected() == reconciled(
                    ks,
                    old(self).spec_selected(),
                    false,
                ) && final(self).keyed_keys().to_set() == old(self).keyed_keys().to_set().intersect(
                    ks.to_set(),
                ),
            r.0 == (final(self).spec_selected() != old(self).spec_selected()),
            final(self).spec_id() == old(self).spec_id(),
            old(rt)@.wrote(
                final(rt)@,
                old(self).touched(old(self).spec_selected(), final(self).spec_selected()),
                r.1,
            ),
    {
        let ks = collect_keys(items, &key);
        self.reconcile_keys(rt, &ks)
    }

    /// Drop all per-key flag signals. The selected key itself is unchanged.
    pub fn clear_keyed_signals(&mut self)
        ensures
            final(self).wf(),
            final(self).spec_selected() == old(self).spec_selected(),
            final(self).spec_id() == old(self).spec_id(),
            final(self).keyed_keys().len() == 0,
    {
        self.keyed = Vec::new();
        proof {
            assert(self.keyed_keys() =~= Seq::<u64>::empty());
        }
    }
}

proof fn lemma_keys_push(kept: Seq<KeyFlag>, entry: KeyFlag)
    requires
        kept.map_values(|f: KeyFlag| f.key).no_duplicates(),
        forall|j: int| 0 <= j < kept.len() ==> kept[j].key != entry.key,
    ensures
        kept.push(entry).map_values(|f: KeyFlag| f.key).no_duplicates(),
{
    let ks = kept.map_values(|f: KeyFlag| f.key);
    assert(kept.push(entry).map_values(|f: KeyFlag| f.key) =~= ks.push(entry.key));
    assert forall|i: int, j: int|
        0 <= i < ks.push(entry.key).len() && 0 <= j < ks.push(entry.key).len() && i != j implies ks.push(
        entry.key,
    )[i] != ks.push(entry.key)[j] by {
        if i < ks.len() && j < ks.len() {
        } else if i == ks.len() {
            assert(ks.push(entry.key)[j] == kept[j].key);
        } else {
            assert(ks.push(entry.key)[i] == kept[i].key);
        }
    }
}

} // verus!
