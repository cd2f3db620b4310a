//! Selected item projections for selector-backed collections.
//!
//! A collection held in a [`Signal`] or a [`Memo`] plus a [`Selector`]
//! yields the currently selected item as a memo. The memo's effect depends
//! on the selection and on the collection; whenever the host runs it, it
//! stores [`selected_item`] of the current collection and selection with
//! [`Memo::refresh`].
use vstd::prelude::*;

use crate::memo::Memo;
use crate::runtime::{EffectId, ObserverId, ReactiveRuntime, RuntimeView, SignalId};
use crate::selector::{Selector, collect_keys, keys_callable, keys_of};
use crate::signal::Signal;

verus! {

/// The position of the selected item among items with keys `ks`: the first
/// item whose key is `selected`; when there is none, the first item if
/// `or_first`, else nothing.
pub open spec fn selected_position(ks: Seq<u64>, selected: Option<u64>, or_first: bool) -> Option<int> {
    if selected is Some && ks.contains(selected->0) {
        ks.index_of_first(selected->0)
    } else if or_first && ks.len() > 0 {
        Some(0)
    } else {
        None
    }
}

/// `r` is a copy of the item at `position`, or nothing when there is none.
pub open spec fn item_at<T: Clone>(items: Seq<T>, position: Option<int>, r: Option<T>) -> bool {
    match position {
        Some(i) => r is Some && cloned(items[i], r->0),
        None => r is None,
    }
}

/// What creating a projection memo `m` of `items` (signal `items_id`) under
/// the selection `selected` (signal `selection_id`) does: `m` holds the
/// selected item, and a new effect that depends on both signals recomputes
/// it.
pub open spec fn projected<T: Clone, F: Fn(&T) -> u64>(
    pre: RuntimeView,
    post: RuntimeView,
    m: Memo<Option<T>>,
    items: Seq<T>,
    items_id: SignalId,
    selected: Option<u64>,
    selection_id: SignalId,
    key: F,
    or_first: bool,
) -> bool {
    &&& exists|ks: Seq<u64>|
        keys_of(items, key, ks) && item_at(items, selected_position(ks, selected, or_first), m.spec_value())
    &&& m.spec_id() == SignalId(pre.next_signal)
    &&& m.spec_effect() == Some(EffectId(pre.next_effect))
    &&& post == RuntimeView {
        next_signal: (pre.next_signal + 1) as u64,
        next_effect: (pre.next_effect + 1) as u64,
        effects: pre.effects.insert(EffectId(pre.next_effect)),
        graph: pre.graph_with_deps(ObserverId::Effect(EffectId(pre.next_effect)), set![selection_id, items_id]),
        ..pre
    }
}

/// The index of the selected item among items with keys `ks`.
pub fn selected_index(ks: &Vec<u64>, selected: Option<u64>, or_first: bool) -> (r: Option<usize>)
    ensures
        match r {
            Some(i) => i < ks@.len() && selected_position(ks@, selected, or_first) == Some(i as int),
            None => selected_position(ks@, selected, or_first) is None,
        },
{
    if let Some(k) = selected {
        proof {
            ks@.index_of_first_ensures(k);
        }
        let mut i: usize = 0;
        while i < ks.len()
            invariant
                i <= ks.len(),
                selected == Some(k),
                forall|j: int| 0 <= j < i ==> ks@[j] != k,
                match ks@.index_of_first(k) {
                    Some(index) => {
                        &&& 0 <= index < ks@.len()
                        &&& ks@[index] == k
                        &&& forall|j: int| 0 <= j < index < ks@.len() ==> ks@[j] != k
                    },
                    None => !ks@.contains(k),
                },
            decreases ks.len() - i,
        {
            if ks[i] == k {
                proof {
                    assert(ks@.contains(k));
                }
                return Some(i);
            }
            i = i + 1;
        }
    }
    if or_first && ks.len() > 0 {
        Some(0)
    } else {
        None
    }
}

/// The item whose key is `selected`; when no item has it, the first item if
/// `or_first`, else `None`.
pub fn selected_item<T: Clone, F: Fn(&T) -> u64>(
    items: &Vec<T>,
    selected: Option<u64>,
    key: &F,
    or_first: bool,
) -> (r: Option<T>)
    requires
        keys_callable(items@, *key),
    ensures
        exists|ks: Seq<u64>|
            keys_of(items@, *key, ks) && item_at(items@, selected_position(ks, selected, or_first), r),
{
    let ks = collect_keys(items, key);
    match selected_index(&ks, selected, or_first) {
        Some(i) => Some(items[i].clone()),
        None => None,
    }
}

impl<T: Clone> Signal<Vec<T>> {
    /// A memo of the item matching the selector's current key (`None` when
    /// no item has it). Its effect depends on the selection and on this
    /// collection.
    pub fn selected_by<F: Fn(&T) -> u64>(&self, rt: &mut ReactiveRuntime, selector: &Selector, key: F) -> (m:
        Memo<Option<T>>)
        requires
            old(rt).wf(),
            old(rt)@.next_signal < u64::MAX,
            old(rt)@.next_effect < u64::MAX,
            keys_callable(self.spec_value()@, key),
        ensures
            final(rt).wf(),
            projected(
                old(rt)@,
                final(rt)@,
                m,
                self.spec_value()@,
                self.spec_id(),
                selector.spec_selected(),
                selector.spec_id(),
                key,
                false,
            ),
    {
        let initial = selected_item(self.peek(), selector.get_untracked(), &key, false);
        project(rt, initial, selector.selected_signal().id(), self.id())
    }

    /// A memo of the item matching the selector's current key, falling back
    /// to the first item when the selector is empty or points at a missing
    /// key.
    pub fn selected_by_or_first<F: Fn(&T) -> u64>(
        &self,
        rt: &mut ReactiveRuntime,
        selector: &Selector,
        key: F,
    ) -> (m: Memo<Option<T>>)
        requires
            old(rt).wf(),
            old(rt)@.next_signal < u64::MAX,
            old(rt)@.next_effect < u64::MAX,
            keys_callable(self.spec_value()@, key),
        ensures
            final(rt).wf(),
            projected(
                old(rt)@,
                final(rt)@,
                m,
                self.spec_value()@,
                self.spec_id(),
                selector.spec_selected(),
                selector.spec_id(),
                key,
                true,
            ),
    {
        let initial = selected_item(self.peek(), selector.get_untracked(), &key, true);
        project(rt, initial, selector.selected_signal().id(), self.id())
    }
}

impl<T: Clone> Memo<Vec<T>> {
    /// A memo of the item matching the selector's current key (`None` when
    /// no item has it). Its effect depends on the selection and on this
    /// memo.
    pub fn selected_by<F: Fn(&T) -> u64>(&self, rt: &mut ReactiveRuntime, selector: &Selector, key: F) -> (m:
        Memo<Option<T>>)
        requires
            old(rt).wf(),
            old(rt)@.next_signal < u64::MAX,
            old(rt)@.next_effect < u64::MAX,
            keys_callable(self.spec_value()@, key),
        ensures
            final(rt).wf(),
            projected(
                old(rt)@,
                final(rt)@,
                m,
                self.spec_value()@,
                self.spec_id(),
                selector.spec_selected(),
                selector.spec_id(),
                key,
                false,
            ),
    {
        let initial = selected_item(self.signal().peek(), selector.get_untracked(), &key, false);
        project(rt, initial, selector.selected_signal().id(), self.signal().id())
    }

    /// A memo of the item matching the selector's current key, falling back
    /// to the first item when the selector is empty or points at a missing
    /// key.
    pub fn selected_by_or_first<F: Fn(&T) -> u64>(
        &self,
        rt: &mut ReactiveRuntime,
        selector: &Selector,
        key: F,
    ) -> (m: Memo<Option<T>>)
        requires
            old(rt).wf(),
            old(rt)@.next_signal < u64::MAX,
            old(rt)@.next_effect < u64::MAX,
            keys_callable(self.spec_value()@, key),
        ensures
            final(rt).wf(),
            projected(
                old(rt)@,
                final(rt)@,
                m,
                self.spec_value()@,
                self.spec_id(),
                selector.spec_selected(),
                selector.spec_id(),
                key,
                true,
            ),
    {
        let initial = selected_item(self.signal().peek(), selector.get_untracked(), &key, true);
        project(rt, initial, selector.selected_signal().id(), self.signal().id())
    }
}

/// A memo holding `initial` whose effect depends on `selection` and `items`.
fn project<V>(rt: &mut ReactiveRuntime, initial: V, selection: SignalId, items: SignalId) -> (m: Memo<V>)
    requires
        old(rt).wf(),
        old(rt)@.next_signal < u64::MAX,
        old(rt)@.next_effect < u64::MAX,
    ensures
        final(rt).wf(),
        m.spec_value() == initial,
        m.spec_id() == SignalId(old(rt)@.next_signal),
        m.spec_effect() == Some(EffectId(old(rt)@.next_effect)),
        final(rt)@ == (RuntimeView {
            next_signal: (old(rt)@.next_signal + 1) as u64,
            next_effect: (old(rt)@.next_effect + 1) as u64,
            effects: old(rt)@.effects.insert(EffectId(old(rt)@.next_effect)),
            graph: old(rt)@.graph_with_deps(
                ObserverId::Effect(EffectId(old(rt)@.next_effect)),
                set![selection, items],
            ),
            ..old(rt)@
        }),
{
    let m = Memo::new(rt, initial);
    let effect = EffectId(rt.next_effect_id() - 1);
    let mut deps: Vec<SignalId> = Vec::new();
    deps.push(selection);
    deps.push(items);
    proof {
        assert forall|x: SignalId| deps@.to_set().contains(x) <==> set![selection, items].contains(x) by {
            if x == selection {
                assert(deps@[0] == x);
            }
            if x == items {
                assert(deps@[1] == x);
            }
        }
        assert(deps@.to_set() =~= set![selection, items]);
    }
    rt.replace_effect_dependencies(effect, deps);
    m
}

} // verus!
