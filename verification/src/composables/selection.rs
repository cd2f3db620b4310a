//! Selection models.
//!
//! A [`SelectionModel`] is a [`Selector`] together with a derived "has a
//! selection" flag. An [`OrderedSelectionModel`] also keeps the latest
//! ordered key snapshot of its source and reconciles the selection against
//! every new snapshot according to a [`SelectionReconcilePolicy`]; the host
//! evaluates the source under the model's effect and hands each snapshot to
//! [`OrderedSelectionModel::set_ordered_keys`].
use vstd::prelude::*;

use crate::effect::{Effect, effect};
use crate::key_vec::{copy_keys, push_id, same_keys};
use crate::memo::Memo;
use crate::runtime::{ReactiveRuntime, RuntimeView, SignalId, SignalNotifications};
use crate::selected_item::projected;
use crate::selector::{
    Selector, boundary_key, boundary_target, keys_callable, reconciled, reconciled_key, relative_key,
    step_target,
};
use crate::signal::Signal;

verus! {

broadcast use {vstd::seq_lib::group_seq_properties, vstd::set_lib::group_set_properties};

/// Policy for reconciling a selection against the latest ordered keys.
#[derive(Debug, Clone, Copy, PartialEq, Eq, Structural)]
pub enum SelectionReconcilePolicy {
    /// Clear the selection when the selected key is no longer available.
    Clear,
    /// Select the first available key when the selected key is missing.
    SelectFirst,
}

/// A single-selection model built on top of [`Selector`].
pub struct SelectionModel {
    selector: Selector,
    has_selection: Memo<bool>,
}

/// Create a selection model with the given initial key.
pub fn use_selection_model(rt: &mut ReactiveRuntime, selected: Option<u64>) -> (m: SelectionModel)
    requires
        old(rt).wf(),
        old(rt)@.next_signal < u64::MAX - 1,
    ensures
        final(rt).wf(),
        m.wf(),
        m.spec_selected() == selected,
        m.spec_selector().keyed_keys().len() == 0,
        final(rt)@ == (RuntimeView { next_signal: (old(rt)@.next_signal + 2) as u64, ..old(rt)@ }),
{
    SelectionModel::new(rt, selected)
}

impl SelectionModel {
    /// The selected key.
    pub closed spec fn spec_selected(&self) -> Option<u64> {
        self.selector.spec_selected()
    }

    /// The underlying selector.
    pub closed spec fn spec_selector(&self) -> Selector {
        self.selector
    }

    /// The identity of the "has a selection" flag.
    pub closed spec fn has_selection_id(&self) -> SignalId {
        self.has_selection.spec_id()
    }

    /// The selector is well formed and the flag says whether a key is
    /// selected.
    pub closed spec fn wf(&self) -> bool {
        &&& self.selector.wf()
        &&& self.has_selection.spec_value() == self.selector.spec_selected() is Some
    }

    /// The signals a change of the selection from `from` to `to` writes.
    pub open spec fn touched(&self, from: Option<u64>, to: Option<u64>) -> Set<SignalId> {
        let flag = if (from is Some) != (to is Some) {
            Set::empty().insert(self.has_selection_id())
        } else {
            Set::empty()
        };
        self.spec_selector().touched(from, to).union(flag)
    }

    /// Both models own the same signals.
    pub open spec fn same_signals(&self, other: &Self) -> bool {
        &&& self.spec_selector().same_signals(&other.spec_selector())
        &&& self.has_selection_id() == other.has_selection_id()
    }

    /// Create a selection model with the given initial key.
    pub fn new(rt: &mut ReactiveRuntime, selected: Option<u64>) -> (m: Self)
        requires
            old(rt).wf(),
            old(rt)@.next_signal < u64::MAX - 1,
        ensures
            final(rt).wf(),
            m.wf(),
            m.spec_selected() == selected,
            m.spec_selector().keyed_keys().len() == 0,
            final(rt)@ == (RuntimeView { next_signal: (old(rt)@.next_signal + 2) as u64, ..old(rt)@ }),
    {
        let selector = Selector::new(rt, selected);
        let has_selection = Memo::maintained(rt, selected.is_some());
        SelectionModel { selector, has_selection }
    }

    /// Return the underlying selector.
    pub fn selector(&self) -> (s: &Selector)
        ensures
            *s == self.spec_selector(),
    {
        &self.selector
    }

    /// Return the memo that is `true` when any key is selected.
    pub fn has_selection(&self) -> (m: &Memo<bool>)
        requires
            self.wf(),
        ensures
            m.spec_id() == self.has_selection_id(),
            m.spec_value() == self.spec_selected() is Some,
    {
        &self.has_selection
    }

    /// The selected key, with dependency tracking.
    pub fn get(&self, rt: &mut ReactiveRuntime) -> (k: Option<u64>)
        requires
            old(rt).wf(),
        ensures
            final(rt).wf(),
            k == self.spec_selected(),
            final(rt)@ == old(rt)@.after_track(self.spec_selector().spec_id()),
    {
        self.selector.get(rt)
    }

    /// The selected key, without dependency tracking.
    pub fn get_untracked(&self) -> (k: Option<u64>)
        ensures
            k == self.spec_selected(),
    {
        self.selector.get_untracked()
    }

    /// Whether `key` is selected, tracking only this key's flag.
    pub fn is_selected(&mut self, rt: &mut ReactiveRuntime, key: u64) -> (b: bool)
        requires
            old(rt).wf(),
            old(self).wf(),
            old(rt)@.next_signal < u64::MAX,
        ensures
            final(rt).wf(),
            final(self).wf(),
            b == (old(self).spec_selected() == Some(key)),
            final(self).spec_selected() == old(self).spec_selected(),
            final(self).has_selection_id() == old(self).has_selection_id(),
            final(self).spec_selector().spec_id() == old(self).spec_selector().spec_id(),
            final(self).spec_selector().keyed_keys().contains(key),
            forall|k: u64|
                old(self).spec_selector().keyed_keys().contains(k) ==> final(self).spec_selector().keyed_keys().contains(k)
                    && final(self).spec_selector().flag_id(k) == old(self).spec_selector().flag_id(k),
            old(self).spec_selector().keyed_keys().contains(key) ==> final(rt)@ == old(rt)@.after_track(
                old(self).spec_selector().flag_id(key),
            ),
            !old(self).spec_selector().keyed_keys().contains(key) ==> final(rt)@ == (RuntimeView {
                next_signal: (old(rt)@.next_signal + 1) as u64,
                ..old(rt)@
            }).after_track(SignalId(old(rt)@.next_signal)),
    {
        self.selector.is_selected(rt, key)
    }

    /// Store the selection and refresh every flag without notifying;
    /// returns the signals written.
    pub(crate) fn apply(&mut self, selected: Option<u64>) -> (ids: Vec<SignalId>)
        requires
            old(self).wf(),
        ensures
            final(self).wf(),
            final(self).spec_selected() == selected,
            final(self).same_signals(old(self)),
            ids@.to_set() == old(self).touched(old(self).spec_selected(), selected),
    {
        let previous = self.selector.get_untracked();
        let mut ids = self.selector.apply(selected);
        let ghost selector_ids = ids@.to_set();
        if self.has_selection.store(selected.is_some()) {
            push_id(&mut ids, self.has_selection.signal().id());
        }
        proof {
            assert(ids@.to_set() =~= old(self).touched(previous, selected));
        }
        ids
    }

    /// Set the selected key; the readers of every changed signal are woken
    /// as one batch.
    pub fn set(&mut self, rt: &mut ReactiveRuntime, selected: Option<u64>) -> (n: SignalNotifications)
        requires
            old(rt).wf(),
            old(self).wf(),
        ensures
            final(rt).wf(),
            final(self).wf(),
            final(self).spec_selected() == selected,
            final(self).same_signals(old(self)),
            old(rt)@.wrote(final(rt)@, old(self).touched(old(self).spec_selected(), selected), n),
    {
        let ids = self.apply(selected);
        rt.notify_all(&ids)
    }

    /// Select a key.
    pub fn select(&mut self, rt: &mut ReactiveRuntime, key: u64) -> (n: SignalNotifications)
        requires
            old(rt).wf(),
            old(self).wf(),
        ensures
            final(rt).wf(),
            final(self).wf(),
            final(self).spec_selected() == Some(key),
            final(self).same_signals(old(self)),
            old(rt)@.wrote(final(rt)@, old(self).touched(old(self).spec_selected(), Some(key)), n),
    {
        self.set(rt, Some(key))
    }

    /// Clear the current selection.
    pub fn clear(&mut self, rt: &mut ReactiveRuntime) -> (n: SignalNotifications)
        requires
            old(rt).wf(),
            old(self).wf(),
        ensures
            final(rt).wf(),
            final(self).wf(),
            final(self).spec_selected() == None::<u64>,
            final(self).same_signals(old(self)),
            old(rt)@.wrote(final(rt)@, old(self).touched(old(self).spec_selected(), None), n),
    {
        self.set(rt, None)
    }

    /// Select `target`, reporting whether the selection changed.
    fn move_to(&mut self, rt: &mut ReactiveRuntime, target: Option<u64>) -> (r: (bool, SignalNotifications))
        requires
            old(rt).wf(),
            old(self).wf(),
        ensures
            final(rt).wf(),
            final(self).wf(),
            final(self).spec_selected() == target,
            r.0 == (target != old(self).spec_selected()),
            final(self).same_signals(old(self)),
            old(rt)@.wrote(final(rt)@, old(self).touched(old(self).spec_selected(), target), r.1),
    {
        let changed = self.selector.get_untracked() != target;
        let n = self.set(rt, target);
        (changed, n)
    }

    /// Select the next key of `keys`, wrapping around; a missing selection
    /// selects the first key and empty `keys` clear it. Returns whether the
    /// selection changed.
    pub fn select_next(&mut self, rt: &mut ReactiveRuntime, keys: &Vec<u64>) -> (r: (
        bool,
        SignalNotifications,
    ))
        requires
            old(rt).wf(),
            old(self).wf(),
        ensures
            final(rt).wf(),
            final(self).wf(),
            final(self).spec_selected() == step_target(keys@, old(self).spec_selected(), true),
            r.0 == (final(self).spec_selected() != old(self).spec_selected()),
            final(self).same_signals(old(self)),
            old(rt)@.wrote(
                final(rt)@,
                old(self).touched(old(self).spec_selected(), final(self).spec_selected()),
                r.1,
            ),
    {
        let target = relative_key(keys, self.selector.get_untracked(), true);
        self.move_to(rt, target)
    }

    /// Select the previous key of `keys`, wrapping around; a missing
    /// selection selects the last key and empty `keys` clear it. Returns
    /// whether the selection changed.
    pub fn select_previous(&mut self, rt: &mut ReactiveRuntime, keys: &Vec<u64>) -> (r: (
        bool,
        SignalNotifications,
    ))
        requires
            old(rt).wf(),
            old(self).wf(),
        ensures
            final(rt).wf(),
            final(self).wf(),
            final(self).spec_selected() == step_target(keys@, old(self).spec_selected(), false),
            r.0 == (final(self).spec_selected() != old(self).spec_selected()),
            final(self).same_signals(old(self)),
            old(rt)@.wrote(
                final(rt)@,
                old(self).touched(old(self).spec_selected(), final(self).spec_selected()),
                r.1,
            ),
    {
        let target = relative_key(keys, self.selector.get_untracked(), false);
        self.move_to(rt, target)
    }

    /// Select the first key of `keys`; empty `keys` clear the selection.
    pub fn select_first(&mut self, rt: &mut ReactiveRuntime, keys: &Vec<u64>) -> (r: (
        bool,
        SignalNotifications,
    ))
        requires
            old(rt).wf(),
            old(self).wf(),
        ensures
            final(rt).wf(),
            final(self).wf(),
            final(self).spec_selected() == boundary_target(keys@, true),
            r.0 == (final(self).spec_selected() != old(self).spec_selected()),
            final(self).same_signals(old(self)),
            old(rt)@.wrote(
                final(rt)@,
                old(self).touched(old(self).spec_selected(), final(self).spec_selected()),
                r.1,
            ),
    {
        let target = boundary_key(keys, true);
        self.move_to(rt, target)
    }

    /// Select the last key of `keys`; empty `keys` clear the selection.
    pub fn select_last(&mut self, rt: &mut ReactiveRuntime, keys: &Vec<u64>) -> (r: (
        bool,
        SignalNotifications,
    ))
        requires
            old(rt).wf(),
            old(self).wf(),
        ensures
            final(rt).wf(),
            final(self).wf(),
            final(self).spec_selected() == boundary_target(keys@, false),
            r.0 == (final(self).spec_selected() != old(self).spec_selected()),
            final(self).same_signals(old(self)),
            old(rt)@.wrote(
                final(rt)@,
                old(self).touched(old(self).spec_selected(), final(self).spec_selected()),
                r.1,
            ),
    {
        let target = boundary_key(keys, false);
        self.move_to(rt, target)
    }

    /// Reconcile without notifying: move the selection as `reconciled` says
    /// and drop the flags of keys not in `keys`. Returns whether the
    /// selection changed and the signals written.
    pub(crate) fn reconcile_silent(&mut self, keys: &Vec<u64>, select_first: bool) -> (r: (bool, Vec<SignalId>))
        requires
            old(self).wf(),
        ensures
            final(self).wf(),
            final(self).spec_selected() == reconciled(keys@, old(self).spec_selected(), select_first),
            r.0 == (final(self).spec_selected() != old(self).spec_selected()),
            final(self).has_selection_id() == old(self).has_selection_id(),
            final(self).spec_selector().spec_id() == old(self).spec_selector().spec_id(),
            final(self).spec_selector().keyed_keys().to_set() == old(self).spec_selector().keyed_keys().to_set().intersect(keys@.to_set()),
            r.1@.to_set() == old(self).touched(old(self).spec_selected(), final(self).spec_selected()),
    {
        let current = self.selector.get_untracked();
        let target = reconciled_key(keys, current, select_first);
        let changed = current != target;
        let ids = self.apply(target);
        let ghost mid = self.selector.keyed_keys();
        self.selector.retain_keys(keys);
        proof {
            assert(mid == old(self).spec_selector().keyed_keys());
        }
        (changed, ids)
    }

    /// Reconcile with the available keys: clear a selected key that is no
    /// longer present and drop the flags of removed keys. Returns whether
    /// the selection was cleared.
    pub fn reconcile_keys(&mut self, rt: &mut ReactiveRuntime, keys: &Vec<u64>) -> (r: (
        bool,
        SignalNotifications,
    ))
        requires
            old(rt).wf(),
            old(self).wf(),
        ensures
            final(rt).wf(),
            final(self).wf(),
            final(self).spec_selected() == reconciled(keys@, old(self).spec_selected(), false),
            r.0 == (final(self).spec_selected() != old(self).spec_selected()),
            final(self).has_selection_id() == old(self).has_selection_id(),
            final(self).spec_selector().spec_id() == old(self).spec_selector().spec_id(),
            final(self).spec_selector().keyed_keys().to_set() == old(self).spec_selector().keyed_keys().to_set().intersect(keys@.to_set()),
            old(rt)@.wrote(
                final(rt)@,
                old(self).touched(old(self).spec_selected(), final(self).spec_selected()),
                r.1,
            ),
    {
        let (changed, ids) = self.reconcile_silent(keys, false);
        let n = rt.notify_all(&ids);
        (changed, n)
    }

    /// Reconcile with the available keys, selecting the first key when the
    /// selected key is missing (clearing when `keys` is empty), and drop the
    /// flags of removed keys. Returns whether the selection changed.
    pub fn reconcile_or_select_first(&mut self, rt: &mut ReactiveRuntime, keys: &Vec<u64>) -> (r: (
        bool,
        SignalNotifications,
    ))
        requires
            old(rt).wf(),
            old(self).wf(),
        ensures
            final(rt).wf(),
            final(self).wf(),
            final(self).spec_selected() == reconciled(keys@, old(self).spec_selected(), true),
            r.0 == (final(self).spec_selected() != old(self).spec_selected()),
            final(self).has_selection_id() == old(self).has_selection_id(),
            final(self).spec_selector().spec_id() == old(self).spec_selector().spec_id(),
            final(self).spec_selector().keyed_keys().to_set() == old(self).spec_selector().keyed_keys().to_set().intersect(keys@.to_set()),
            old(rt)@.wrote(
                final(rt)@,
                old(self).touched(old(self).spec_selected(), final(self).spec_selected()),
                r.1,
            ),
    {
        let (changed, ids) = self.reconcile_silent(keys, true);
        let n = rt.notify_all(&ids);
        (changed, n)
    }

    /// Project the selected item from a signal-backed collection.
    pub fn selected_from_signal<T: Clone, F: Fn(&T) -> u64>(
        &self,
        rt: &mut ReactiveRuntime,
        items: &Signal<Vec<T>>,
        key: F,
    ) -> (m: Memo<Option<T>>)
        requires
            old(rt).wf(),
            old(rt)@.next_signal < u64::MAX,
            old(rt)@.next_effect < u64::MAX,
            keys_callable(items.spec_value()@, key),
        ensures
            final(rt).wf(),
            projected(
                old(rt)@,
                final(rt)@,
                m,
                items.spec_value()@,
                items.spec_id(),
                self.spec_selected(),
                self.spec_selector().spec_id(),
                key,
                false,
            ),
    {
        items.selected_by(rt, &self.selector, key)
    }

    /// Project the selected item from a signal-backed collection, falling back
    /// to the first item when the selection is missing.
    pub fn selected_from_signal_or_first<T: Clone, F: Fn(&T) -> u64>(
        &self,
        rt: &mut ReactiveRuntime,
        items: &Signal<Vec<T>>,
        key: F,
    ) -> (m: Memo<Option<T>>)
        requires
            old(rt).wf(),
            old(rt)@.next_signal < u64::MAX,
            old(rt)@.next_effect < u64::MAX,
            keys_callable(items.spec_value()@, key),
        ensures
            final(rt).wf(),
            projected(
                old(rt)@,
                final(rt)@,
                m,
                items.spec_value()@,
                items.spec_id(),
                self.spec_selected(),
                self.spec_selector().spec_id(),
                key,
                true,
            ),
    {
        items.selected_by_or_first(rt, &self.selector, key)
    }

    /// Project the selected item from a memo-backed collection.
    pub fn selected_from_memo<T: Clone, F: Fn(&T) -> u64>(
        &self,
        rt: &mut ReactiveRuntime,
        items: &Memo<Vec<T>>,
        key: F,
    ) -> (m: Memo<Option<T>>)
        requires
            old(rt).wf(),
            old(rt)@.next_signal < u64::MAX,
            old(rt)@.next_effect < u64::MAX,
            keys_callable(items.spec_value()@, key),
        ensures
            final(rt).wf(),
            projected(
                old(rt)@,
                final(rt)@,
                m,
                items.spec_value()@,
                items.spec_id(),
                self.spec_selected(),
                self.spec_selector().spec_id(),
                key,
                false,
            ),
    {
        items.selected_by(rt, &self.selector, key)
    }

    /// Project the selected item from a memo-backed collection, falling back to
    /// the first item when the selection is missing.
    pub fn selected_from_memo_or_first<T: Clone, F: Fn(&T) -> u64>(
        &self,
        rt: &mut ReactiveRuntime,
        items: &Memo<Vec<T>>,
        key: F,
    ) -> (m: Memo<Option<T>>)
        requires
            old(rt).wf(),
            old(rt)@.next_signal < u64::MAX,
            old(rt)@.next_effect < u64::MAX,
            keys_callable(items.spec_value()@, key),
        ensures
            final(rt).wf(),
            projected(
                old(rt)@,
                final(rt)@,
                m,
                items.spec_value()@,
                items.spec_id(),
                self.spec_selected(),
                self.spec_selector().spec_id(),
                key,
                true,
            ),
    {
        items.selected_by_or_first(rt, &self.selector, key)
    }
}

/// Reconcile `selection` against `keys` as `policy` says, without notifying.
fn reconcile_selection(selection: &mut SelectionModel, keys: &Vec<u64>, policy: SelectionReconcilePolicy) -> (r: (
    bool,
    Vec<SignalId>,
))
    requires
        old(selection).wf(),
    ensures
        final(selection).wf(),
        final(selection).spec_selected() == reconciled(
            keys@,
            old(selection).spec_selected(),
            policy == SelectionReconcilePolicy::SelectFirst,
        ),
        r.0 == (final(selection).spec_selected() != old(selection).spec_selected()),
        final(selection).has_selection_id() == old(selection).has_selection_id(),
        final(selection).spec_selector().spec_id() == old(selection).spec_selector().spec_id(),
        final(selection).spec_selector().keyed_keys().to_set() == old(selection).spec_selector().keyed_keys().to_set().intersect(keys@.to_set()),
        r.1@.to_set() == old(selection).touched(old(selection).spec_selected(), final(selection).spec_selected()),
{
    match policy {
        SelectionReconcilePolicy::Clear => selection.reconcile_silent(keys, false),
        SelectionReconcilePolicy::SelectFirst => selection.reconcile_silent(keys, true),
    }
}

/// A source-driven single-selection model with an owned ordered key
/// snapshot.
///
/// The host evaluates the key source under [`OrderedSelectionModel::effect`],
/// records what it read as that effect's dependencies, and hands each result
/// to [`OrderedSelectionModel::set_ordered_keys`], which stores the snapshot
/// and reconciles the selection according to the policy. Navigation then
/// uses the latest snapshot with no caller-side key plumbing.
pub struct OrderedSelectionModel {
    selection: SelectionModel,
    ordered_keys: Signal<Vec<u64>>,
    policy: SelectionReconcilePolicy,
    effect: Effect,
}

/// Create a source-driven ordered selection model.
pub fn use_ordered_selection_model(
    rt: &mut ReactiveRuntime,
    selected: Option<u64>,
    policy: SelectionReconcilePolicy,
) -> (m: OrderedSelectionModel)
    requires
        old(rt).wf(),
        old(rt)@.next_signal < u64::MAX - 2,
        old(rt)@.next_effect < u64::MAX,
    ensures
        final(rt).wf(),
        m.wf(),
        m.spec_selected() == selected,
        m.spec_ordered_keys().len() == 0,
        m.spec_policy() == policy,
        m.spec_effect() == old(rt)@.next_effect,
{
    OrderedSelectionModel::new(rt, selected, policy)
}

impl OrderedSelectionModel {
    /// The selected key.
    pub closed spec fn spec_selected(&self) -> Option<u64> {
        self.selection.spec_selected()
    }

    /// The underlying selection model.
    pub closed spec fn spec_selection(&self) -> SelectionModel {
        self.selection
    }

    /// The latest ordered key snapshot.
    pub closed spec fn spec_ordered_keys(&self) -> Seq<u64> {
        self.ordered_keys.spec_value()@
    }

    /// The identity of the ordered key signal.
    pub closed spec fn ordered_keys_id(&self) -> SignalId {
        self.ordered_keys.spec_id()
    }

    /// The reconcile policy.
    pub closed spec fn spec_policy(&self) -> SelectionReconcilePolicy {
        self.policy
    }

    /// The identity of the effect that evaluates the key source.
    pub closed spec fn spec_effect(&self) -> u64 {
        self.effect.spec_id().0
    }

    /// The selection model is well formed.
    pub closed spec fn wf(&self) -> bool {
        self.selection.wf()
    }

    /// Create a model with the given initial key and an empty snapshot, and
    /// register the effect under which the host evaluates the key source.
    pub fn new(rt: &mut ReactiveRuntime, selected: Option<u64>, policy: SelectionReconcilePolicy) -> (m: Self)
        requires
            old(rt).wf(),
            old(rt)@.next_signal < u64::MAX - 2,
            old(rt)@.next_effect < u64::MAX,
        ensures
            final(rt).wf(),
            m.wf(),
            m.spec_selected() == selected,
            m.spec_ordered_keys().len() == 0,
            m.spec_policy() == policy,
            m.spec_effect() == old(rt)@.next_effect,
    {
        let selection = SelectionModel::new(rt, selected);
        let ordered_keys = Signal::new(rt, Vec::new());
        let effect = effect(rt);
        OrderedSelectionModel { selection, ordered_keys, policy, effect }
    }

    /// Return the underlying single-selection model.
    pub fn selection(&self) -> (s: &SelectionModel)
        ensures
            *s == self.spec_selection(),
    {
        &self.selection
    }

    /// Return the reconcile policy.
    pub fn policy(&self) -> (p: SelectionReconcilePolicy)
        ensures
            p == self.spec_policy(),
    {
        self.policy
    }

    /// Return the effect under which the host evaluates the key source.
    pub fn effect(&self) -> (e: &Effect)
        ensures
            e.spec_id().0 == self.spec_effect(),
    {
        &self.effect
    }

    /// Return the signal holding the latest ordered keys.
    pub fn ordered_keys_signal(&self) -> (s: &Signal<Vec<u64>>)
        ensures
            s.spec_id() == self.ordered_keys_id(),
            s.spec_value()@ == self.spec_ordered_keys(),
    {
        &self.ordered_keys
    }

    /// Read the latest ordered keys with dependency tracking.
    pub fn read_ordered_keys<'a>(&'a self, rt: &mut ReactiveRuntime) -> (keys: &'a Vec<u64>)
        requires
            old(rt).wf(),
        ensures
            final(rt).wf(),
            keys@ == self.spec_ordered_keys(),
            final(rt)@ == old(rt)@.after_track(self.ordered_keys_id()),
    {
        self.ordered_keys.read(rt)
    }

    /// A copy of the latest ordered keys, with dependency tracking.
    pub fn ordered_keys(&self, rt: &mut ReactiveRuntime) -> (keys: Vec<u64>)
        requires
            old(rt).wf(),
        ensures
            final(rt).wf(),
            keys@ == self.spec_ordered_keys(),
            final(rt)@ == old(rt)@.after_track(self.ordered_keys_id()),
    {
        copy_keys(self.ordered_keys.read(rt))
    }

    /// A copy of the latest ordered keys, without dependency tracking.
    pub fn ordered_keys_untracked(&self) -> (keys: Vec<u64>)
        ensures
            keys@ == self.spec_ordered_keys(),
    {
        copy_keys(self.ordered_keys.peek())
    }

    /// Return the memo that is `true` when any key is selected.
    pub fn has_selection(&self) -> (m: &Memo<bool>)
        requires
            self.wf(),
        ensures
            m.spec_id() == self.spec_selection().has_selection_id(),
            m.spec_value() == self.spec_selected() is Some,
    {
        self.selection.has_selection()
    }

    /// The selected key, with dependency tracking.
    pub fn get(&self, rt: &mut ReactiveRuntime) -> (k: Option<u64>)
        requires
            old(rt).wf(),
        ensures
            final(rt).wf(),
            k == self.spec_selected(),
            final(rt)@ == old(rt)@.after_track(self.spec_selection().spec_selector().spec_id()),
    {
        self.selection.get(rt)
    }

    /// The selected key, without dependency tracking.
    pub fn get_untracked(&self) -> (k: Option<u64>)
        ensures
            k == self.spec_selected(),
    {
        self.selection.get_untracked()
    }

    /// Whether `key` is selected, tracking only this key's flag.
    pub fn is_selected(&mut self, rt: &mut ReactiveRuntime, key: u64) -> (b: bool)
        requires
            old(rt).wf(),
            old(self).wf(),
            old(rt)@.next_signal < u64::MAX,
        ensures
            final(rt).wf(),
            final(self).wf(),
            b == (old(self).spec_selected() == Some(key)),
            final(self).spec_selected() == old(self).spec_selected(),
            final(self).spec_ordered_keys() == old(self).spec_ordered_keys(),
            final(self).spec_policy() == old(self).spec_policy(),
    {
        self.selection.is_selected(rt, key)
    }

    /// Select a key.
    pub fn select(&mut self, rt: &mut ReactiveRuntime, key: u64) -> (n: SignalNotifications)
        requires
            old(rt).wf(),
            old(self).wf(),
        ensures
            final(rt).wf(),
            final(self).wf(),
            final(self).spec_selected() == Some(key),
            final(self).spec_ordered_keys() == old(self).spec_ordered_keys(),
            final(self).spec_policy() == old(self).spec_policy(),
            old(rt)@.wrote(
                final(rt)@,
                old(self).spec_selection().touched(old(self).spec_selected(), Some(key)),
                n,
            ),
    {
        self.selection.select(rt, key)
    }

    /// Clear the current selection.
    pub fn clear(&mut self, rt: &mut ReactiveRuntime) -> (n: SignalNotifications)
        requires
            old(rt).wf(),
            old(self).wf(),
        ensures
            final(rt).wf(),
            final(self).wf(),
            final(self).spec_selected() == None::<u64>,
            final(self).spec_ordered_keys() == old(self).spec_ordered_keys(),
            final(self).spec_policy() == old(self).spec_policy(),
            old(rt)@.wrote(final(rt)@, old(self).spec_selection().touched(old(self).spec_selected(), None), n),
    {
        self.selection.clear(rt)
    }

    /// Set the selected key.
    pub fn set(&mut self, rt: &mut ReactiveRuntime, selected: Option<u64>) -> (n: SignalNotifications)
        requires
            old(rt).wf(),
            old(self).wf(),
        ensures
            final(rt).wf(),
            final(self).wf(),
            final(self).spec_selected() == selected,
            final(self).spec_ordered_keys() == old(self).spec_ordered_keys(),
            final(self).spec_policy() == old(self).spec_policy(),
            old(rt)@.wrote(
                final(rt)@,
                old(self).spec_selection().touched(old(self).spec_selected(), selected),
                n,
            ),
    {
        self.selection.set(rt, selected)
    }

    /// Store a new snapshot of the source's ordered keys and reconcile the
    /// selection with it according to the policy, waking the readers of
    /// every changed signal as one batch. Returns whether the selection
    /// changed.
    pub fn set_ordered_keys(&mut self, rt: &mut ReactiveRuntime, keys: Vec<u64>) -> (r: (
        bool,
        SignalNotifications,
    ))
        requires
            old(rt).wf(),
            old(self).wf(),
        ensures
            final(rt).wf(),
            final(self).wf(),
            final(self).spec_ordered_keys() == keys@,
            final(self).spec_selected() == reconciled(
                keys@,
                old(self).spec_selected(),
                old(self).spec_policy() == SelectionReconcilePolicy::SelectFirst,
            ),
            r.0 == (final(self).spec_selected() != old(self).spec_selected()),
            final(self).spec_policy() == old(self).spec_policy(),
            final(self).spec_selection().spec_selector().keyed_keys().to_set()
                == old(self).spec_selection().spec_selector().keyed_keys().to_set().intersect(keys@.to_set()),
            old(rt)@.wrote(
                final(rt)@,
                old(self).spec_selection().touched(old(self).spec_selected(), final(self).spec_selected()).union(
                    if old(self).spec_ordered_keys() == keys@ {
                        Set::empty()
                    } else {
                        Set::empty().insert(old(self).ordered_keys_id())
                    },
                ),
                r.1,
            ),
    {
        let mut ids: Vec<SignalId> = Vec::new();
        let unchanged = same_keys(self.ordered_keys.peek(), &keys);
        if !unchanged {
            push_id(&mut ids, self.ordered_keys.id());
        }
        let (changed, selection_ids) = reconcile_selection(&mut self.selection, &keys, self.policy);
        let ghost key_ids = ids@.to_set();
        let mut i: usize = 0;
        while i < selection_ids.len()
            invariant
                i <= selection_ids.len(),
                ids@.to_set() == key_ids.union(selection_ids@.subrange(0, i as int).to_set()),
            decreases selection_ids.len() - i,
        {
            push_id(&mut ids, selection_ids[i]);
            proof {
                assert(selection_ids@.subrange(0, i + 1) =~= selection_ids@.subrange(0, i as int).push(
                    selection_ids@[i as int],
                ));
                assert(ids@.to_set() =~= key_ids.union(selection_ids@.subrange(0, i + 1).to_set()));
            }
            i = i + 1;
        }
        proof {
            assert(selection_ids@.subrange(0, selection_ids@.len() as int) =~= selection_ids@);
        }
        self.ordered_keys.set_silent(keys);
        let n = rt.notify_all(&ids);
        proof {
            assert(ids@.to_set() =~= old(self).spec_selection().touched(
                old(self).spec_selected(),
                self.spec_selected(),
            ).union(
                if old(self).spec_ordered_keys() == self.spec_ordered_keys() {
                    Set::empty()
                } else {
                    Set::empty().insert(old(self).ordered_keys_id())
                },
            ));
        }
        (changed, n)
    }

    /// Reconcile the selection against the latest snapshot now. Returns
    /// whether the selection changed.
    pub fn reconcile_now(&mut self, rt: &mut ReactiveRuntime) -> (r: (bool, SignalNotifications))
        requires
            old(rt).wf(),
            old(self).wf(),
        ensures
            final(rt).wf(),
            final(self).wf(),
            final(self).spec_ordered_keys() == old(self).spec_ordered_keys(),
            final(self).spec_selected() == reconciled(
                old(self).spec_ordered_keys(),
                old(self).spec_selected(),
                old(self).spec_policy() == SelectionReconcilePolicy::SelectFirst,
            ),
            r.0 == (final(self).spec_selected() != old(self).spec_selected()),
            final(self).spec_policy() == old(self).spec_policy(),
            old(rt)@.wrote(
                final(rt)@,
                old(self).spec_selection().touched(old(self).spec_selected(), final(self).spec_selected()),
                r.1,
            ),
    {
        let (changed, ids) = reconcile_selection(&mut self.selection, self.ordered_keys.peek(), self.policy);
        let n = rt.notify_all(&ids);
        (changed, n)
    }

    /// Select the next key of the latest snapshot.
    pub fn select_next(&mut self, rt: &mut ReactiveRuntime) -> (r: (bool, SignalNotifications))
        requires
            old(rt).wf(),
            old(self).wf(),
        ensures
            final(rt).wf(),
            final(self).wf(),
            final(self).spec_ordered_keys() == old(self).spec_ordered_keys(),
            final(self).spec_policy() == old(self).spec_policy(),
            final(self).spec_selected() == step_target(old(self).spec_ordered_keys(), old(self).spec_selected(), true),
            r.0 == (final(self).spec_selected() != old(self).spec_selected()),
            old(rt)@.wrote(
                final(rt)@,
                old(self).spec_selection().touched(old(self).spec_selected(), final(self).spec_selected()),
                r.1,
            ),
    {
        self.selection.select_next(rt, self.ordered_keys.peek())
    }

    /// Select the previous key of the latest snapshot.
    pub fn select_previous(&mut self, rt: &mut ReactiveRuntime) -> (r: (bool, SignalNotifications))
        requires
            old(rt).wf(),
            old(self).wf(),
        ensures
            final(rt).wf(),
            final(self).wf(),
            final(self).spec_ordered_keys() == old(self).spec_ordered_keys(),
            final(self).spec_policy() == old(self).spec_policy(),
            final(self).spec_selected() == step_target(old(self).spec_ordered_keys(), old(self).spec_selected(), false),
            r.0 == (final(self).spec_selected() != old(self).spec_selected()),
            old(rt)@.wrote(
                final(rt)@,
                old(self).spec_selection().touched(old(self).spec_selected(), final(self).spec_selected()),
                r.1,
            ),
    {
        self.selection.select_previous(rt, self.ordered_keys.peek())
    }

    /// Select the first key of the latest snapshot.
    pub fn select_first(&mut self, rt: &mut ReactiveRuntime) -> (r: (bool, SignalNotifications))
        requires
            old(rt).wf(),
            old(self).wf(),
        ensures
            final(rt).wf(),
            final(self).wf(),
            final(self).spec_ordered_keys() == old(self).spec_ordered_keys(),
            final(self).spec_policy() == old(self).spec_policy(),
            final(self).spec_selected() == boundary_target(old(self).spec_ordered_keys(), true),
            r.0 == (final(self).spec_selected() != old(self).spec_selected()),
            old(rt)@.wrote(
                final(rt)@,
                old(self).spec_selection().touched(old(self).spec_selected(), final(self).spec_selected()),
                r.1,
            ),
    {
        self.selection.select_first(rt, self.ordered_keys.peek())
    }

    /// Select the last key of the latest snapshot.
    pub fn select_last(&mut self, rt: &mut ReactiveRuntime) -> (r: (bool, SignalNotifications))
        requires
            old(rt).wf(),
            old(self).wf(),
        ensures
            final(rt).wf(),
            final(self).wf(),
            final(self).spec_ordered_keys() == old(self).spec_ordered_keys(),
            final(self).spec_policy() == old(self).spec_policy(),
            final(self).spec_selected() == boundary_target(old(self).spec_ordered_keys(), false),
            r.0 == (final(self).spec_selected() != old(self).spec_selected()),
            old(rt)@.wrote(
                final(rt)@,
                old(self).spec_selection().touched(old(self).spec_selected(), final(self).spec_selected()),
                r.1,
            ),
    {
        self.selection.select_last(rt, self.ordered_keys.peek())
    }

    /// Project the selected item from a signal-backed collection.
    pub fn selected_from_signal<T: Clone, F: Fn(&T) -> u64>(
        &self,
        rt: &mut ReactiveRuntime,
        items: &Signal<Vec<T>>,
        key: F,
    ) -> (m: Memo<Option<T>>)
        requires
            old(rt).wf(),
            old(rt)@.next_signal < u64::MAX,
            old(rt)@.next_effect < u64::MAX,
            keys_callable(items.spec_value()@, key),
        ensures
            final(rt).wf(),
            projected(
                old(rt)@,
                final(rt)@,
                m,
                items.spec_value()@,
                items.spec_id(),
                self.spec_selected(),
                self.spec_selection().spec_selector().spec_id(),
                key,
                false,
            ),
    {
        items.selected_by(rt, self.selection.selector(), key)
    }

    /// Project the selected item from a signal-backed collection, falling back
    /// to the first item when the selection is missing.
    pub fn selected_from_signal_or_first<T: Clone, F: Fn(&T) -> u64>(
        &self,
        rt: &mut ReactiveRuntime,
        items: &Signal<Vec<T>>,
        key: F,
    ) -> (m: Memo<Option<T>>)
        requires
            old(rt).wf(),
            old(rt)@.next_signal < u64::MAX,
            old(rt)@.next_effect < u64::MAX,
            keys_callable(items.spec_value()@, key),
        ensures
            final(rt).wf(),
            projected(
                old(rt)@,
                final(rt)@,
                m,
                items.spec_value()@,
                items.spec_id(),
                self.spec_selected(),
                self.spec_selection().spec_selector().spec_id(),
                key,
                true,
            ),
    {
        items.selected_by_or_first(rt, self.selection.selector(), key)
    }

    /// Project the selected item from a memo-backed collection.
    pub fn selected_from_memo<T: Clone, F: Fn(&T) -> u64>(
        &self,
        rt: &mut ReactiveRuntime,
        items: &Memo<Vec<T>>,
        key: F,
    ) -> (m: Memo<Option<T>>)
        requires
            old(rt).wf(),
            old(rt)@.next_signal < u64::MAX,
            old(rt)@.next_effect < u64::MAX,
            keys_callable(items.spec_value()@, key),
        ensures
            final(rt).wf(),
            projected(
                old(rt)@,
                final(rt)@,
                m,
                items.spec_value()@,
                items.spec_id(),
                self.spec_selected(),
                self.spec_selection().spec_selector().spec_id(),
                key,
                false,
            ),
    {
        items.selected_by(rt, self.selection.selector(), key)
    }

    /// Project the selected item from a memo-backed collection, falling back to
    /// the first item when the selection is missing.
    pub fn selected_from_memo_or_first<T: Clone, F: Fn(&T) -> u64>(
        &self,
        rt: &mut ReactiveRuntime,
        items: &Memo<Vec<T>>,
        key: F,
    ) -> (m: Memo<Option<T>>)
        requires
            old(rt).wf(),
            old(rt)@.next_signal < u64::MAX,
            old(rt)@.next_effect < u64::MAX,
            keys_callable(items.spec_value()@, key),
        ensures
            final(rt).wf(),
            projected(
                old(rt)@,
                final(rt)@,
                m,
                items.spec_value()@,
                items.spec_id(),
                self.spec_selected(),
                self.spec_selection().spec_selector().spec_id(),
                key,
                true,
            ),
    {
        items.selected_by_or_first(rt, self.selection.selector(), key)
    }
}

} // verus!
