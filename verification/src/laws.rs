//! Properties of the library that span several operations.
use vstd::prelude::*;

use crate::composables::mutation::{MutationState, result_committed, run_started};
use crate::composables::tree::{TreeEntry, normalized, visible_keys_of, visible_nodes_of};
use crate::resource::{LoadMode, ResourceState, load_start};
use crate::runtime::{EffectId, ObserverId, RuntimeView, SignalId, SignalNotifications};
use crate::selected_item::selected_position;
use crate::selector::{reconciled, step_target};
use crate::shared::{ReadSignal, SignalStore, WriteSignal};

verus! {

broadcast use {
    vstd::seq_lib::group_seq_properties,
    vstd::set_lib::group_set_properties,
    vstd::seq_lib::group_filter_ensures,
};

/// Writes inside a batch wake nobody; leaving the outermost batch wakes
/// every observer of the written signal, and leaves the runtime as it was
/// before the batch.
pub proof fn batch_defers_then_delivers(
    before: RuntimeView,
    inside: RuntimeView,
    written: RuntimeView,
    after: RuntimeView,
    signal: SignalId,
    queued: SignalNotifications,
    flushed: SignalNotifications,
)
    requires
        before.batch_depth == 0,
        before.pending_entities == Set::<crate::runtime::EntityId>::empty(),
        before.pending_effects == Set::<EffectId>::empty(),
        inside == (RuntimeView { batch_depth: before.batch_depth + 1, ..before }),
        inside.notified(written, signal, queued),
        written.batch_exited(after, flushed),
    ensures
        queued.spec_is_empty(),
        flushed.entities@.to_set() == before.entity_observers(signal),
        flushed.effects@.to_set() == before.effect_observers(signal),
        after == before,
{
    assert(written.pending_entities =~= before.entity_observers(signal));
    assert(written.pending_effects =~= before.effect_observers(signal));
}

/// After an observer's dependencies are replaced by `deps`, it observes
/// exactly `deps`, and every other observer's dependencies are unchanged.
pub proof fn replaced_dependencies_are_exact(view: RuntimeView, observer: ObserverId, deps: Set<SignalId>)
    ensures
        ({
            let post = RuntimeView { graph: view.graph_with_deps(observer, deps), ..view };
            &&& post.deps_of(observer) == deps
            &&& forall|other: ObserverId| other != observer ==> post.deps_of(other) == view.deps_of(other)
        }),
{
    let post = RuntimeView { graph: view.graph_with_deps(observer, deps), ..view };
    assert(post.deps_of(observer) =~= deps);
    assert forall|other: ObserverId| other != observer implies post.deps_of(other) == view.deps_of(other) by {
        assert(post.deps_of(other) =~= view.deps_of(other));
    }
}

/// A read inside an untracked scope records nothing.
pub proof fn untracked_reads_record_nothing(view: RuntimeView, signal: SignalId)
    requires
        view.stack.len() > 0,
        view.stack.last().suppress,
    ensures
        view.after_track(signal) == view,
{
}

/// Once an effect is removed, no write wakes it.
pub proof fn removed_effect_is_never_woken(view: RuntimeView, effect: EffectId, signals: Set<SignalId>)
    ensures
        !(RuntimeView {
            graph: view.graph_without(ObserverId::Effect(effect)),
            effects: view.effects.remove(effect),
            pending_effects: view.pending_effects.remove(effect),
            ..view
        }).effects_woken(signals).contains(effect),
{
}

/// The handles of a split signal share one value: after the write handle
/// stores a value, the read handle reads that value, and the other signals
/// of the store keep theirs.
pub proof fn split_handles_share_one_value<T>(
    read: ReadSignal<T>,
    write: WriteSignal<T>,
    before: SignalStore<T>,
    after: SignalStore<T>,
    value: T,
    other: SignalId,
)
    requires
        read.spec_id() == write.spec_id(),
        after.stored(&before, write.spec_id(), value),
        before.contains(other),
        other != read.spec_id(),
    ensures
        after.contains(read.spec_id()),
        after.value(read.spec_id()) == value,
        after.value(other) == before.value(other),
{
    assert(after.contains(write.spec_id()) == (before.contains(write.spec_id()) || write.spec_id()
        == write.spec_id()));
}

/// Stepping lands on a neighbour: with nothing selected (or a key that is
/// not in the list), "next" selects the first key and "previous" the last;
/// with the key at position `i` of a list without repeats selected, "next"
/// selects position `i + 1` and "previous" position `i - 1`, wrapping around
/// at both ends. An empty list selects nothing.
pub proof fn step_lands_on_neighbour(keys: Seq<u64>, i: int)
    ensures
        keys.len() == 0 ==> step_target(keys, None, true) is None && step_target(keys, None, false) is None,
        keys.len() > 0 ==> step_target(keys, None, true) == Some(keys[0]) && step_target(keys, None, false)
            == Some(keys[keys.len() - 1]),
        keys.no_duplicates() && 0 <= i < keys.len() ==> {
            &&& step_target(keys, Some(keys[i]), true) == Some(
                if i + 1 == keys.len() {
                    keys[0]
                } else {
                    keys[i + 1]
                },
            )
            &&& step_target(keys, Some(keys[i]), false) == Some(
                if i == 0 {
                    keys[keys.len() - 1]
                } else {
                    keys[i - 1]
                },
            )
        },
{
    if keys.no_duplicates() && 0 <= i < keys.len() {
        keys.index_of_first_ensures(keys[i]);
        assert(keys.contains(keys[i]));
        let j = keys.index_of_first(keys[i])->0;
        assert(j == i);
        if i + 1 < keys.len() {
            vstd::arithmetic::div_mod::lemma_small_mod((i + 1) as nat, keys.len());
        } else {
            vstd::arithmetic::div_mod::lemma_mod_self_0(keys.len() as int);
        }
    }
}

/// The selected item's position: when some item has the selected key, the
/// first such item; otherwise (nothing selected, or a key no item has) the
/// first item when falling back to it and the collection is non-empty, and
/// no item at all else.
pub proof fn selected_position_falls_back_to_first(ks: Seq<u64>, selected: Option<u64>, or_first: bool)
    ensures
        selected is Some && ks.contains(selected->0) ==> {
            &&& selected_position(ks, selected, or_first) is Some
            &&& 0 <= selected_position(ks, selected, or_first)->0 < ks.len()
            &&& ks[selected_position(ks, selected, or_first)->0] == selected->0
            &&& forall|j: int| 0 <= j < selected_position(ks, selected, or_first)->0 ==> ks[j] != selected->0
        },
        !(selected is Some && ks.contains(selected->0)) && or_first && ks.len() > 0 ==> selected_position(
            ks,
            selected,
            or_first,
        ) == Some(0int),
        !(selected is Some && ks.contains(selected->0)) && !(or_first && ks.len() > 0) ==> selected_position(
            ks,
            selected,
            or_first,
        ) is None,
{
    if selected is Some && ks.contains(selected->0) {
        ks.index_of_first_ensures(selected->0);
    }
}

/// Starting a run always enters `Pending`, carrying the latest success of
/// the state it starts from: none from idle, the retained one from a
/// pending or failed run, and the value itself from a success.
pub proof fn run_always_starts_pending<T, E>(state: MutationState<T, E>)
    ensures
        run_started(state) is Pending,
        run_started(state) == (MutationState::<T, E>::Pending {
            last_success: match state {
                MutationState::Idle => None,
                MutationState::Pending { last_success } => last_success,
                MutationState::Succeeded(v) => Some(v),
                MutationState::Failed { last_success, .. } => last_success,
            },
        }),
{
}

/// Starting a load always leaves the resource loading (`Pending` or
/// `Reloading`), and reports a visible change exactly when it changes the
/// state: leaving `Ready` or `Error` wakes the readers; staying put does not.
pub proof fn load_start_reports_exactly_its_changes<T, E>(mode: LoadMode, state: ResourceState<T, E>)
    ensures
        load_start(mode, state).1 == (load_start(mode, state).0 != state),
        load_start(mode, state).0 is Pending || load_start(mode, state).0 is Reloading,
        mode == LoadMode::Reset ==> load_start(mode, state).0 is Pending,
        state is Error ==> load_start(mode, state).0 is Pending && load_start(mode, state).1,
{
}

/// In a key list without repeats, "previous" undoes "next" and "next"
/// undoes "previous" for any key of the list.
pub proof fn next_and_previous_are_inverse(keys: Seq<u64>, key: u64)
    requires
        keys.no_duplicates(),
        keys.contains(key),
    ensures
        step_target(keys, step_target(keys, Some(key), true), false) == Some(key),
        step_target(keys, step_target(keys, Some(key), false), true) == Some(key),
{
    keys.index_of_first_ensures(key);
    let i = keys.index_of_first(key)->0;
    let n = keys.len() as int;
    let j = (i + 1) % n;
    let p = if i == 0 {
        n - 1
    } else {
        i - 1
    };
    assert(0 <= j < n) by (nonlinear_arith)
        requires
            0 <= i < n,
            j == (i + 1) % n,
    ;
    assert(j == (if i + 1 == n {
        0
    } else {
        i + 1
    })) by (nonlinear_arith)
        requires
            0 <= i < n,
            j == (i + 1) % n,
    ;
    keys.index_of_first_ensures(keys[j]);
    keys.index_of_first_ensures(keys[p]);
    assert(keys.contains(keys[j]));
    assert(keys.contains(keys[p]));
    assert(keys.index_of_first(keys[j]) == Some(j));
    assert(keys.index_of_first(keys[p]) == Some(p));
    let pj = (p + 1) % n;
    assert(pj == (if p + 1 == n {
        0
    } else {
        p + 1
    })) by (nonlinear_arith)
        requires
            0 <= p < n,
            pj == (p + 1) % n,
    ;
}

/// Reconciling leaves a selection that is absent or one of the keys; with
/// "select first", a non-empty key list always leaves one selected; and
/// reconciling again changes nothing.
pub proof fn reconcile_keeps_selection_valid(keys: Seq<u64>, current: Option<u64>, select_first: bool)
    ensures
        reconciled(keys, current, select_first) matches Some(k) ==> keys.contains(k),
        select_first && keys.len() > 0 ==> reconciled(keys, current, select_first) is Some,
        reconciled(keys, reconciled(keys, current, select_first), select_first) == reconciled(
            keys,
            current,
            select_first,
        ),
{
    if keys.len() > 0 {
        assert(keys.contains(keys[0]));
    }
}

/// Two loads started one after the other carry different generations, so
/// the completion of the first can never commit once the second started.
pub proof fn superseded_load_differs(generation: u64)
    ensures
        generation.wrapping_add(1) != generation.wrapping_add(1).wrapping_add(1),
{
}

/// A mutation keeps its latest success while a retry runs and when the
/// retry fails; a success replaces it.
pub proof fn mutation_retains_last_success<T, E>(state: MutationState<T, E>, error: E, value: T)
    ensures
        run_started(state).spec_last_success() == state.spec_last_success(),
        result_committed(run_started(state), Err(error)).spec_last_success() == state.spec_last_success(),
        result_committed(run_started(state), Ok(value)).spec_last_success() == Some(value),
{
}

/// Reloading keeps the latest value readable, while a reset load drops it.
pub proof fn reload_retains_latest<T, E>(state: ResourceState<T, E>)
    ensures
        load_start(LoadMode::RetainLatest, state).0.spec_latest() == state.spec_latest(),
        load_start(LoadMode::Reset, state).0.spec_latest() is None,
{
}

/// Normalized expanded keys are keys of the order that were asked for, in
/// the order's order, and normalizing again changes nothing.
pub proof fn normalization_is_idempotent(keys: Seq<u64>, order: Seq<u64>)
    ensures
        forall|k: u64| #[trigger] normalized(keys, order).contains(k) <==> order.contains(k) && keys.contains(k),
        normalized(normalized(keys, order), order) == normalized(keys, order),
{
    let once = normalized(keys, order);
    assert forall|k: u64| #[trigger] once.contains(k) <==> order.contains(k) && keys.contains(k) by {
        if once.contains(k) {
            order.lemma_filter_contains_rev(|x: u64| keys.contains(x), k);
            let i = choose|i: int| 0 <= i < once.len() && once[i] == k;
            order.lemma_filter_pred(|x: u64| keys.contains(x), i);
        }
        if order.contains(k) && keys.contains(k) {
            let i = choose|i: int| 0 <= i < order.len() && order[i] == k;
            order.lemma_filter_contains(|x: u64| keys.contains(x), i);
        }
    }
    let p1 = |x: u64| once.contains(x);
    let p0 = |x: u64| keys.contains(x);
    assert forall|x: u64| #[trigger] order.contains(x) implies p1(x) == p0(x) by {}
    lemma_filter_same_on(order, p1, p0);
}

/// Collapsing a key that expanding just added returns normalized expanded
/// keys to what they were.
pub proof fn collapse_undoes_expand(expanded: Seq<u64>, expandable: Seq<u64>, key: u64)
    requires
        !expanded.contains(key),
    ensures
        normalized(normalized(expanded.push(key), expandable).filter(|k: u64| k != key), expandable)
            == normalized(expanded, expandable),
{
    let grown = normalized(expanded.push(key), expandable);
    let without = grown.filter(|k: u64| k != key);
    normalization_is_idempotent(expanded.push(key), expandable);
    assert forall|x: u64| #[trigger] expandable.contains(x) implies without.contains(x) == expanded.contains(x) by {
        if without.contains(x) {
            grown.lemma_filter_contains_rev(|k: u64| k != key, x);
            let i = choose|i: int| 0 <= i < without.len() && without[i] == x;
            grown.lemma_filter_pred(|k: u64| k != key, i);
            assert(expanded.push(key).contains(x));
            let j = choose|j: int| 0 <= j < expanded.push(key).len() && expanded.push(key)[j] == x;
            assert(expanded[j] == x);
        }
        if expanded.contains(x) {
            let j = choose|j: int| 0 <= j < expanded.len() && expanded[j] == x;
            assert(expanded.push(key)[j] == x);
            assert(grown.contains(x));
            let i = choose|i: int| 0 <= i < grown.len() && grown[i] == x;
            grown.lemma_filter_contains(|k: u64| k != key, i);
        }
    }
    lemma_filter_same_on(expandable, |x: u64| without.contains(x), |x: u64| expanded.contains(x));
}

/// Filtering by two predicates that agree on every element gives the same
/// sequence.
proof fn lemma_filter_same_on(s: Seq<u64>, p: spec_fn(u64) -> bool, q: spec_fn(u64) -> bool)
    requires
        forall|x: u64| #[trigger] s.contains(x) ==> p(x) == q(x),
    ensures
        s.filter(p) == s.filter(q),
    decreases s.len(),
{
    reveal(Seq::filter);
    if s.len() > 0 {
        let rest = s.drop_last();
        assert forall|x: u64| #[trigger] rest.contains(x) implies p(x) == q(x) by {
            let i = choose|i: int| 0 <= i < rest.len() && rest[i] == x;
            assert(s[i] == x);
            assert(s.contains(x));
        }
        lemma_filter_same_on(rest, p, q);
        assert(s.contains(s.last()));
    }
}

/// The visible keys are the keys of the visible nodes, in order.
pub proof fn visible_keys_are_visible_node_keys<T>(es: Seq<TreeEntry<T>>)
    ensures
        visible_keys_of(es) == visible_nodes_of(es).map_values(|n: crate::composables::tree_node::ProjectedTreeNode<T>| n.key),
    decreases es.len(),
{
    if es.len() > 0 {
        visible_keys_are_visible_node_keys(es.drop_last());
        let f = |n: crate::composables::tree_node::ProjectedTreeNode<T>| n.key;
        if es.last().1 {
            assert(visible_nodes_of(es).map_values(f) =~= visible_nodes_of(es.drop_last()).map_values(f).push(
                es.last().0.key,
            ));
        }
    } else {
        assert(visible_nodes_of(es).map_values(|n: crate::composables::tree_node::ProjectedTreeNode<T>| n.key)
            =~= Seq::<u64>::empty());
    }
}

} // verus!
