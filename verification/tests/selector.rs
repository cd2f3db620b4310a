use relay::{EffectId, ReactiveRuntime, Selector, effect};

#[derive(Clone, Copy)]
struct Item {
    id: u64,
}

/// Run an effect body under tracking and record what it read.
fn run_effect(rt: &mut ReactiveRuntime, id: EffectId, body: impl FnOnce(&mut ReactiveRuntime)) {
    assert!(rt.begin_effect_body(id));
    body(rt);
    rt.finish_effect_run(id);
}

#[test]
fn selector_notifies_only_previous_and_next_key_effects() {
    let mut rt = ReactiveRuntime::new();
    let mut selector = Selector::new(&mut rt, Some(1_u64));

    let one = effect(&mut rt);
    let two = effect(&mut rt);
    let three = effect(&mut rt);
    let mut one_runs = 0;
    let mut two_runs = 0;
    let mut three_runs = 0;
    run_effect(&mut rt, one.id(), |rt| {
        let _ = selector.is_selected(rt, 1);
    });
    one_runs += 1;
    run_effect(&mut rt, two.id(), |rt| {
        let _ = selector.is_selected(rt, 2);
    });
    two_runs += 1;
    run_effect(&mut rt, three.id(), |rt| {
        let _ = selector.is_selected(rt, 3);
    });
    three_runs += 1;

    assert_eq!(one_runs, 1);
    assert_eq!(two_runs, 1);
    assert_eq!(three_runs, 1);

    let n = selector.select(&mut rt, 2);
    for woken in n.effects {
        if woken == one.id() {
            one_runs += 1;
        } else if woken == two.id() {
            two_runs += 1;
        } else if woken == three.id() {
            three_runs += 1;
        }
    }

    assert_eq!(one_runs, 2);
    assert_eq!(two_runs, 2);
    assert_eq!(three_runs, 1);
}

#[test]
fn selector_get_tracks_whole_selected_key() {
    let mut rt = ReactiveRuntime::new();
    let first = 1_u64;
    let second = 2_u64;
    let mut selector = Selector::new(&mut rt, Some(first));

    let watcher = effect(&mut rt);
    let mut runs = 0;
    run_effect(&mut rt, watcher.id(), |rt| {
        let _ = selector.get(rt);
    });
    runs += 1;

    assert_eq!(runs, 1);

    let n = selector.select(&mut rt, second);
    runs += n.effects.iter().filter(|id| **id == watcher.id()).count();

    assert_eq!(runs, 2);
}

#[test]
fn selector_reconcile_keys_clears_missing_selection() {
    let mut rt = ReactiveRuntime::new();
    let mut selector = Selector::new(&mut rt, Some(2_u64));

    let (changed, _) = selector.reconcile_keys(&mut rt, &vec![1_u64, 3]);

    assert!(changed);
    assert_eq!(selector.get_untracked(), None);
}

#[test]
fn selector_reconcile_keys_keeps_available_selection() {
    let mut rt = ReactiveRuntime::new();
    let mut selector = Selector::new(&mut rt, Some(2_u64));

    let (changed, _) = selector.reconcile_keys(&mut rt, &vec![1_u64, 2, 3]);

    assert!(!changed);
    assert_eq!(selector.get_untracked(), Some(2));
}

#[test]
fn selector_reconcile_keys_prunes_keyed_signals() {
    let mut rt = ReactiveRuntime::new();
    let mut selector = Selector::new(&mut rt, Some(2_u64));

    selector.is_selected(&mut rt, 1);
    selector.is_selected(&mut rt, 2);
    selector.is_selected(&mut rt, 3);
    selector.reconcile_keys(&mut rt, &vec![2_u64]);

    let keys = selector.keyed_signal_keys();
    assert_eq!(keys.len(), 1);
    assert!(keys.contains(&2));
}

#[test]
fn selector_reconcile_keys_notifies_removed_selected_key() {
    let mut rt = ReactiveRuntime::new();
    let mut selector = Selector::new(&mut rt, Some(2_u64));

    let watcher = effect(&mut rt);
    let mut runs = 0;
    run_effect(&mut rt, watcher.id(), |rt| {
        let _ = selector.is_selected(rt, 2);
    });
    runs += 1;

    assert_eq!(runs, 1);

    let (_, n) = selector.reconcile_keys(&mut rt, &vec![1_u64]);
    runs += n.effects.iter().filter(|id| **id == watcher.id()).count();

    assert_eq!(runs, 2);
}

#[test]
fn selector_select_next_wraps_ordered_keys() {
    let mut rt = ReactiveRuntime::new();
    let mut selector = Selector::new(&mut rt, Some(3_u64));

    let (changed, _) = selector.select_next(&mut rt, &vec![1_u64, 2, 3]);

    assert!(changed);
    assert_eq!(selector.get_untracked(), Some(1));
}

#[test]
fn selector_select_next_uses_first_when_current_is_missing() {
    let mut rt = ReactiveRuntime::new();
    let mut selector = Selector::new(&mut rt, Some(7_u64));

    let (changed, _) = selector.select_next(&mut rt, &vec![1_u64, 2, 3]);

    assert!(changed);
    assert_eq!(selector.get_untracked(), Some(1));
}

#[test]
fn selector_select_previous_wraps_ordered_keys() {
    let mut rt = ReactiveRuntime::new();
    let mut selector = Selector::new(&mut rt, Some(1_u64));

    let (changed, _) = selector.select_previous(&mut rt, &vec![1_u64, 2, 3]);

    assert!(changed);
    assert_eq!(selector.get_untracked(), Some(3));
}

#[test]
fn selector_select_previous_uses_last_when_current_is_missing() {
    let mut rt = ReactiveRuntime::new();
    let mut selector = Selector::new(&mut rt, Some(7_u64));

    let (changed, _) = selector.select_previous(&mut rt, &vec![1_u64, 2, 3]);

    assert!(changed);
    assert_eq!(selector.get_untracked(), Some(3));
}

#[test]
fn selector_select_next_clears_empty_key_set() {
    let mut rt = ReactiveRuntime::new();
    let mut selector = Selector::new(&mut rt, Some(1_u64));

    let (changed, _) = selector.select_next(&mut rt, &Vec::new());

    assert!(changed);
    assert_eq!(selector.get_untracked(), None);
}

#[test]
fn selector_select_next_keeps_single_selected_key() {
    let mut rt = ReactiveRuntime::new();
    let mut selector = Selector::new(&mut rt, Some(1_u64));

    let (changed, _) = selector.select_next(&mut rt, &vec![1_u64]);

    assert!(!changed);
    assert_eq!(selector.get_untracked(), Some(1));
}

#[test]
fn selector_select_first_uses_first_ordered_key() {
    let mut rt = ReactiveRuntime::new();
    let mut selector = Selector::new(&mut rt, Some(3_u64));

    let (changed, _) = selector.select_first(&mut rt, &vec![1_u64, 2, 3]);

    assert!(changed);
    assert_eq!(selector.get_untracked(), Some(1));
}

#[test]
fn selector_select_last_uses_last_ordered_key() {
    let mut rt = ReactiveRuntime::new();
    let mut selector = Selector::new(&mut rt, Some(1_u64));

    let (changed, _) = selector.select_last(&mut rt, &vec![1_u64, 2, 3]);

    assert!(changed);
    assert_eq!(selector.get_untracked(), Some(3));
}

#[test]
fn selector_select_first_clears_empty_key_set() {
    let mut rt = ReactiveRuntime::new();
    let mut selector = Selector::new(&mut rt, Some(1_u64));

    let (changed, _) = selector.select_first(&mut rt, &Vec::new());

    assert!(changed);
    assert_eq!(selector.get_untracked(), None);
}

#[test]
fn selector_select_next_by_uses_item_keys() {
    let mut rt = ReactiveRuntime::new();
    let mut selector = Selector::new(&mut rt, Some(2_u64));
    let items = vec![Item { id: 1 }, Item { id: 2 }, Item { id: 3 }];

    let (changed, _) = selector.select_next_by(&mut rt, &items, |item: &Item| item.id);

    assert!(changed);
    assert_eq!(selector.get_untracked(), Some(3));
}

#[test]
fn selector_select_last_by_uses_item_keys() {
    let mut rt = ReactiveRuntime::new();
    let mut selector = Selector::new(&mut rt, Some(1_u64));
    let items = vec![Item { id: 1 }, Item { id: 2 }, Item { id: 3 }];

    let (changed, _) = selector.select_last_by(&mut rt, &items, |item: &Item| item.id);

    assert!(changed);
    assert_eq!(selector.get_untracked(), Some(3));
}

#[test]
fn selector_reconcile_keys_by_clears_missing_selection() {
    let mut rt = ReactiveRuntime::new();
    let mut selector = Selector::new(&mut rt, Some(7_u64));
    let items = vec![Item { id: 1 }, Item { id: 2 }];

    let (changed, _) = selector.reconcile_keys_by(&mut rt, &items, |item: &Item| item.id);

    assert!(changed);
    assert_eq!(selector.get_untracked(), None);
}

#[test]
fn selector_reconcile_or_select_first_picks_first_available_key() {
    let mut rt = ReactiveRuntime::new();
    let mut selector = Selector::new(&mut rt, Some(7_u64));
    let (changed, _) = selector.reconcile_or_select_first(&mut rt, &vec![4_u64, 5]);
    assert!(changed);
    assert_eq!(selector.get_untracked(), Some(4));
    let (changed, _) = selector.reconcile_or_select_first(&mut rt, &vec![5_u64, 4]);
    assert!(!changed);
    assert_eq!(selector.get_untracked(), Some(4));
}

#[test]
fn selector_set_same_key_wakes_nobody() {
    let mut rt = ReactiveRuntime::new();
    let mut selector = Selector::new(&mut rt, Some(1_u64));
    let watcher = effect(&mut rt);
    run_effect(&mut rt, watcher.id(), |rt| {
        let _ = selector.get(rt);
        let _ = selector.is_selected(rt, 1);
    });
    let n = selector.set(&mut rt, Some(1));
    assert!(n.is_empty());
    let n = selector.clear(&mut rt);
    assert_eq!(n.effects, vec![watcher.id()]);
}

#[test]
fn app_ext_creates_selector() {
    let mut rt = ReactiveRuntime::new();
    let mut selector = Selector::new(&mut rt, Some(1_u64));

    assert!(selector.is_selected(&mut rt, 1));
    assert!(!selector.is_selected(&mut rt, 2));
}
