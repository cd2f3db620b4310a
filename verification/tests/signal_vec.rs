use relay::{EffectId, EntityId, ReactiveRuntime, Selector, Signal, effect};

/// A list view that renders the list's length, tracking the list.
fn list_view(rt: &mut ReactiveRuntime, items: &Signal<Vec<i32>>) -> EntityId {
    let view = EntityId(1);
    rt.begin_tracking();
    let _ = items.read(rt).len().to_string();
    rt.finish_entity_render(view);
    view
}

fn run_effect(rt: &mut ReactiveRuntime, id: EffectId, body: impl FnOnce(&mut ReactiveRuntime)) {
    assert!(rt.begin_effect_body(id));
    body(rt);
    rt.finish_effect_run(id);
}

#[test]
fn push_notifies_rendering_entity() {
    let mut rt = ReactiveRuntime::new();
    let mut items: Signal<Vec<i32>> = Signal::new(&mut rt, Vec::new());
    let view = list_view(&mut rt, &items);
    let mut notifications = 0;

    notifications += items.push(&mut rt, 1).entities.iter().filter(|e| **e == view).count();

    assert_eq!(notifications, 1);
    assert_eq!(items.get_untracked(), vec![1]);
}

#[test]
fn extend_notifies_rendering_entity_once() {
    let mut rt = ReactiveRuntime::new();
    let mut items: Signal<Vec<i32>> = Signal::new(&mut rt, Vec::new());
    let view = list_view(&mut rt, &items);
    let mut notifications = 0;

    notifications += items.extend(&mut rt, vec![1, 2, 3]).entities.iter().filter(|e| **e == view).count();

    assert_eq!(notifications, 1);
    assert_eq!(items.get_untracked(), vec![1, 2, 3]);
}

#[test]
fn extend_empty_does_not_notify() {
    let mut rt = ReactiveRuntime::new();
    let mut items: Signal<Vec<i32>> = Signal::new(&mut rt, Vec::new());
    let _view = list_view(&mut rt, &items);
    let mut notifications = 0;

    notifications += items.extend(&mut rt, Vec::new()).entities.len();

    assert_eq!(notifications, 0);
    assert_eq!(items.get_untracked(), Vec::<i32>::new());
}

#[test]
fn remove_returns_removed_value() {
    let mut rt = ReactiveRuntime::new();
    let mut items: Signal<Vec<i32>> = Signal::new(&mut rt, Vec::new());
    items.push(&mut rt, 10);
    items.push(&mut rt, 20);
    items.push(&mut rt, 30);

    let (removed, _) = items.remove(&mut rt, 1);
    assert_eq!(removed, Some(20));

    assert_eq!(items.get_untracked(), vec![10, 30]);
}

#[test]
fn remove_selected_by_removes_item_and_clears_selection() {
    let mut rt = ReactiveRuntime::new();
    let mut signal: Signal<Vec<i32>> = Signal::new(&mut rt, vec![1, 2, 3]);
    let mut selector = Selector::new(&mut rt, Some(2));

    let (removed, _) = signal.remove_selected_by(&mut rt, &mut selector, |item: &i32| *item as u64);

    assert_eq!(removed, Some(2));
    assert_eq!(signal.get_untracked(), vec![1, 3]);
    assert_eq!(selector.get_untracked(), None);
}

#[test]
fn remove_selected_by_clears_stale_selection_without_mutating_list() {
    let mut rt = ReactiveRuntime::new();
    let mut signal: Signal<Vec<i32>> = Signal::new(&mut rt, vec![1, 2, 3]);
    let mut selector = Selector::new(&mut rt, Some(7));

    let (removed, _) = signal.remove_selected_by(&mut rt, &mut selector, |item: &i32| *item as u64);

    assert_eq!(removed, None);
    assert_eq!(signal.get_untracked(), vec![1, 2, 3]);
    assert_eq!(selector.get_untracked(), None);
}

#[test]
fn remove_selected_by_batches_list_and_selection_notifications() {
    let mut rt = ReactiveRuntime::new();
    let mut signal: Signal<Vec<i32>> = Signal::new(&mut rt, vec![1, 2, 3]);
    let mut selector = Selector::new(&mut rt, Some(2));
    let watcher = effect(&mut rt);
    let mut runs = 0;
    run_effect(&mut rt, watcher.id(), |rt| {
        let _ = signal.get(rt).len();
        let _ = selector.get(rt);
    });
    runs += 1;

    assert_eq!(runs, 1);

    let (_, n) = signal.remove_selected_by(&mut rt, &mut selector, |item: &i32| *item as u64);
    runs += n.effects.iter().filter(|id| **id == watcher.id()).count();

    assert_eq!(runs, 2);
}

#[test]
fn remove_out_of_bounds_returns_none_and_does_not_notify() {
    let mut rt = ReactiveRuntime::new();
    let mut items: Signal<Vec<i32>> = Signal::new(&mut rt, Vec::new());
    let _view = list_view(&mut rt, &items);

    let (removed, n) = items.remove(&mut rt, 5);
    assert_eq!(removed, None);
    assert_eq!(n.entities.len(), 0);
}

#[test]
fn retain_filters_values() {
    let mut rt = ReactiveRuntime::new();
    let mut items: Signal<Vec<i32>> = Signal::new(&mut rt, Vec::new());
    items.push(&mut rt, 1);
    items.push(&mut rt, 2);
    items.push(&mut rt, 3);
    items.push(&mut rt, 4);
    items.retain(&mut rt, |v: &i32| *v % 2 == 0);

    assert_eq!(items.get_untracked(), vec![2, 4]);
}

#[test]
fn clear_on_empty_does_not_notify() {
    let mut rt = ReactiveRuntime::new();
    let mut items: Signal<Vec<i32>> = Signal::new(&mut rt, Vec::new());
    let _view = list_view(&mut rt, &items);

    let n = items.clear(&mut rt);

    assert_eq!(n.entities.len(), 0);
}

#[test]
fn effect_reruns_when_list_changes() {
    let mut rt = ReactiveRuntime::new();
    let mut signal: Signal<Vec<i32>> = Signal::new(&mut rt, Vec::new());
    let watcher = effect(&mut rt);
    let mut lengths = 0;
    run_effect(&mut rt, watcher.id(), |rt| {
        lengths = signal.get(rt).len();
    });

    assert_eq!(lengths, 0);

    let n = signal.push(&mut rt, 1);
    for id in n.effects {
        run_effect(&mut rt, id, |rt| lengths = signal.get(rt).len());
    }
    assert_eq!(lengths, 1);

    let n = signal.push(&mut rt, 2);
    for id in n.effects {
        run_effect(&mut rt, id, |rt| lengths = signal.get(rt).len());
    }
    assert_eq!(lengths, 2);

    let (_, n) = signal.remove(&mut rt, 0);
    for id in n.effects {
        run_effect(&mut rt, id, |rt| lengths = signal.get(rt).len());
    }
    assert_eq!(lengths, 1);
}

#[test]
fn insert_remove_first_and_set_all_edit_in_place() {
    let mut rt = ReactiveRuntime::new();
    let mut items: Signal<Vec<i32>> = Signal::new(&mut rt, vec![1, 3]);
    items.insert(&mut rt, 1, 2);
    assert_eq!(items.get_untracked(), vec![1, 2, 3]);
    let (removed, _) = items.remove_first(&mut rt, |v: &i32| *v > 1);
    assert!(removed);
    assert_eq!(items.get_untracked(), vec![1, 3]);
    let (removed, n) = items.remove_first(&mut rt, |v: &i32| *v > 5);
    assert!(!removed);
    assert!(n.is_empty());
    items.set_all(&mut rt, vec![9]);
    assert_eq!(items.get_untracked(), vec![9]);
    let view = list_view(&mut rt, &items);
    let n = items.retain(&mut rt, |_v: &i32| true);
    assert!(n.is_empty(), "keeping every value changes nothing");
    let n = items.clear(&mut rt);
    assert_eq!(n.entities, vec![view]);
}
