use relay::{Binding, EffectId, EntityId, ReactiveRuntime, Signal, SignalStore, effect};

/// Render `entity` under tracking and record what it read.
fn render(rt: &mut ReactiveRuntime, entity: EntityId, body: impl FnOnce(&mut ReactiveRuntime)) {
    rt.begin_tracking();
    body(rt);
    rt.finish_entity_render(entity);
}

/// Run an effect body under tracking and record what it read.
fn run_effect(rt: &mut ReactiveRuntime, id: EffectId, body: impl FnOnce(&mut ReactiveRuntime)) {
    assert!(rt.begin_effect_body(id));
    body(rt);
    rt.finish_effect_run(id);
}

/// The number of observers queued for waking.
fn pending_notifications(rt: &mut ReactiveRuntime) -> usize {
    rt.enter_batch();
    let n = rt.exit_batch();
    n.entities.len() + n.effects.len()
}

#[test]
fn update_silent_does_not_notify() {
    let mut rt = ReactiveRuntime::new();
    let mut signal = Signal::new(&mut rt, 0);
    let view = EntityId(1);
    render(&mut rt, view, |rt| {
        let _ = signal.get(rt);
    });

    signal.update_silent(|_v| 42);

    assert_eq!(pending_notifications(&mut rt), 0);
    assert_eq!(signal.get_untracked(), 42);
}

#[test]
fn set_silent_does_not_notify() {
    let mut rt = ReactiveRuntime::new();
    let mut signal = Signal::new(&mut rt, 0);
    let view = EntityId(1);
    render(&mut rt, view, |rt| {
        let _ = signal.get(rt);
    });

    signal.set_silent(7);

    assert_eq!(pending_notifications(&mut rt), 0);
    assert_eq!(signal.get_untracked(), 7);
}

#[test]
fn update_silent_then_visible_update_notifies() {
    let mut rt = ReactiveRuntime::new();
    let mut signal = Signal::new(&mut rt, 0);
    let watcher = effect(&mut rt);
    let mut runs = 0;
    run_effect(&mut rt, watcher.id(), |rt| {
        signal.get(rt);
    });
    runs += 1;

    assert_eq!(runs, 1);

    signal.update_silent(|_v| 1);
    assert_eq!(runs, 1);

    let n = signal.set(&mut rt, 2);
    runs += n.effects.iter().filter(|id| **id == watcher.id()).count();
    assert_eq!(runs, 2);
}

#[test]
fn read_handle_tracks_dependencies() {
    let mut rt = ReactiveRuntime::new();
    let mut store = SignalStore::new();
    let signal = Signal::new(&mut rt, 0);
    let (read, write) = signal.split(&mut store);
    let view = EntityId(1);

    render(&mut rt, view, |rt| {
        let _ = read.get(rt, &store);
    });

    let n = write.set(&mut rt, &mut store, 99);
    assert_eq!(n.entities, vec![view]);
}

#[test]
fn update_returning_false_does_not_notify() {
    let mut rt = ReactiveRuntime::new();
    let mut signal = Signal::new(&mut rt, 0);
    let view = EntityId(1);
    render(&mut rt, view, |rt| {
        let _ = signal.get(rt);
    });
    let mut notifications = 0;

    let n = signal.update(&mut rt, |v| (*v, false));
    notifications += n.entities.len();
    assert_eq!(notifications, 0);

    let n = signal.update(&mut rt, |v| (*v + 1, true));
    notifications += n.entities.len();
    assert_eq!(notifications, 1);
}

#[test]
fn peek_reads_value_without_tracking() {
    let mut rt = ReactiveRuntime::new();
    let mut signal = Signal::new(&mut rt, 42);
    let watcher = effect(&mut rt);
    let mut runs = 0;
    run_effect(&mut rt, watcher.id(), |_rt| {
        let _ = *signal.peek();
    });
    runs += 1;
    assert_eq!(runs, 1);

    let n = signal.set(&mut rt, 100);
    runs += n.effects.len();
    assert_eq!(runs, 1, "peek should not register dependency");
}

#[test]
fn update_works_for_non_partial_eq_types() {
    struct NonEq(i32);

    let mut rt = ReactiveRuntime::new();
    let mut signal = Signal::new(&mut rt, NonEq(0));

    signal.update(&mut rt, |_v| (NonEq(5), true));

    assert_eq!(signal.read(&mut rt).0, 5);
}

#[test]
fn setting_same_value_does_not_notify_entity() {
    let mut rt = ReactiveRuntime::new();
    let mut signal = Signal::new(&mut rt, 0);
    let view = EntityId(3);
    render(&mut rt, view, |rt| {
        let _ = signal.get(rt);
    });

    let n = signal.set(&mut rt, 0);

    assert!(n.is_empty());
}

#[test]
fn tracked_signal_notifies_rendering_entity_when_changed() {
    let mut rt = ReactiveRuntime::new();
    let mut signal = Signal::new(&mut rt, 0);
    let view = EntityId(3);
    render(&mut rt, view, |rt| {
        let _ = signal.get(rt);
    });

    let n = signal.set(&mut rt, 1);

    assert_eq!(n.entities, vec![view]);
}

#[test]
fn binding_sets_and_reads_signal_value() {
    let mut rt = ReactiveRuntime::new();
    let mut store = SignalStore::new();
    let binding = Binding::new(Signal::new(&mut rt, false), &mut store);

    binding.set(&mut rt, &mut store, true);

    assert!(binding.get(&mut rt, &store));
}

#[test]
fn binding_update_silent_does_not_notify() {
    let mut rt = ReactiveRuntime::new();
    let mut store = SignalStore::new();
    let binding = Binding::new(Signal::new(&mut rt, 0), &mut store);
    let watcher = effect(&mut rt);
    let mut runs = 0;
    run_effect(&mut rt, watcher.id(), |rt| {
        let _ = binding.get(rt, &store);
    });
    runs += 1;
    assert_eq!(runs, 1);

    binding.update_silent(&mut store, |_v| 42);
    assert_eq!(runs, 1);

    assert_eq!(binding.get(&mut rt, &store), 42);
}

#[test]
fn binding_from_signal_preserves_identity() {
    let mut rt = ReactiveRuntime::new();
    let signal = Signal::new(&mut rt, String::from("hello"));
    let signal_id = signal.id();
    let mut store = SignalStore::new();
    let binding: Binding<String> = Binding::new(signal, &mut store);

    assert_eq!(binding.signal(&store).id(), signal_id);
}

#[test]
fn signal_ids_are_allocated_in_order() {
    let mut rt = ReactiveRuntime::new();
    let a = Signal::new(&mut rt, 1);
    let b = Signal::new(&mut rt, 2);
    assert_eq!(b.id().0, a.id().0 + 1);
    assert_eq!(rt.next_signal_id(), b.id().0 + 1);
}

#[test]
fn app_ext_creates_binding() {
    let mut rt = ReactiveRuntime::new();
    let mut store = SignalStore::new();
    let binding = Binding::new(Signal::new(&mut rt, false), &mut store);

    binding.set(&mut rt, &mut store, true);

    assert!(binding.get(&mut rt, &store));
}

#[test]
fn split_produces_isolated_read_and_write_handles() {
    let mut rt = ReactiveRuntime::new();
    let mut store = SignalStore::new();
    let signal = Signal::new(&mut rt, 10);
    let id = signal.id();
    let (read, write) = signal.split(&mut store);

    write.set(&mut rt, &mut store, 20);

    assert_eq!(read.get(&mut rt, &store), 20);
    assert_eq!(read.id(), id);
    assert_eq!(write.id(), id);
}

#[test]
fn binding_clone_shares_underlying_signal() {
    let mut rt = ReactiveRuntime::new();
    let mut store = SignalStore::new();
    let binding = Binding::new(Signal::new(&mut rt, 10), &mut store);

    let cloned = binding.clone();

    cloned.set(&mut rt, &mut store, 20);
    assert_eq!(binding.get(&mut rt, &store), 20);

    binding.set(&mut rt, &mut store, 30);
    assert_eq!(cloned.get(&mut rt, &store), 30);
}
