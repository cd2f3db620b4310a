use relay::{
    EffectId, EntityId, Memo, ObserverId, ReactiveRuntime, Signal, SignalNotifications, effect,
};

/// A minimal host: signals by index, effect bodies by identity, and what
/// the bodies saw.
struct Host {
    rt: ReactiveRuntime,
    signals: Vec<Signal<i32>>,
    flag: Option<Signal<bool>>,
    bodies: Vec<(EffectId, fn(&mut Host))>,
    seen: i32,
    runs: usize,
    events: Vec<String>,
    current: Option<EffectId>,
    cleanups: Vec<(EffectId, fn(&mut Host, i32), i32)>,
}

impl Host {
    fn new(values: &[i32]) -> Self {
        let mut rt = ReactiveRuntime::new();
        let signals = values.iter().map(|v| Signal::new(&mut rt, *v)).collect();
        Host {
            rt,
            signals,
            flag: None,
            bodies: Vec::new(),
            seen: 0,
            runs: 0,
            events: Vec::new(),
            current: None,
            cleanups: Vec::new(),
        }
    }

    /// Register an effect and run it once, as creating one does.
    fn effect(&mut self, body: fn(&mut Host)) -> EffectId {
        let id = effect(&mut self.rt).id();
        self.bodies.push((id, body));
        self.run(id);
        id
    }

    fn run(&mut self, id: EffectId) {
        if !self.rt.start_effect_run(id) {
            return;
        }
        self.run_cleanups(id);
        if !self.rt.begin_effect_body(id) {
            return;
        }
        let body = self.bodies.iter().find(|(e, _)| *e == id).map(|(_, b)| *b);
        if let Some(body) = body {
            self.current = Some(id);
            body(self);
            self.current = None;
        }
        self.rt.finish_effect_run(id);
    }

    /// Register a cleanup for the running effect.
    fn on_cleanup(&mut self, cleanup: fn(&mut Host, i32), value: i32) {
        let id = self.current.expect("cleanups are registered by a running effect");
        self.cleanups.push((id, cleanup, value));
    }

    /// Run the cleanups of `id` in a scope that records no reads.
    fn run_cleanups(&mut self, id: EffectId) {
        let mut mine = Vec::new();
        let mut rest = Vec::new();
        for entry in self.cleanups.drain(..) {
            if entry.0 == id {
                mine.push(entry);
            } else {
                rest.push(entry);
            }
        }
        self.cleanups = rest;
        if mine.is_empty() {
            return;
        }
        self.rt.begin_untracked_scope();
        for (_, cleanup, value) in mine {
            cleanup(self, value);
        }
        let dropped = self.rt.end_tracking();
        assert!(dropped.is_empty(), "cleanup scope should not collect dependencies");
    }

    fn dispose(&mut self, id: EffectId) {
        relay::Effect::from_id(id).dispose(&mut self.rt);
        self.run_cleanups(id);
    }

    fn flush(&mut self, n: SignalNotifications) {
        for id in n.effects {
            self.run(id);
        }
    }

    fn get(&mut self, i: usize) -> i32 {
        self.signals[i].get(&mut self.rt)
    }

    fn set(&mut self, i: usize, value: i32) {
        let n = self.signals[i].set(&mut self.rt, value);
        self.flush(n);
    }
}

fn render(rt: &mut ReactiveRuntime, entity: EntityId, body: impl FnOnce(&mut ReactiveRuntime)) {
    rt.begin_tracking();
    body(rt);
    rt.finish_entity_render(entity);
}

#[test]
fn rerender_replaces_previous_signal_dependencies() {
    let mut rt = ReactiveRuntime::new();
    let signal = Signal::new(&mut rt, 0);
    let alternate = Signal::new(&mut rt, 10);
    let view = EntityId(5);
    render(&mut rt, view, |rt| {
        let _ = signal.get(rt);
    });
    assert_eq!(rt.observer_count(signal.id()), 1);

    render(&mut rt, view, |rt| {
        let _ = alternate.get(rt);
    });
    assert_eq!(rt.observer_count(signal.id()), 0);
    assert_eq!(rt.observer_count(alternate.id()), 1);
}

#[test]
fn runtime_batches_signal_notifications_until_outer_batch_exits() {
    let mut rt = ReactiveRuntime::new();
    let entity_id = EntityId(42);
    let signal_id = rt.allocate_signal();
    rt.replace_entity_dependencies(entity_id, vec![signal_id]);
    rt.enter_batch();
    let queued = rt.notify_signal(signal_id);
    assert!(queued.is_empty());
    let notifications = rt.exit_batch();
    assert_eq!(notifications.entities, vec![entity_id]);
    assert!(notifications.effects.is_empty());
}

#[test]
fn cleanup_removes_entity_from_all_signal_observers() {
    let mut rt = ReactiveRuntime::new();
    let entity_id = EntityId(42);
    let first = rt.allocate_signal();
    let second = rt.allocate_signal();
    rt.replace_entity_dependencies(entity_id, vec![first, second]);
    rt.remove_entity(entity_id);
    assert_eq!(rt.observer_count(first), 0);
    assert_eq!(rt.observer_count(second), 0);
}

#[test]
fn effect_reruns_when_tracked_signal_changes() {
    let mut host = Host::new(&[1]);
    host.effect(|h| {
        h.seen = h.get(0);
    });
    host.set(0, 2);
    assert_eq!(host.seen, 2);
}

#[test]
fn memo_updates_when_source_signal_changes() {
    let mut rt = ReactiveRuntime::new();
    let mut source = Signal::new(&mut rt, 2);
    let mut memo = Memo::new(&mut rt, 0);
    let memo_effect = memo.effect().unwrap();
    assert!(rt.begin_effect_body(memo_effect));
    let value = source.get(&mut rt) * 3;
    rt.finish_effect_run(memo_effect);
    memo.refresh(&mut rt, value);

    let n = source.set(&mut rt, 4);
    for id in n.effects {
        if id == memo_effect && rt.start_effect_run(id) && rt.begin_effect_body(id) {
            let value = source.get(&mut rt) * 3;
            rt.finish_effect_run(id);
            memo.refresh(&mut rt, value);
        }
    }

    assert_eq!(memo.get(&mut rt), 12);
}

#[test]
fn untrack_does_not_subscribe_rendering_entity() {
    let mut rt = ReactiveRuntime::new();
    let signal = Signal::new(&mut rt, 0);
    let mut alternate = Signal::new(&mut rt, 10);
    let view = EntityId(1);
    render(&mut rt, view, |rt| {
        let _ = signal.get(rt);
    });

    rt.begin_untracked_scope();
    let _peeked = alternate.get(&mut rt);
    let dropped = rt.end_tracking();
    assert!(dropped.is_empty());

    let n = alternate.set(&mut rt, 99);
    assert_eq!(n.entities.len(), 0);
}

#[test]
fn untrack_writes_still_propagate() {
    let mut rt = ReactiveRuntime::new();
    let mut signal = Signal::new(&mut rt, 0);
    let view = EntityId(1);
    render(&mut rt, view, |rt| {
        let _ = signal.get(rt);
    });

    rt.begin_untracked_scope();
    let n = signal.set(&mut rt, 7);
    rt.end_tracking();

    assert_eq!(n.entities.len(), 1);
}

#[test]
fn untrack_nested_restores_tracking_after_scope_exits() {
    let mut rt = ReactiveRuntime::new();
    let mut signal = Signal::new(&mut rt, 0);
    let mut alternate = Signal::new(&mut rt, 10);
    let view = EntityId(1);
    render(&mut rt, view, |rt| {
        rt.begin_untracked_scope();
        let _untracked_peek = alternate.get(rt);
        rt.end_tracking();
        let _tracked = signal.get(rt);
    });
    let mut notifications = 0;

    notifications += signal.set(&mut rt, 1).entities.len();
    assert_eq!(notifications, 1);

    notifications += alternate.set(&mut rt, 55).entities.len();
    assert_eq!(notifications, 1);
}

#[test]
fn nested_batch_only_flushes_on_outermost_exit() {
    let mut rt = ReactiveRuntime::new();
    let entity_id = EntityId(42);
    let signal_id = rt.allocate_signal();
    rt.replace_entity_dependencies(entity_id, vec![signal_id]);
    rt.enter_batch();
    rt.enter_batch();
    let queued = rt.notify_signal(signal_id);
    assert!(queued.is_empty(), "inner batch should not flush");
    let inner_notifications = rt.exit_batch();
    assert!(inner_notifications.is_empty(), "exiting inner batch should not flush");
    let outer_notifications = rt.exit_batch();
    assert_eq!(
        outer_notifications.entities,
        vec![entity_id],
        "exiting outer batch should flush"
    );
}

#[test]
fn batch_flushes_pending_effects_on_exit() {
    let mut host = Host::new(&[0]);
    host.seen = -1;
    host.effect(|h| {
        h.seen = h.get(0);
    });
    assert_eq!(host.seen, 0);

    host.rt.enter_batch();
    for value in [1, 2, 3] {
        let n = host.signals[0].set(&mut host.rt, value);
        assert!(n.is_empty());
    }
    let n = host.rt.exit_batch();
    host.flush(n);

    assert_eq!(host.seen, 3, "effect should see final value");
}

#[test]
fn effect_cascade_writes_trigger_dependent_effect() {
    let mut host = Host::new(&[0, 0]);
    host.effect(|h| {
        let val = h.get(0);
        h.set(1, val * 10);
    });
    host.effect(|h| {
        h.seen = h.get(1);
    });
    assert_eq!(host.seen, 0);

    host.set(0, 5);
    assert_eq!(host.seen, 50, "cascade should propagate to effect B");
}

#[test]
fn disposed_effect_does_not_rerun_on_signal_change() {
    let mut host = Host::new(&[0]);
    let id = host.effect(|h| {
        h.seen = h.get(0) + 1;
    });
    assert_eq!(host.seen, 1);

    relay::Effect::from_id(id).dispose(&mut host.rt);

    host.set(0, 99);
    assert_eq!(host.seen, 1, "disposed effect should not rerun");
}

#[test]
fn effect_with_no_dependencies_does_not_rerun() {
    let mut host = Host::new(&[0]);
    host.effect(|h| {
        h.runs += 1;
    });
    assert_eq!(host.runs, 1, "effect runs once on creation");

    host.set(0, 42);
    assert_eq!(host.runs, 1, "effect with no deps should not rerun");
}

#[test]
fn effect_rerun_updates_dependencies() {
    let mut host = Host::new(&[1, 2]);
    host.flag = Some(Signal::new(&mut host.rt, false));
    host.effect(|h| {
        let flag = h.flag.as_ref().unwrap().get(&mut h.rt);
        h.seen = if flag { h.get(1) } else { h.get(0) };
    });
    assert_eq!(host.seen, 1, "initial: reads s1");

    let n = host.flag.as_mut().unwrap().set(&mut host.rt, true);
    host.flush(n);
    assert_eq!(host.seen, 2, "after flag flip: reads s2");

    host.set(0, 100);
    assert_eq!(host.seen, 2, "s1 change should not trigger effect after dep switch");

    host.set(1, 200);
    assert_eq!(host.seen, 200, "s2 change should trigger effect");
}

#[test]
fn reading_signal_outside_tracking_context_does_not_panic() {
    let mut rt = ReactiveRuntime::new();
    let signal = Signal::new(&mut rt, 42);

    let val = signal.get(&mut rt);
    assert_eq!(val, 42);
    assert_eq!(rt.observer_count(signal.id()), 0);
}

#[test]
fn entity_release_hook_is_requested_once() {
    let mut rt = ReactiveRuntime::new();
    let signal = Signal::new(&mut rt, 1);
    let view = EntityId(8);
    rt.begin_tracking();
    let _ = signal.get(&mut rt);
    assert!(rt.finish_entity_render(view));
    rt.begin_tracking();
    let _ = signal.get(&mut rt);
    assert!(!rt.finish_entity_render(view));
    assert!(rt.has_release_subscription(view));
    rt.remove_entity(view);
    assert!(!rt.has_release_subscription(view));
    assert_eq!(rt.observer_count(signal.id()), 0);
}

#[test]
fn replacing_observer_dependencies_counts_each_observer_once() {
    let mut rt = ReactiveRuntime::new();
    let s = rt.allocate_signal();
    rt.replace_observer_dependencies(ObserverId::Entity(EntityId(1)), vec![s, s]);
    rt.replace_observer_dependencies(ObserverId::Effect(EffectId(0)), vec![s]);
    assert_eq!(rt.observer_count(s), 2);
    let n = rt.notify_all(&vec![s, s]);
    assert_eq!(n.entities, vec![EntityId(1)]);
    assert_eq!(n.effects, vec![EffectId(0)]);
}

#[test]
fn effect_id_is_unique() {
    let mut host = Host::new(&[]);
    let e1 = host.effect(|_| {});
    let e2 = host.effect(|_| {});

    assert_ne!(e1, e2, "each effect should have a unique id");
}

#[test]
fn effect_dispose_removes_callback() {
    let mut host = Host::new(&[0]);
    let id = host.effect(|h| {
        let _ = h.get(0);
        h.runs += 1;
    });
    assert_eq!(host.runs, 1, "effect runs once on creation");

    host.dispose(id);
    host.set(0, 5);

    assert_eq!(host.runs, 1, "disposed effect should not rerun");
}

#[test]
fn effect_cleanup_runs_before_rerun() {
    let mut host = Host::new(&[0]);
    host.effect(|h| {
        let value = h.get(0);
        h.events.push(format!("run {value}"));
        h.on_cleanup(|h, value| h.events.push(format!("cleanup {value}")), value);
    });

    host.set(0, 1);

    assert_eq!(
        host.events,
        vec!["run 0".to_string(), "cleanup 0".to_string(), "run 1".to_string()],
        "previous cleanup should run before the next effect body"
    );
}

#[test]
fn effect_cleanup_runs_on_dispose() {
    let mut host = Host::new(&[]);
    let id = host.effect(|h| {
        h.on_cleanup(|h, _| h.runs += 1, 0);
    });
    assert_eq!(host.runs, 0);

    host.dispose(id);

    assert_eq!(host.runs, 1);
}

#[test]
fn cleanup_reads_are_untracked() {
    let mut host = Host::new(&[0, 0]);
    host.effect(|h| {
        let _ = h.get(0);
        h.runs += 1;
        h.on_cleanup(
            |h, _| {
                let _ = h.get(1);
            },
            0,
        );
    });

    host.set(0, 1);
    assert_eq!(host.runs, 2);

    host.set(1, 1);
    assert_eq!(host.runs, 2);
}

#[test]
fn app_ext_batch_flushes_effect_once() {
    let mut host = Host::new(&[0]);
    host.effect(|h| {
        let _ = h.get(0);
        h.runs += 1;
    });
    assert_eq!(host.runs, 1);

    host.rt.enter_batch();
    let n = host.signals[0].set(&mut host.rt, 1);
    host.flush(n);
    let n = host.signals[0].set(&mut host.rt, 2);
    host.flush(n);
    let n = host.rt.exit_batch();
    host.flush(n);

    assert_eq!(host.runs, 2);
}

#[test]
fn app_ext_untrack_does_not_subscribe() {
    let mut rt = ReactiveRuntime::new();
    let signal = Signal::new(&mut rt, 0);
    let mut other = Signal::new(&mut rt, 100);
    let entity = EntityId(1);

    render(&mut rt, entity, |rt| {
        let _a = signal.get(rt);
        rt.begin_untracked_scope();
        let _b = other.get(rt);
        rt.end_tracking();
    });

    let n = other.set(&mut rt, 200);

    assert!(n.entities.is_empty(), "untracked reads should not subscribe the entity");
}

#[test]
fn derived_updates_when_source_changes() {
    let mut rt = ReactiveRuntime::new();
    let mut source = Signal::new(&mut rt, 3);
    let memo_initial = source.get_untracked() * 2;
    let mut derived = Memo::new(&mut rt, memo_initial);
    let derived_effect = derived.effect().unwrap();
    assert!(rt.start_effect_run(derived_effect));
    assert!(rt.begin_effect_body(derived_effect));
    let value = source.get(&mut rt) * 2;
    rt.finish_effect_run(derived_effect);
    derived.refresh(&mut rt, value);

    assert_eq!(derived.get(&mut rt), 6);

    let n = source.set(&mut rt, 5);
    for id in n.effects {
        if id == derived_effect && rt.start_effect_run(id) && rt.begin_effect_body(id) {
            let value = source.get(&mut rt) * 2;
            rt.finish_effect_run(id);
            derived.refresh(&mut rt, value);
        }
    }

    assert_eq!(derived.get(&mut rt), 10);
}
