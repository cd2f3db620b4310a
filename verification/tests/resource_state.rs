use relay::{LoadMode, ReactiveRuntime, Resource, ResourceState};

#[test]
fn resource_state_latest_borrows_ready_and_reloading_values() {
    let ready = ResourceState::<_, &'static str>::Ready(7);
    assert_eq!(ready.latest(), Some(&7));

    let reloading = ResourceState::<_, &'static str>::Reloading(8);
    assert_eq!(reloading.latest(), Some(&8));
}

#[test]
fn resource_state_has_latest_for_ready_and_reloading() {
    let ready = ResourceState::<_, &'static str>::Ready(7);
    assert!(ready.has_latest());

    let reloading = ResourceState::<_, &'static str>::Reloading(8);
    assert!(reloading.has_latest());

    let pending = ResourceState::<i32, &'static str>::Pending;
    assert!(!pending.has_latest());
}

#[test]
fn resource_state_fold_latest_collapses_ready_and_reloading() {
    let ready = ResourceState::<_, &'static str>::Ready(7);
    let reloading = ResourceState::<_, &'static str>::Reloading(8);

    let ready_result = ready.fold_latest(
        || "pending".to_string(),
        |value, loading| format!("{value}:{loading}"),
        |error| error.to_string(),
    );
    let reloading_result = reloading.fold_latest(
        || "pending".to_string(),
        |value, loading| format!("{value}:{loading}"),
        |error| error.to_string(),
    );

    assert_eq!(ready_result, "7:false");
    assert_eq!(reloading_result, "8:true");
}

#[test]
fn resource_state_error_and_pending_have_no_latest() {
    let error = ResourceState::<i32, &'static str>::Error("boom");
    assert_eq!(error.latest(), None);
    assert_eq!(error.error(), Some(&"boom"));
    assert!(error.is_error());
    let pending = ResourceState::<i32, &'static str>::Pending;
    assert!(pending.is_pending());
    assert!(pending.is_loading());
    assert_eq!(pending.error(), None);
}

#[test]
fn reload_keeps_ready_value_visible_and_stale_completion_is_ignored() {
    let mut rt = ReactiveRuntime::new();
    let mut resource = Resource::<i32, String>::ready(&mut rt, 1);
    let (first, _) = resource.begin_load(&mut rt, LoadMode::RetainLatest);
    assert_eq!(resource.get(&mut rt), ResourceState::Reloading(1));
    let (second, _) = resource.begin_load(&mut rt, LoadMode::RetainLatest);
    assert!(second > first);
    let (committed, _) = resource.complete(&mut rt, first, Ok(5));
    assert!(!committed);
    assert_eq!(resource.get(&mut rt), ResourceState::Reloading(1));
    let (committed, _) = resource.complete(&mut rt, second, Ok(9));
    assert!(committed);
    assert_eq!(resource.get(&mut rt), ResourceState::Ready(9));
}

#[test]
fn resource_transitions_from_pending_to_ready() {
    let mut rt = ReactiveRuntime::new();
    let mut resource = Resource::<i32, &'static str>::pending(&mut rt);

    resource.set_ready(&mut rt, 7);

    assert_eq!(resource.get(&mut rt), ResourceState::Ready(7));
}

#[test]
fn resource_stores_error_state() {
    let mut rt = ReactiveRuntime::new();
    let mut resource = Resource::<i32, &'static str>::ready(&mut rt, 7);

    resource.set_error(&mut rt, "failed");

    assert_eq!(resource.get(&mut rt), ResourceState::Error("failed"));
}

#[test]
fn resource_fold_latest_reads_ready_value() {
    let mut rt = ReactiveRuntime::new();
    let resource = Resource::<i32, &'static str>::ready(&mut rt, 7);

    let result = resource.fold_latest(
        &mut rt,
        || 0,
        |value, loading| value + if loading { 1 } else { 0 },
        |_| -1,
    );

    assert_eq!(result, 7);
}

#[test]
fn resource_status_queries_read_current_state() {
    let mut rt = ReactiveRuntime::new();
    let mut resource = Resource::<i32, &'static str>::ready(&mut rt, 7);

    assert!(resource.is_ready(&mut rt));
    assert!(resource.has_latest(&mut rt));
    assert!(!resource.is_loading(&mut rt));

    resource.set_pending(&mut rt);

    assert!(resource.is_pending(&mut rt));
    assert!(resource.is_loading(&mut rt));
    assert!(!resource.has_latest(&mut rt));
}

#[test]
fn resource_read_error_borrows_non_clone_error() {
    struct NonCloneError(&'static str);

    let mut rt = ReactiveRuntime::new();
    let resource = Resource::<i32, NonCloneError>::error(&mut rt, NonCloneError("failed"));

    let label = resource.read_error(&mut rt).map(|error| error.0);

    assert_eq!(label, Some("failed"));
}

#[test]
fn resource_error_value_clones_current_error() {
    let mut rt = ReactiveRuntime::new();
    let resource = Resource::<i32, String>::error(&mut rt, "failed".to_string());

    let error = resource.error_value(&mut rt);

    assert_eq!(error, Some("failed".to_string()));
}

#[test]
fn resource_cancel_ignores_load_completion() {
    let mut rt = ReactiveRuntime::new();
    let mut resource = Resource::<i32, String>::pending(&mut rt);
    let (generation, _) = resource.load(&mut rt);
    resource.cancel();
    let (committed, n) = resource.complete(&mut rt, generation, Ok(3));
    assert!(!committed);
    assert!(n.is_empty());
    assert_eq!(resource.get(&mut rt), ResourceState::Pending);
}

#[test]
fn resource_cancel_to_latest_restores_retained_value() {
    let mut rt = ReactiveRuntime::new();
    let mut resource = Resource::<i32, String>::ready(&mut rt, 4);
    resource.reload(&mut rt);
    assert_eq!(resource.get(&mut rt), ResourceState::Reloading(4));
    resource.cancel_to_latest(&mut rt);
    assert_eq!(resource.get(&mut rt), ResourceState::Ready(4));
}

#[test]
fn resource_reload_from_error_enters_pending_without_latest() {
    let mut rt = ReactiveRuntime::new();
    let mut resource = Resource::<i32, String>::error(&mut rt, "bad".to_string());
    resource.reload(&mut rt);
    assert_eq!(resource.get(&mut rt), ResourceState::Pending);
    assert!(!resource.has_latest(&mut rt));
}

#[test]
fn resource_load_resolves_to_ready() {
    let mut rt = ReactiveRuntime::new();
    let mut resource = Resource::<i32, &'static str>::pending(&mut rt);

    let (generation, _) = resource.load(&mut rt);
    let (committed, _) = resource.complete(&mut rt, generation, Ok(7));

    assert!(committed);
    assert_eq!(resource.get(&mut rt), ResourceState::Ready(7));
}

#[test]
fn resource_load_resets_previous_value_while_pending() {
    let mut rt = ReactiveRuntime::new();
    let mut resource = Resource::<i32, &'static str>::ready(&mut rt, 1);

    let (generation, _) = resource.load(&mut rt);

    assert_eq!(resource.get(&mut rt), ResourceState::Pending);
    assert_eq!(resource.latest(&mut rt), None);

    resource.complete(&mut rt, generation, Ok(2));

    assert_eq!(resource.get(&mut rt), ResourceState::Ready(2));
}

#[test]
fn resource_reload_retains_latest_value_while_loading() {
    let mut rt = ReactiveRuntime::new();
    let mut resource = Resource::<i32, &'static str>::ready(&mut rt, 1);

    let (generation, _) = resource.reload(&mut rt);

    assert_eq!(resource.get(&mut rt), ResourceState::Reloading(1));
    assert_eq!(resource.latest(&mut rt), Some(1));

    resource.complete(&mut rt, generation, Ok(2));

    assert_eq!(resource.get(&mut rt), ResourceState::Ready(2));
}

#[test]
fn resource_load_resolves_to_error() {
    let mut rt = ReactiveRuntime::new();
    let mut resource = Resource::<i32, &'static str>::pending(&mut rt);

    let (generation, _) = resource.load(&mut rt);
    resource.complete(&mut rt, generation, Err("failed"));

    assert_eq!(resource.get(&mut rt), ResourceState::Error("failed"));
}

#[test]
fn resource_ignores_stale_load_completion() {
    let mut rt = ReactiveRuntime::new();
    let mut resource = Resource::<i32, &'static str>::pending(&mut rt);

    let (first, _) = resource.load(&mut rt);
    let (second, _) = resource.load(&mut rt);
    resource.complete(&mut rt, second, Ok(2));
    let (committed, _) = resource.complete(&mut rt, first, Ok(1));

    assert!(!committed);
    assert_eq!(resource.get(&mut rt), ResourceState::Ready(2));
}

#[test]
fn app_ext_creates_ready_resource() {
    let mut rt = ReactiveRuntime::new();
    let resource = Resource::<i32, &'static str>::ready(&mut rt, 7);

    assert_eq!(resource.get(&mut rt), ResourceState::Ready(7));
}
