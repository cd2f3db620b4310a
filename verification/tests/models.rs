use relay::{
    LoadMode, Memo, MutationState, ReactiveRuntime, ResourceState, SelectionReconcilePolicy,
    Selector, Signal, use_mutation, use_ordered_selection_model, use_query, use_selection_model,
};

#[derive(Clone, Debug, PartialEq, Eq)]
struct Item {
    id: u64,
    label: &'static str,
}

impl Item {
    fn new(id: u64, label: &'static str) -> Self {
        Self { id, label }
    }
}

#[test]
fn mutation_status_memos_follow_state_transitions() {
    let mut rt = ReactiveRuntime::new();
    let mut mutation = use_mutation::<i32, &'static str>(&mut rt);

    assert!(mutation.idle().get(&mut rt));
    assert!(!mutation.pending().get(&mut rt));
    assert!(!mutation.succeeded().get(&mut rt));
    assert!(!mutation.failed().get(&mut rt));

    mutation.set_succeeded(&mut rt, 7);

    assert!(mutation.succeeded().get(&mut rt));
    assert!(mutation.has_last_success().get(&mut rt));
    assert_eq!(mutation.last_success_value(&mut rt), Some(7));

    mutation.set_failed(&mut rt, "failed");

    assert!(mutation.failed().get(&mut rt));
    assert_eq!(mutation.error_value(&mut rt), Some("failed"));
    assert_eq!(mutation.last_success_value(&mut rt), Some(7));
}

#[test]
fn mutation_ignores_stale_completion() {
    let mut rt = ReactiveRuntime::new();
    let mut mutation = use_mutation::<i32, &'static str>(&mut rt);
    let (first, _, _) = mutation.begin_run(&mut rt);
    let (second, _, _) = mutation.begin_run(&mut rt);
    let (committed, _, _) = mutation.commit_result(&mut rt, first, Ok(1));
    assert!(!committed);
    assert_eq!(mutation.get(&mut rt), MutationState::Pending { last_success: None });
    let (committed, _, _) = mutation.commit_result(&mut rt, second, Ok(2));
    assert!(committed);
    assert_eq!(mutation.get(&mut rt), MutationState::Succeeded(2));
}

#[test]
fn mutation_failure_retains_last_success() {
    let mut rt = ReactiveRuntime::new();
    let mut mutation = use_mutation::<i32, &'static str>(&mut rt);
    mutation.set_succeeded(&mut rt, 10);
    let (generation, _, _) = mutation.begin_run(&mut rt);
    mutation.commit_result(&mut rt, generation, Err("failed"));
    assert_eq!(
        mutation.get(&mut rt),
        MutationState::Failed { error: "failed", last_success: Some(10) }
    );
}

#[test]
fn mutation_cancel_restores_latest_stable_state() {
    let mut rt = ReactiveRuntime::new();
    let mut mutation = use_mutation::<i32, &'static str>(&mut rt);
    mutation.set_succeeded(&mut rt, 3);
    let (generation, _, _) = mutation.begin_run(&mut rt);
    mutation.cancel(&mut rt);
    assert_eq!(mutation.get(&mut rt), MutationState::Succeeded(3));
    let (committed, _, _) = mutation.commit_result(&mut rt, generation, Ok(9));
    assert!(!committed);
}

#[test]
fn optimistic_mutation_failure_rolls_back_external_state() {
    let mut rt = ReactiveRuntime::new();
    let mut mutation = use_mutation::<String, &'static str>(&mut rt);
    let mut server_value = Signal::new(&mut rt, "stable".to_string());

    let (generation, _, _) = mutation.begin_run(&mut rt);
    let previous = server_value.get(&mut rt);
    server_value.set(&mut rt, "optimistic".to_string());
    mutation.arm_rollback();

    assert_eq!(server_value.get(&mut rt), "optimistic".to_string());
    assert!(mutation.is_pending(&mut rt));

    let (committed, rollback, _) = mutation.commit_result(&mut rt, generation, Err("failed"));
    assert!(committed);
    if rollback {
        server_value.set(&mut rt, previous);
    }

    assert_eq!(server_value.get(&mut rt), "stable".to_string());
    assert_eq!(
        mutation.get(&mut rt),
        MutationState::Failed { error: "failed", last_success: None }
    );
}

#[test]
fn mutation_followup_runs_after_latest_completion() {
    let mut rt = ReactiveRuntime::new();
    let mut mutation = use_mutation::<i32, &'static str>(&mut rt);
    let mut followups = 0;
    let mut seen_values = Vec::new();

    let (generation, _, _) = mutation.begin_run(&mut rt);
    let (committed, _, _) = mutation.commit_result(&mut rt, generation, Ok(7));
    if committed {
        followups += 1;
        seen_values.push(mutation.last_success_value(&mut rt).unwrap_or_default());
    }

    assert_eq!(mutation.get(&mut rt), MutationState::Succeeded(7));
    assert_eq!(followups, 1);
    assert_eq!(seen_values, vec![7]);
}

#[test]
fn optimistic_mutation_cancel_rolls_back_external_state() {
    let mut rt = ReactiveRuntime::new();
    let mut mutation = use_mutation::<String, &'static str>(&mut rt);
    let mut server_value = Signal::new(&mut rt, "stable".to_string());

    let (generation, _, _) = mutation.begin_run(&mut rt);
    let previous = server_value.get(&mut rt);
    server_value.set(&mut rt, "optimistic".to_string());
    mutation.arm_rollback();
    let (rollback, _) = mutation.cancel(&mut rt);
    if rollback {
        server_value.set(&mut rt, previous);
    }

    assert_eq!(server_value.get(&mut rt), "stable".to_string());
    assert_eq!(mutation.get(&mut rt), MutationState::Idle);

    let (committed, _, _) =
        mutation.commit_result(&mut rt, generation, Ok("server".to_string()));
    assert!(!committed);
    assert_eq!(mutation.get(&mut rt), MutationState::Idle);
}

#[test]
fn optimistic_mutation_success_can_reconcile_with_followup() {
    let mut rt = ReactiveRuntime::new();
    let mut mutation = use_mutation::<String, &'static str>(&mut rt);
    let mut server_value = Signal::new(&mut rt, "stable".to_string());

    let (generation, _, _) = mutation.begin_run(&mut rt);
    let previous = server_value.get(&mut rt);
    server_value.set(&mut rt, "optimistic".to_string());
    mutation.arm_rollback();

    assert_eq!(server_value.get(&mut rt), "optimistic".to_string());

    let (committed, rollback, _) =
        mutation.commit_result(&mut rt, generation, Ok("canonical".to_string()));
    if rollback {
        server_value.set(&mut rt, previous);
    }
    if committed {
        if let Some(saved) = mutation.last_success_value(&mut rt) {
            server_value.set(&mut rt, saved);
        }
    }

    assert_eq!(server_value.get(&mut rt), "canonical".to_string());
    assert_eq!(
        mutation.get(&mut rt),
        MutationState::Succeeded("canonical".to_string())
    );
}

#[test]
fn newer_run_rolls_back_previous_optimistic_state_before_applying_next() {
    let mut rt = ReactiveRuntime::new();
    let mut mutation = use_mutation::<String, &'static str>(&mut rt);
    let mut server_value = Signal::new(&mut rt, "stable".to_string());
    let mut seen_before_second_apply = Vec::new();

    let (first, _, _) = mutation.begin_run(&mut rt);
    let first_previous = server_value.get(&mut rt);
    server_value.set(&mut rt, "first".to_string());
    mutation.arm_rollback();

    let (second, rollback, _) = mutation.begin_run(&mut rt);
    if rollback {
        server_value.set(&mut rt, first_previous);
    }
    seen_before_second_apply.push(server_value.get(&mut rt));
    let second_previous = server_value.get(&mut rt);
    server_value.set(&mut rt, "second".to_string());
    mutation.arm_rollback();

    let (_, rollback, _) =
        mutation.commit_result(&mut rt, second, Ok("second-result".to_string()));
    if rollback {
        server_value.set(&mut rt, second_previous.clone());
    }

    assert_eq!(seen_before_second_apply, vec!["stable".to_string()]);
    assert_eq!(server_value.get(&mut rt), "second".to_string());
    assert_eq!(
        mutation.get(&mut rt),
        MutationState::Succeeded("second-result".to_string())
    );

    let (committed, rollback, _) =
        mutation.commit_result(&mut rt, first, Ok("first-result".to_string()));
    assert!(!committed);
    if rollback {
        server_value.set(&mut rt, second_previous);
    }

    assert_eq!(server_value.get(&mut rt), "second".to_string());
    assert_eq!(
        mutation.get(&mut rt),
        MutationState::Succeeded("second-result".to_string())
    );
}

#[test]
fn query_status_memos_follow_resource_state() {
    let mut rt = ReactiveRuntime::new();
    let mut query = use_query::<i32, &'static str>(&mut rt);

    assert!(query.pending().get(&mut rt));
    assert!(query.loading().get(&mut rt));
    assert!(!query.ready().get(&mut rt));
    assert!(!query.errored().get(&mut rt));

    query.set_ready(&mut rt, 7);

    assert!(!query.pending().get(&mut rt));
    assert!(!query.loading().get(&mut rt));
    assert!(query.ready().get(&mut rt));
    assert!(query.has_latest().get(&mut rt));
    assert_eq!(query.latest(&mut rt), Some(7));

    query.set_error(&mut rt, "failed");

    assert!(query.errored().get(&mut rt));
    assert_eq!(query.error_value(&mut rt), Some("failed"));
}

#[test]
fn query_reload_uses_reloading_state() {
    let mut rt = ReactiveRuntime::new();
    let mut query = relay::use_ready_query::<i32, &'static str>(&mut rt, 1);
    let (generation, _) = query.begin_load(&mut rt, LoadMode::RetainLatest);
    assert_eq!(query.get(&mut rt), ResourceState::Reloading(1));
    assert!(query.reloading().get(&mut rt));
    query.complete(&mut rt, generation, Ok(2));
    assert_eq!(query.get(&mut rt), ResourceState::Ready(2));
}

#[test]
fn selection_model_tracks_selection_presence() {
    let mut rt = ReactiveRuntime::new();
    let mut selection = use_selection_model(&mut rt, None);

    assert!(!selection.has_selection().get(&mut rt));
    assert_eq!(selection.get(&mut rt), None);

    selection.select(&mut rt, 2);

    assert!(selection.has_selection().get(&mut rt));
    assert_eq!(selection.get(&mut rt), Some(2));

    selection.clear(&mut rt);

    assert!(!selection.has_selection().get(&mut rt));
    assert_eq!(selection.get(&mut rt), None);
}

#[test]
fn selection_model_projects_selected_item() {
    let mut rt = ReactiveRuntime::new();
    let items = Signal::new(&mut rt, vec![Item::new(1, "one"), Item::new(2, "two")]);
    let mut selection = use_selection_model(&mut rt, Some(1));
    let mut selected = selection.selected_from_signal(&mut rt, &items, |item: &Item| item.id);

    assert_eq!(selected.get(&mut rt).map(|item| item.label), Some("one"));

    let n = selection.select(&mut rt, 2);
    if n.effects.contains(&selected.effect().unwrap()) {
        let value = relay::selected_item::selected_item(
            items.peek(),
            selection.get_untracked(),
            &|item: &Item| item.id,
            false,
        );
        selected.refresh(&mut rt, value);
    }

    assert_eq!(selected.get(&mut rt).map(|item| item.label), Some("two"));
}

#[test]
fn signal_selected_by_returns_none_when_key_is_missing() {
    let mut rt = ReactiveRuntime::new();
    let items = Signal::new(&mut rt, vec![Item::new(1, "one")]);
    let selector = Selector::new(&mut rt, Some(9));
    let selected = items.selected_by(&mut rt, &selector, |item: &Item| item.id);

    let value = selected.get(&mut rt);
    assert_eq!(value, None);
}

#[test]
fn signal_selected_by_or_first_falls_back_to_first_item() {
    let mut rt = ReactiveRuntime::new();
    let items = Signal::new(&mut rt, vec![Item::new(1, "one"), Item::new(2, "two")]);
    let selector = Selector::new(&mut rt, Some(9));
    let selected = items.selected_by_or_first(&mut rt, &selector, |item: &Item| item.id);

    let value = selected.get(&mut rt).map(|item| item.id);
    assert_eq!(value, Some(1));
}

#[test]
fn memo_selected_by_tracks_filtered_items() {
    let mut rt = ReactiveRuntime::new();
    let source = vec![Item::new(1, "alpha"), Item::new(2, "beta"), Item::new(3, "alpine")];
    let filter = |query: &str| -> Vec<Item> {
        source.iter().filter(|item| item.label.contains(query)).cloned().collect()
    };
    let mut filtered = Memo::new(&mut rt, filter("al"));
    let mut selector = Selector::new(&mut rt, Some(3));
    let selected = filtered.selected_by(&mut rt, &selector, |item: &Item| item.id);
    assert_eq!(selected.get(&mut rt).map(|item| item.label), Some("alpine"));

    filtered.refresh(&mut rt, filter("be"));
    let value = relay::selected_item::selected_item(
        filtered.signal().peek(),
        selector.get_untracked(),
        &|item: &Item| item.id,
        false,
    );
    assert_eq!(value, None);

    selector.select(&mut rt, 2);
    let value = relay::selected_item::selected_item(
        filtered.signal().peek(),
        selector.get_untracked(),
        &|item: &Item| item.id,
        false,
    );
    assert_eq!(value.map(|item| item.label), Some("beta"));
}

#[test]
fn ordered_selection_model_selects_first_key_on_initial_run_when_configured() {
    let mut rt = ReactiveRuntime::new();
    let mut selection =
        use_ordered_selection_model(&mut rt, None, SelectionReconcilePolicy::SelectFirst);
    selection.set_ordered_keys(&mut rt, vec![2, 4, 6]);

    assert_eq!(selection.ordered_keys(&mut rt), vec![2, 4, 6]);
    assert_eq!(selection.get(&mut rt), Some(2));
}

#[test]
fn ordered_selection_model_clears_missing_selection_when_policy_is_clear() {
    let mut rt = ReactiveRuntime::new();
    let mut selection =
        use_ordered_selection_model(&mut rt, Some(3), SelectionReconcilePolicy::Clear);
    selection.set_ordered_keys(&mut rt, vec![1, 2, 3]);

    selection.set_ordered_keys(&mut rt, vec![1, 2]);

    assert_eq!(selection.ordered_keys(&mut rt), vec![1, 2]);
    assert_eq!(selection.get(&mut rt), None);
}

#[test]
fn ordered_selection_model_navigation_uses_latest_filtered_key_order() {
    let mut rt = ReactiveRuntime::new();
    let items = vec![Item::new(1, "alpha"), Item::new(2, "beta"), Item::new(3, "alpine")];
    let keys_for = |filter: &str| -> Vec<u64> {
        items.iter().filter(|item| item.label.contains(filter)).map(|item| item.id).collect()
    };
    let mut selection =
        use_ordered_selection_model(&mut rt, Some(3), SelectionReconcilePolicy::SelectFirst);
    selection.set_ordered_keys(&mut rt, keys_for("al"));

    assert_eq!(items.len(), 3);
    assert_eq!(selection.ordered_keys(&mut rt), vec![1, 3]);
    assert_eq!(selection.get(&mut rt), Some(3));

    let (changed, _) = selection.select_next(&mut rt);
    assert!(changed);

    assert_eq!(selection.get(&mut rt), Some(1));

    selection.set_ordered_keys(&mut rt, keys_for("be"));

    assert_eq!(selection.ordered_keys(&mut rt), vec![2]);
    assert_eq!(selection.get(&mut rt), Some(2));

    let (changed, _) = selection.select_previous(&mut rt);
    assert!(!changed);

    assert_eq!(selection.get(&mut rt), Some(2));
}

#[test]
fn signal_selected_by_tracks_selection_and_item_updates() {
    let mut rt = ReactiveRuntime::new();
    let mut items = Signal::new(&mut rt, vec![Item::new(1, "one"), Item::new(2, "two")]);
    let mut selector = Selector::new(&mut rt, Some(1));
    let mut selected = items.selected_by(&mut rt, &selector, |item: &Item| item.id);
    let memo_effect = selected.effect().unwrap();

    assert_eq!(selected.get(&mut rt).map(|item| item.label), Some("one"));

    let n = selector.select(&mut rt, 2);
    assert!(n.effects.contains(&memo_effect));
    let value = relay::selected_item::selected_item(
        items.peek(),
        selector.get_untracked(),
        &|item: &Item| item.id,
        false,
    );
    selected.refresh(&mut rt, value);
    assert_eq!(selected.get(&mut rt).map(|item| item.label), Some("two"));

    let n = items.update(&mut rt, |items| {
        let mut next = items.clone();
        match next.iter_mut().find(|item| item.id == 2) {
            Some(item) => {
                item.label = "updated";
                (next, true)
            }
            None => (next, false),
        }
    });
    assert!(n.effects.contains(&memo_effect));
    let value = relay::selected_item::selected_item(
        items.peek(),
        selector.get_untracked(),
        &|item: &Item| item.id,
        false,
    );
    selected.refresh(&mut rt, value);
    assert_eq!(selected.get(&mut rt).map(|item| item.label), Some("updated"));
}
