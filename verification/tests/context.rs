use relay::context::{ContextHandle, provide_context, use_context};
use relay::{EntityId, ReactiveRuntime};

/// A consumer view that provides a theme and renders it.
fn consumer(rt: &mut ReactiveRuntime) -> (ContextHandle<String>, EntityId) {
    let mut theme_handle = ContextHandle::new(rt);
    provide_context(rt, &mut theme_handle, "light".to_string());
    let view = EntityId(1);
    rt.begin_tracking();
    let _theme = use_context(rt, &theme_handle).unwrap_or_default();
    rt.finish_entity_render(view);
    (theme_handle, view)
}

#[test]
fn context_value_can_be_read() {
    let mut rt = ReactiveRuntime::new();
    let mut theme = ContextHandle::new(&mut rt);
    provide_context(&mut rt, &mut theme, "dark".to_string());

    let value = use_context(&mut rt, &theme);
    assert_eq!(value, Some("dark".to_string()));
}

#[test]
fn context_set_notifies_consumer() {
    let mut rt = ReactiveRuntime::new();
    let (mut theme_handle, view) = consumer(&mut rt);

    let n = theme_handle.set(&mut rt, "dark".to_string());

    assert_eq!(n.entities, vec![view]);
}

#[test]
fn context_set_same_value_does_not_notify() {
    let mut rt = ReactiveRuntime::new();
    let (mut theme_handle, _view) = consumer(&mut rt);

    let n = theme_handle.set(&mut rt, "light".to_string());

    assert_eq!(n.entities.len(), 0);
}

#[test]
fn use_context_returns_none_when_not_provided() {
    let mut rt = ReactiveRuntime::new();
    let slot: ContextHandle<i32> = ContextHandle::new(&mut rt);
    let value = use_context(&mut rt, &slot);
    assert_eq!(value, None);
}

#[test]
fn providing_again_notifies_even_when_equal() {
    let mut rt = ReactiveRuntime::new();
    let (mut theme_handle, view) = consumer(&mut rt);
    let n = provide_context(&mut rt, &mut theme_handle, "light".to_string());
    assert_eq!(n.entities, vec![view]);
}
