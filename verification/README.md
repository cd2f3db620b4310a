# relay

A reactive state runtime for gpui views, written in Verus: signals, memos,
effects, resources, mutations, queries, keyed selection, selection models,
tree projection and context, with their contracts proved.

## Layout

- `src/` — the verified library.
  - `runtime.rs` — signal and effect identities, the dependency graph,
    tracking scopes and batching. Operations that may wake observers return a
    `SignalNotifications` naming the entities to refresh and the effects to
    run; the host flushes it.
  - `signal.rs`, `signal_vec.rs`, `memo.rs`, `effect.rs`, `context.rs` —
    the reactive primitives.
  - `shared.rs`, `binding.rs` — shared signals: a `SignalStore` holds their
    values by identity, and read handles, write handles and bindings that
    carry only the identity all reach the same value.
  - `resource.rs` and `composables/` — async resources, queries, mutations,
    selection models and tree projection. Each async operation is split into a
    start and a completion that carries the generation it was started with, so
    that a superseded result is dropped.
  - `selector.rs`, `selected_item.rs`, `keyed.rs`, `keyed_flags.rs`,
    `key_vec.rs` — keyed selection and keyed sub-views.
  - `watch.rs` — when a watch's reaction runs, and which load a
    source-driven resource starts.
  - `gallery.rs` — the gallery's navigation state.
  - `laws.rs` — properties that relate several operations, as proof
    functions.
- `tests/` — tests of the library on concrete values.
- `app/` — the gpui host: the runtime as an app global, effect callbacks and
  cleanups, tracked rendering and watches (`host.rs`), async loads and
  mutation runs (`loader.rs`, `mutation.rs`), source-fed models
  (`models.rs`), keyed row views (`keyed.rs`), the context registry, the state scope, forms and focus
  state, and the gallery window.
