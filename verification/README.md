# remyx

A framework for terminal user interfaces on top of Ratatui, following the Elm
architecture: an application describes its view, reacts to messages in `update`, and
the runner drives the event loop, background tasks, subscriptions and the terminal.

## Layout

- `src/` is the verified core, written in Verus:
  - `element.rs`: the tree of widget states and its reconciliation with each new view
    (`Tree::init`, `Tree::diff`), with the laws that a diff leaves the tree in the
    view's shape and keeps every state when the layout is unchanged;
  - `element/list.rs`, `element/paragraph.rs`, `element/table.rs`: how the stateful
    widgets react to keys, clicks and the mouse wheel, including which (multi-line)
    table row a click lands on;
  - `terminal.rs`: areas, the mouse cursor and hovering, input events;
  - `runner.rs`: the widgets' `Context` and the event loop's decisions;
  - `stream.rs`: `Tee`, which splits a stream among subscribers and drops closed ones;
  - `subscription.rs`: the set of running subscriptions and its reconciliation;
  - `runtime.rs` and `runtime/`: task handles, channel errors and traits, the tokio
    runtime value.
- `app/` is ordinary Rust around it: the `Application` trait, the async runner loop,
  the element implementations for Ratatui widgets, the runtime traits with their
  tokio implementations, and the crossterm terminal.
- `tests/` exercises the library on concrete values.
