# rift_reactor

The native-tab logic of a tiling window manager's reactor, with its contracts
proved by Verus.

When an application switches between native tabs, the window system reports
the old tab's window as gone and a new window at the same place. The reactor
tells such a switch from an ordinary close and open, and then hands the layout
slot, the selection, the main-window mark, the frame transaction, the drag and
the pending mouse warp of the old tab to the new one, keeping the hidden tabs
in a group that shares one frame.

Layout of `src/`:

- `ids.rs`: identifiers, integer rectangles, `frames_match`, requests.
- `seq_util.rs`, `store.rs`: ordered maps and sets over `Vec`, specified by
  sequences of entries, and the lemmas about them.
- `model.rs`: the reactor's plain data types and `WindowState`.
- `managers.rs`: the window, transaction, layout, application, space and
  display managers the reactor consults.
- `native_tab_manager.rs`: groups of tabs, pending destroys and appearances,
  and their abstract view `NativeTabView`.
- `reactor.rs`: the `Reactor`, its abstract view `ReactorView` and its
  well-formedness.
- `native_tabs.rs`: the native-tab queries and transitions of the reactor,
  each specified as a function of `ReactorView`.
- `window_events.rs`: window creation and destruction as far as native tabs
  take part in them.
- `testing.rs`: the scenario helpers the tests use.
- `laws.rs`: properties that span several operations.
- `group_laws.rs`: every membership names an existing group, under every
  native-tab operation.
