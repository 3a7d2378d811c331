# nullxes

The decision logic of the NULLXES desktop — the FRAME compositor's
workspaces, key bindings and surface handling, its control IPC protocol, the
top panel, the application launcher, the notification daemon, the idle
tracker, the lock screen and the greeter — written in Verus, with each
public function's behaviour stated in its contract and proved.

## Layout

- `src/` — the verified library.
  - `workspace.rs` — workspace manager and its abstract model.
  - `ipc.rs` — control protocol: envelopes, server step, client replies.
  - `keybind.rs`, `keymap.rs` — compositor shortcuts, text-field keys.
  - `frame.rs` — backend choice, window placement, key filtering, session
    lock, XWayland respawn policy, layer order.
  - `panel.rs` — panel module snapshots, labels and the panel bitmap.
  - `pixels.rs` — ARGB pixel buffers and rectangle fills.
  - `launcher/` — desktop entry decoding, application list, fuzzy search,
    launcher state and drawing.
  - `notif.rs` — notification ids, toast stack, history records.
  - `idle.rs` — dim / lock / suspend timers.
  - `lock.rs`, `greet.rs` — lock screen and greeter state machines.
  - `text.rs`, `paths.rs`, `order.rs`, `config.rs` — shared helpers.
- `tests/` — tests run against the compiled library.
- `app/` — the programs around the library: sockets, D-Bus, files, greetd,
  timers. They hand plain values to the library and carry out what it
  decides.

Calls into `shlex`, `fuzzy-matcher` and `freedesktop-desktop-entry` stand in
the library behind small trusted wrappers whose contracts name what those
crates return.
