# gpui_mobile core

The platform-independent core of a mobile (iOS / Android) platform layer for
GPUI, written in Verus with its behaviour stated in contracts and proved.

`src/` is the verified library:

- `target_platform` — runtime platform detection from the target's OS and
  architecture names.
- `gesture_route` — one owner (GPUI or an embedded platform view) per Android
  touch stream.
- `touch_gesture` — the tap-versus-scroll state machine.
- `window_registry` — non-owning, never-reused integer handles for native
  callbacks; each handle resolves only to the window registered under it.
- `weak_ref` — weak references tied to the value of the `Rc` they were made
  from.
- `callback` — invoking a registered callback with its slot emptied.
- `dispatcher` — the foreground FIFO queue, the delayed-task queue ordered by
  due time, and the thread-pool sender.
- `sample_ring` — the ring of recent touch samples for velocity estimation.
- `display` — synthetic display identifiers, density rules, display UUIDs
  and the display list.
- `window_state` — window appearance, active status and size changes,
  safe-area insets and the window list.
- `key_input`, `text_input` — key codes to text input, keyboard fragments to
  text-field edits and chat messages, time labels.

`app/` holds what the verifier does not: floating-point momentum physics,
threads, pipes and the Android looper, native windows and displays.
