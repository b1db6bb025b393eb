# kwtypr

Types text through KWin's privileged fake input protocol on KDE Plasma Wayland, using the keymap
the compositor hands over.

`src/` is the library, verified with Verus:

- `xkb/` — key lookup on a keymap: `keymap` describes a compiled XKB keymap with plain values,
  `modifier` finds the Ctrl, Shift and AltGr modifiers and the masks they can represent,
  `mapping` finds the first key and shift level that produce a keysym or a character,
  `unicode_fallback` the Ctrl+Shift+U sequence and hexadecimal code points, `keycode` the
  relation between XKB and platform keycodes.
- `keysym` — the keysym of a character.
- `typing` — the list of key events, flushes and waits that types a text; `typing/held_keys`
  proves that typing leaves no key held, `typing/alternation` that each key's presses and
  releases alternate whenever the modifiers the typed keys need have three different keys and
  no key pressed for a character is one of them, `typing/outcome` which characters count as
  failed.
- `wayland` — the decisions of the Wayland session: waiting for the required objects, protocol
  versions and the initialization timeout.
- `lib.rs` — the configuration, the ready state and the joined text.

`app/` is the command: option parsing, the Wayland connection, compiling the keymap with
libxkbcommon, and running the typing steps against the compositor.
