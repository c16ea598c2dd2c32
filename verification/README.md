# glyphlow

Glyphlow labels the UI elements of the focused window with hint keys so that
they can be picked from the keyboard. This crate is its core, verified with
Verus: everything the app decides, computes or parses, stated in contracts over
mathematical models and proved.

## Layout

- `src/` — the verified library.
  - `hint_keys` — the hint alphabet and the labels spelled in it.
  - `keys`, `key_listener` — keys, key combinations, menus, and the key
    listener's state machine.
  - `config` — the configuration, its defaults, and reloading it safely.
  - `ax_element`, `element`, `element_cache` — what a search looks for, how
    found elements are classified, kept and de-duplicated.
  - `engine` — the engine's decisions: filtering, range picking, menus,
    workflows, signals.
  - `word_split`, `word_picker` — cutting text into pickable words and
    rendering the picker.
  - `pattern`, `text`, `util`, `css`, `utf8`, `std_text`, `ipc` — regular
    expressions, text helpers, display widths, colours, UTF-8 offsets and
    paths.
- `tests/` — tests of the library.
- `app/` — the command line client: argument parsing, configuration files,
  and the Unix socket.

The drawing, the accessibility calls and the event tap of the server are
macOS-only and are not part of this crate.
