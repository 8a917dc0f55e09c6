# sherion

The logic of a terminal emulator, written in Verus. The library's
functions carry contracts that Verus proves; the few trusted wrappers around
outside calls, listed at the end, are believed as stated.

- `src/` — the verified library. Keyboard and mouse encoding for the PTY
  (`input`, `mouse`, `keys`), routing of clicks, drags and the wheel
  (`pointer`), key bindings and chord syntax (`keybindings`),
  the PTY output tap that follows OSC 7 and modifyOtherKeys (`osc`, `pty`),
  split panes and tabs (`split`, `tabs`, `tab_bar`, `tab_strip`, `layout`),
  URL and hyperlink detection (`links`, `platform`), configuration values,
  colours and profiles (`config`, `config_tree`, `terminal_setup`), paste
  handling (`clipboard`), search, the command palette and the window's
  overlays (`search`, `window_state`, `overlays`), timers (`timers`), frame
  damage and cell styles (`frame`, `scene`, `glyph_cache`), and what the
  window does for each of the terminal's events (`terminal_events`).
- `tests/` — tests of the library.
- `app/` — the program around it: the winit event loop, the PTY and shell
  (alacritty_terminal), the clipboard (arboard), the TOML configuration file
  (serde, toml) and logging. It hands the library plain values: the window's
  hit tests, for one, come in as booleans, and the terminal's events as
  `TermEventKind`. The window draws nothing: a GPU renderer, whose geometry
  is floating point throughout, is not part of this crate.

Calls into outside crates and std that Verus cannot read are made through
small trusted wrappers whose doc comments say what is assumed of them: the
regex engine (compiling a pattern, finding its matches), string decoding,
pushing a char onto a `String`, `char::is_alphanumeric`, and the clock.
