# emojipicker

A native Windows emoji / kaomoji / ASCII art / ready-text picker. The
library in `src/` holds the picker's logic, verified with Verus; `app/` is
the Win32 program around it.

- `src/model.rs`, `src/custom.rs`: item kinds, the built-in item shape and
  the user's custom items (insert or replace, remove, default titles).
- `src/settings.rs`, `src/theme.rs`: the settings file format, the theme
  palettes and the launch-at-login decisions.
- `src/picker.rs`: the popup's state, search filter, card grid, keyboard
  and mouse handling, placement and insertion.
- `src/manager.rs`, `src/about.rs`, `src/preview.rs`: the custom items
  manager, the About window and the large preview.
- `src/native_window.rs`, `src/geometry.rs`: placement of frameless windows
  in the monitor work area.
- `src/update.rs`: the updater's status transitions and labels.
- `src/text.rs`: character-sequence helpers the above are stated with.

`app/` creates the windows, paints with GDI and Direct2D, reads the caret
through UI Automation, stores files under `%LOCALAPPDATA%` and runs the
GitHub updater on worker threads.
