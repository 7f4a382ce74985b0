# m_reader

The verified core of M Reader, a read-only Markdown previewer with
auto-reload, a recent-files list and several reader themes.

`src/` is the library, checked by Verus:

- `theme.rs` – reader themes, their names, stored values and CSS classes.
- `recent.rs` – the recent-files list: records, removal by path, adding a
  file (front, no duplicate path, at most eight entries) and its laws.
- `settings.rs` – the stored settings, their defaults, and tidying a loaded
  copy (stable newest-first sort, cut to eight entries) with its laws.
- `state.rs` – the window state and its transitions (opening a file, opening
  a recent file, clearing the list, toggling auto-reload, choosing a theme),
  with the trusted calls into `pulldown-cmark`, `std::path` and `time`.
- `menu.rs` – menu identifiers, what an activated item asks for, and the
  layout of the theme and recent-file menus.
- `watcher.rs` – which file events matter, path comparison by components,
  and when a change reloads the file.
- `text.rs` – string equality, prefixes, and decimal formatting and parsing.

`app/` is the desktop shell (Dioxus window and menus, file dialogs, file
watching with `notify`, settings on disk with `directories` and
`serde_json`, macOS Apple Events). It performs the I/O and hands the
library plain values.
