# weft-core

The library behind Weft, a launcher that lists native, Flatpak, Steam and
Windows applications in one place, and installs and runs Windows programs
without showing Wine. Its logic is written in Verus: every function of
`src/` is verified against its `requires` / `ensures`.

## Layout

- `src/` — the verified library.
  - `model`, `index` — application entries and the merged index
    (native beats Flatpak, the first source wins on a shared id).
  - `provider`, `providers/` — results computed as the user types
    (applications, calculator, files) and their tiered merge.
  - `search` — fuzzy ranking of entries (nucleo scores, named).
  - `sources/` — `.desktop` files, Steam libraries, Windows apps.
  - `windows/` — the Windows engine: installer detection, slugs and
    app store, discovery of installed programs, runtime fetch plans, and
    the install state machines (ordinary and Epic).
  - `ui` — the launcher window's decisions: keys (Enter, Escape,
    arrows, Ctrl+Delete with confirmation), row hints, result count,
    and when watched directories call for a rebuilt index.
  - `setup`, `launch`, `config`, `json`, `path`, `text`, `order` —
    first-run setup decisions, launch plans, configuration, JSON trees,
    path and text helpers, stable sorting.
- `tests/` — tests run against the compiled library.
- `app/` — the `weft-windows` command line and the I/O around the
  library: files, processes, TOML, `.lnk` shortcuts, frecency. The GTK
  overlay and the first-run setup window are not part of this tree (no
  GTK here); `src/ui.rs` and `src/setup.rs` hold what they decide, and the
  command line's `--list`, `--launch`, `--uninstall` and `--setup` modes
  exercise the same library calls.

Calls into outside crates (fend, nucleo, serde_json, keyvalues-parser,
freedesktop-desktop-entry, shell-words) stand behind small trusted
wrappers whose contracts name or state what they return.
