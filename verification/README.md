# zero_ui_core

Core state and rules of a retained-mode UI framework, written in Verus: each public
function states in `requires`/`ensures` what it does, over mathematical models of the
types (`Seq`, `Map`, `Multiset` and spec functions), and Verus proves it.

## Layout

- `src/` — the verified library, one module per area:
  - `units` — pixel units and layout constrains;
  - `ui_list` — widget lists with deferred insert, remove and move requests;
  - `window` — window and device ids;
  - `command` — command handles, enabled state per scope, metadata, default names,
    command handler nodes;
  - `event` — event property nodes: when the filter is asked, when the handler runs, and
    whether it runs before or after the child;
  - `keyboard` — pressed keys and modifiers;
  - `property` — property override and sorting rules;
  - `shaping` — shaped text lines, segments and glyph runs;
  - `timer`, `task` — deadlines, timers and UI tasks;
  - `config` — config sources, status and the file worker state;
  - `image` — the image cache and its proxies, loading, decoding and view-process restarts;
  - `l10n` — languages and localization resources;
  - `app`, `app_scope` — extensions, shutdown requests, view-process ids, app instance
    names and per-app values.
  Laws that relate several operations are public proof functions named `law_*`.
- `tests/` — tests of the library on concrete values.
- `app/` — the unverified rest: the clock, reading image files, scanning the localization
  directory, the JSON config file worker, channel errors, the update loop driver, the
  one-app-per-thread check and the property input panic.

Calls into `linear_map` and `unic_langid`, and a few std functions without a vstd
specification, go through small trusted wrappers whose doc comments say what is assumed.
