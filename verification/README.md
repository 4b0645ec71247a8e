# SyncMaid

The decisions behind SyncMaid's window, verified with Verus.

SyncMaid keeps destinations in sync with a source folder, one way. This crate holds what its
desktop shell says and decides: which summary a card shows, what a burst of triggers costs, which
rule hides another, what a save keeps. Copying files is the engine's work, and drawing is the
toolkit's; neither is here.

## Layout

- `src/` is the library. Every function states what it returns or changes, and every law the
  library keeps is a proof function whose name begins with `law_`.
  - `state/` is what is shown, apart from how it is drawn: filters, routing, health, overlaps, the
    preview, the run gate, triggers and the workspace.
  - `views/` is what each part of the window says and does.
  - `components/` is how the small pieces are painted, `platform/` what is asked of Windows, and
    `services/` the log.
- `tests/` runs the library on concrete values.
- `app/` is the program around it: the window, the files, the registry, the tray and the engine.

What only the file system or the engine can answer (whether two folders overlap, when a schedule
comes round, where each file would go) comes into the library as plain values.
