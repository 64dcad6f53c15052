# forge_tui

The decisions behind the Forge loop terminal UI, written in Verus and proved
against their contracts.

## Layout

- `src/` — the verified library.
  - `text.rs`: string and sequence helpers with their models (trimming,
    case folding, decimal notation, lines, stable insertion sort).
  - `json.rs`: a plain JSON value, field lookups, and JSON text read and
    written through `serde_json`.
  - `app.rs`: tabs, modes, view records, the wizard state, label and token
    rules, page bounds of the multi-log matrix.
  - `log_search.rs`: regex search over log lines, the log pane's text and
    the search overlay.
  - `loop_list.rs`: loop filtering, selection, pins, log scrolling.
  - `wizard.rs`: wizard steps, fields and validation.
  - `modes.rs`: keys in the confirmation dialog, the wizard, the filter bar
    and help; starting actions and taking their results; the dialog rows.
  - `keys.rs`: what a key asks in the main and expanded log views;
    `view_state.rs`: the view (tab, focus, log scroll and follow mode,
    selections, mode) and how each of those requests changes it.
  - `mouse.rs`: what a mouse event asks of the main view.
  - `header.rs`, `footer.rs`, `guide.rs`: the header line, the footer's key
    hints, the help screen and the first-run hints; `frame.rs`: the rows of
    the frame.
  - `session.rs`: storing the session and taking it back.
  - `inbox.rs`: inbox threads and claim conflicts; `inbox_pane.rs`: the
    text of the inbox pane.
  - `evidence.rs`: jumps to the latest error, warning or acknowledgement
    evidence and the return to where the first jump started.
  - `clipboard.rs`: what a copy request takes from the current view.
  - `markdown.rs`: plain-text rendering and wrapping of message bodies.
  - `notifications.rs`: the notification center and the status line.
  - `quick_peek.rs`: quick peek popups.
  - `annotations.rs`: shared annotations for runs and log lines.
  - `status_strip.rs`: status strip widgets, layouts, plans and the stored
    JSON form; `strip_laws.rs`: the laws of layouts (the default layout,
    edits, stored layouts read back).
  - `bootstrap.rs`: command lines for loop actions, action outcomes, run and
    log views of live data, and what is kept of each table read.
  - `snapshot.rs`: the live snapshot put together and its plain-text form.
- `tests/` — tests of the library on concrete values.
- `app/` — the program around the library: environment, database and file
  reading, and the calls into the Forge command crates.
