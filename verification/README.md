# clibuddy_sidebar

The state and decision logic of a terminal's assistant sidebar, written in
Verus and verified against its contracts: form widgets and their validators,
the multi-line chat input (editing, selection, scrolling, what each row
shows), text selection across the activity log, cards and chips, the
sidebar's event handlers and its modal layer, markers of markdown list
items, sample content, and a
priority scheduler for animations.

Layout:

- `src/` the verified library. `text.rs` holds byte-level facts about UTF-8
  strings; each other module holds one component with its model, contracts
  and the laws proved of it (the `law_*` proof functions).
- `tests/` tests of the library on concrete values.
- `app/` what stays outside the verified library: pixel geometry of
  scrollbars and scrolling (floating point), validators that consult the
  file system or parse addresses, and completion callbacks of the scheduler.
