# repon

A terminal interface over many Git repositories: a list, a detail pane, a Filter line, palettes
for Launchers and Actions, a help overlay, and management operations over a Selection.

`src/` is the verified library, in Verus. Each public function states in its contract what it
returns or changes; what holds across functions is a public proof function whose name starts with
`law_`.

- `text`, `edit_buffer`: text on character boundaries, and the one-line editor with its cursor.
- `chord`, `action`, `default_map`, `keys`, `rebinding`: key chords, what they fire, the default
  map, dispatch, and merging a `[keys]` block over it.
- `degrade`, `footer`, `header`, `elapsed`, `notice`: lines that fit their width, timers, and the
  transient message.
- `paint`, `glyphs`, `help`, `filter_line`, `launcher_palette`: what each surface shows, as rows
  and runs of text in named roles.
- `list_viewport`, `scroll`: windows over lists.
- `environment`, `launcher`: environment overrides, declared and shipped Launchers, their argv and
  the command they run.
- `management`, `management_run`: planning an operation over a Selection, the order of each row's
  steps, and the words its outcome is reported in.
- `message`, `config_report`: what changes application state, and what `repon config` prints.

What the proofs rest on beyond Verus and its standard library is marked in the source: the items
with `#[verifier::external_body]` and the `assume_specification` items, each with a comment naming
the outside function and what is claimed of it.

`tests/` runs the library with the real outside crates linked. `app/` is the program around the
library: arguments, the terminal, files and child processes.
