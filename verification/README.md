# crock

A terminal Pomodoro timer with a task queue. The decisions of the program are a
Verus-verified library (`src/`); the terminal program around it (`app/`) reads
keys and messages, draws the screens and carries out the work the library asks
for.

## Library (`src/`)

- `utils` — durations in whole milliseconds: the time grammar (`1.5h`, `25m`,
  `25min`, `45s`, components separated by spaces) with `parse_time`, and the
  text shown for a duration with `format_time`; shown durations read back
  unchanged.
- `tasks` — the task queue (`TaskPane`): insert, replace, delete, move focus,
  make current, finish; each operation returns the messages it announces, and
  the screen copy (`TaskPaneState`) that receives them equals the queue.
- `clock` — the clock screen state, and `clock::timer`, the countdown timer as
  a state machine stepped by the program (one tick per second); each run has
  a name, so a restart or a stop ends the old run's loop without finishing.
- `input` — the task dialog: trimming, validation, and the task it yields.
- `config` — preset tasks from the configuration.
- `app` — the application: what each key, each message and each
  notification outcome does, as a state change plus a list of effects; the
  proof that the screen copy of the queue stays true across all of them; and
  the centred popup area.
- `text` — conversions between strings and character sequences.

## Program (`app/`)

Terminal setup, the message loop (tokio), drawing (ratatui), notifications,
reading the configuration file (serde, toml) and logging.
