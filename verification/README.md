# own-repos-curator

A terminal UI for curating the descriptions, tags and groups of your own
GitHub repositories, with a daily JSON backup pushed to a repository of
your choice.

## Layout

- `src/` — the library, verified with Verus: the data model and its
  normalization, `config.toml` parsing, tag and group shortcuts, the
  curator's screens as a state machine (each key press gives the next
  state and the outside work to do), the background-job bookkeeping,
  the push checks on git output, and the layout arithmetic and text of
  the panes and overlays. The text inputs and the description editor
  edit through tui-textarea's text area (`src/text_box.rs`).
  `src/curator_laws.rs` holds properties that span several operations.
- `tests/` — tests of the library on concrete values.
- `app/` — the program around it: the command line, the terminal event
  loop, files, the `gh` and `git` commands, worker threads and drawing
  with ratatui.

## Build commit

The `hash` subcommand and the update check use the commit the binary was
built from. Set `BUILD_COMMIT_HASH` in the build's environment (for example
to the output of `git rev-parse HEAD`) to record it; a build without it
reports `unknown`.
