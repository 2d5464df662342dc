# git_time_machine

A terminal viewer for the git reflog that restores the repository to a chosen
entry. The viewer's logic is a verified Verus library; the terminal program
around it is ordinary Rust.

- `src/timeline.rs`: the viewer's state (`App`) and its operations, with the
  mathematical state `AppView` that the contracts speak of.
- `src/keys.rs`: key events and `step`, what each key does; `App::handle_key`
  follows it and tells the caller which diff texts to load or which entry to restore.
- `src/filter.rs`, `src/text.rs`: the case-insensitive, multi-word search.
- `src/highlight.rs`: which bytes of a message are highlighted for a query.
- `src/lines.rs`: lines of a diff and how each is coloured.
- `src/reflog.rs`: reading the reflog listing into entries.
- `src/display.rs`: short hashes, counts and the footer line.
- `src/laws.rs`: properties that hold across the operations.
- `app/`: command line, git commands, terminal input and drawing.
