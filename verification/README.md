# tix_git

The decision logic of `tix`, a git workflow assistant that keeps a ticket prefix
on every commit and protects branches, written in Verus with its contracts
proved.

- `src/` is the verified library: configuration layering, the TOML edits of
  `tix config` and `tix protect`, the per-clone ticket state, the three git
  hooks (`prepare-commit-msg`, `pre-commit`, `pre-push`), branch naming, PR
  URLs, `tix doctor`'s checks and the text every command prints. The calls into
  `regex`, `toml` and `dirs` stand behind trusted wrappers whose contracts name
  what those crates compute.
- A TOML document is held in `src/toml_doc.rs` as `TomlValue`: a table is a
  list of (key, value) entries, in place of `toml::Table`, so that the edits of
  `tix config set` can be proved. `well_formed` states that the keys of every
  table are distinct; parsing gives a well-formed document and every edit keeps
  it so. The document is turned into `toml::Value` only to be rendered.
- `app/` is the `tix` program around it: argument parsing with `clap`, running
  `git`, reading and writing files, JSON state with `serde_json` and `chrono`,
  and the terminal.
- `tests/` runs the library on concrete values.
