# pin_diagnostics

Checks that find misuse of pinning in Rust source files, verified with
[Verus](https://github.com/verus-lang/verus).

The library works on a `Workspace`: the syntax trees of the files of interest, with what name
resolution and type inference know about them. A well-formed workspace (`is_well_formed`) can be
checked file by file:

- `Workspace::pin_consistency` reports fields that are projected both structurally and
  non-structurally, `Drop` impls that move a structurally pinned field, and `Unpin` impls that
  leave the type of a structurally pinned field unbounded;
- `Workspace::pin_misuse` reports projections by hand, and `Pin::new` on a value that is not
  `Unpin`, with a fix that pins on the heap;
- `Workspace::pin_unpina` reports `Unpin` impls that are unsound for a structurally pinned field,
  in whatever file the type is defined, and calls of `Pin::new_unchecked`.

The contract of each check says exactly which diagnostics it returns, and in which order.

| Where | What |
|-------|------|
| `src/workspace.rs` | the data: syntax nodes, paths, types, tables of definitions |
| `src/tree.rs`, `src/wellformed.rs` | document order, well-formed workspaces |
| `src/text.rs`, `src/sequences.rs` | text helpers, sequence functions of the contracts |
| `src/facts.rs` | questions that several checks ask |
| `src/diagnostic.rs` | diagnostics and fixes |
| `src/pin_consistency.rs`, `src/pin_drop_analysis.rs` | projections, `Drop` and `Unpin` impls |
| `src/pin_misuse.rs`, `src/pin_unpin_analysis.rs` | the other two checks |
| `src/laws.rs` | what holds of the checks as a whole |
| `tests/` | scenarios and edge cases |
| `app/` | reads a workspace out of the database of an IDE and shows the diagnostics there |
