# knotra_app

The state logic of knotra, a dashboard for working across many Git and
Jujutsu repositories at once, written in Verus with its behaviour stated as
contracts and proved.

Layout of `src/`:

- `model.rs` — projects, workspaces and the repository facts observed for
  them (statuses, Smart Pull plans, freeze validations, dependency graphs,
  conflicts, switch candidates, changelog drafts).
- `state/` — the application state and one module per screen:
  - `dashboard.rs` classifies projects, filters them, sorts them and lays them
    out in sections; the rows of the expanded sections are the selectable ids.
  - `tier.rs` attention tiers; `palette.rs` the command palette and what it
    reads of the application state; `focus.rs` keyboard focus: resolution,
    Tab movement, and the dashboard's, toolbar's and selection bar's focus
    orders; `detail_panel.rs` the project detail panel's commits and recent
    operations;
    `sync.rs` bulk fetch, Smart Pull planning and its surface's controls;
    `freezer.rs` naming, validating and the Save gate of a freeze;
    `changelog.rs`, `context.rs`, `conflict_ops.rs`, `topology.rs`,
    `workspace_mgr.rs` the remaining screens and their surfaces' controls;
    `inclusion.rs` the per-project inclusion maps they share.
- `history.rs` — per-project outcomes of finished operations, their overall
  status, the operation log's search and its plain-text export.
- `text.rs` — the character view of strings: trimming, search, line
  splitting, decimal and id rendering, and Unicode lower-casing.

`tests/` exercises the library on concrete values.
