# client_shell

The agents panel and navigation logic of a terminal multiplexer's client
shell, verified with Verus.

- `src/model.rs` — endpoints, snapshots, configuration, rects, hit map, lookups.
- `src/agent_groups.rs` — grouping agent rows under one header per space,
  ranking, display order (proved unique), header cells, icon-row merging.
- `src/endpoint_agents.rs` — the machines' agents panel: joining rendered rows
  with the aggregate order, collapsed cells, expanded items.
- `src/shell.rs` — the shell state, modes and requests handed to the caller.
- `src/last_targets.rs` — focus history behind `last_workspace` / `last_tab`.
- `src/navigation_preview.rs` — focus preview while navigating, and restoring it.
- `src/agent_navigation.rs` — choosing, moving, previewing and focusing agents.
- `app/lib.rs` — paints the library's plans into a ratatui buffer.
