# jira_terminal

The verified core of a terminal client for JIRA sprints.

- `src/` — the library, verified with Verus:
  - `text.rs`: substring search and decimal rendering over `char` sequences.
  - `json_doc.rs`: the `json` crate's documents seen through a mathematical
    model (`JsonData`), and the operations on them that the library uses.
  - `jira/sprint.rs`: backlog items, their workflow rank and the stable sort.
  - `jira/cache.rs`: the sprint cache document and the cache file's path.
  - `jira/fetch.rs`, `jira/adf.rs`: request paths and what the API's responses
    are made into, including the text of ADF descriptions.
  - `jira/commands.rs`: the subcommands selected on the command line.
  - `jira/start.rs`: how the sprint command starts (no board, cached sprint,
    or a fetch of the active one).
  - `jira/laws.rs`: laws of the sort, the cache and the loading of details.
  - `ui/sprint_list.rs`, `app.rs`, `input.rs`: the key-driven state of the
    terminal views.
- `app/` — the terminal, file and network side: event loops, drawing with
  ratatui, the cache file, the background loader, and the subcommand glue.
- `tests/` — tests of the library.
