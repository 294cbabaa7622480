# forgestat

Repository health metrics for GitHub projects, as a library whose
behaviour is stated in contracts and proved with Verus, and a small
command-line program around it.

## Layout

- `src/` — the verified library.
  - `models` — the snapshot of a repository and its parts; snapshot
    differences.
  - `health` — the four sub-scores, the total and its grade.
  - `stars`, `velocity`, `issues`, `metrics` — what the fetched records
    amount to: sparklines and milestone predictions, weekly activity,
    issues grouped by label, pull request, release, contributor, CI,
    security and community figures.
  - `github` — the decisions of the fetches: which stargazer pages to
    read, `Link` header parsing, pagination.
  - `snapshot`, `session`, `cache` — progress reports, what the
    dashboard shows after a fetch, cache staleness, history rotation and
    purging, the order of the cached-repository list.
  - `config`, `theme` — the configuration files' rules: status bar
    limits, layout normalisation, watchlist validation, theme selection.
  - `report`, `sections`, `summary`, `output` — the Markdown report and
    the terminal summary, section by section and whole.
  - `checks` — run-time checks that a snapshot's figures fit the exact
    arithmetic the scoring and rendering use.
  - `clock`, `text`, `paths`, `sums`, `order` — instants, strings, sums
    and stable insertion sorting.
- `tests/` — tests of the library.
- `app/` — the program: arguments, requests to GitHub (octocrab and
  plain HTTP), files on disk, and the decimals shown in the report and
  summary.

Calls into `chrono`, `dirs`, `uuid`, `ratatui` and std that the library makes stand
behind small wrappers whose contracts are trusted; everything else in
`src/` is proved.
