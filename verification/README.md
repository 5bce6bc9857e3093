# govbot

govbot pulls legislation datasets (git repositories of OCD-shaped bill
logs), streams them as newline-delimited JSON through external transforms
(a classifier), writes the resulting tags next to each bill, and publishes
the tagged records (JSON dumps, DuckDB tables and Bluesky posts). A project
is described by a `govbot.yml` manifest. RSS and HTML feeds are not
rendered: an `rss` or `html` publisher stops with an error that says so.

The decisions of the tool live in a library verified with Verus; the
binary around it does the file, process, git and network work.

## Layout

- `src/` — the verified library.
  - `text`, `num`, `json`, `smap`: strings, decimals, a JSON value with a
    mathematical view, and a string map kept in key order.
  - `config`, `registry`, `lock`, `project`, `wizard`, `frankie`: the
    manifest model, the dataset registry, the lock file, `add`/`remove`/`ls`,
    the `init` wizard and the topic scaffold.
  - `route`, `anchor`, `source`, `selectors`, `doc`: dataset paths, where
    tags live, the `source` record stream and the `{id, text, kind}`
    document a classifier consumes.
  - `apply`, `tagfile`: where classification results are written.
  - `publish`, `bluesky`: tag filters, per-bill dedup, newest-first order,
    publisher settings, post text, the posted-state ledger.
  - `pull`, `gitops`, `repos`, `load`, `pipeline`, `doctor`: the decisions
    behind `pull`/`update`/`delete`, `load`, `run` and `doctor`.
  - `error`: the library's error type.
- `app/` — the command-line program: argument parsing, I/O, git, HTTP,
  process pipelines, and the serde models.
- `tests/` — tests of the library on concrete values.

Each public function states what it returns in its `ensures`; properties
that relate several functions are stated as public proof functions named
`law_*`.
