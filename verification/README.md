# zfirot

The verified core of Zfirot, a GitHub board that classifies a repository's
issues into PRDs, Slices and other issues, derives each Slice's state, and
lays the Slices out in PRD lanes and dependency graphs.

## Layout

- `src/` — the library, verified with Verus. Every public function states its
  result in its contract; the `law_*` proof functions state the properties
  that hold across calls (round trips, idempotence, precedence, ordering).
  - `classification`, `prose`, `slice`, `board`, `lane`, `lane_graph`: how
    raw issues become a classified board and its lanes.
  - `refresh`, `projects`, `freshness`: refreshing a board against a retained
    snapshot, the recent-projects cache decision, and poll intervals.
  - `graphql`: decoding GitHub's GraphQL responses (already parsed into plain
    structs) into issues, projects and errors.
  - `navigation`, `home_filter`, `view`, `theme`, `view_mode`: the screen
    decisions and presentation labels.
  - `repo`, `token`, `error`, `services`, `stores`, `cache_usage`, `text`,
    `order`: values, validation, errors and the text helpers the proofs use.
- `tests/` — scenario tests run against the compiled library.
- `app/` — a terminal front end: HTTP, the OS keychain, config files, the
  clock and the async plumbing around the library.
