# rubix_server

The supervisory server of a building-management station: deployment profiles,
stored flow boards and their scheduler, RBAC grants, keyexpr addressing, stored
rules, the change ledger's undo cursor, and driver restart backoff.

The crate is a Verus project. `src/` is the verified library: every decision the
server makes on plain values stands there with a contract, and the properties
that span several operations are stated as `law_*` proof functions next to the
functions they speak of.

- `src/profile.rs`: selecting the edge or cloud profile from `RUBIX_PROFILE`.
- `src/scheduler/`: board triggers, the board record, the registration plan and
  subscription-loop step, the loop table keyed by a board's stable identity,
  and the latest-outputs cache.
- `src/store/`: what the relational store computes on its rows — row checks and
  error mapping, grant permissions and the grants query text, id rendering and
  parsing, keyexpr splitting, rule composition scanning and resolution, tag
  grouping, nav-node guards, board versions, and the undo/redo protocol.
- `src/supervisor/backoff.rs`: the exponential restart-delay ceiling.
- `src/seed/`: the demo portfolio's sites, equipment and sparks.
- `src/text.rs`: the character-level helpers the rest is written with.

`app/` is the unverified shell around it: the SQLite and Postgres round trips,
the tokio tasks that drive scheduled boards, environment reads, the jittered
(floating-point) restart delay, the serde shapes, and the demo points.

`tests/` runs the library on concrete values.

Not part of this crate: everything built on the domain-model crates
`rubix_core` and `rubix_prefs` — dashboards, unit and datetime preferences,
change recording with its undo reverser, the priority-array command and ingest
path, teams and agent runs — and the flow engine and data plane themselves.
`app/`'s `BoardRunner` and `SampleSource` traits are where an embedding server
plugs those in.
