# taktakk

Offline-first secure self-learning distribution: the verified core.

The library (`src/`) holds the logic of the platform, each function with a
contract proved by Verus:

- `engine` — lesson state, exercise evaluation, the lesson runner state
  machine and the dashboard catalog;
- `security` — SHA-256 hashing, key slots and their destruction, trust
  anchors, Ed25519 signature checks, Argon2id unlock slots, revocation plans
  and the static security audit;
- `sync` — inventories and their snapshot hash, transfer plans, chunked
  transfer, the media scan, delayed permission requests and the local
  transport layout;
- `storage` — stored status codes and row decoding, the event-log record,
  wipe plans, maintenance decisions, the object-store layout and the
  failure-injection fixtures;
- `domain` and `text` — the shared records and the text helpers.

Outside crates are reached through a few trusted items whose contracts are
stated next to them (`sha2`, `ed25519-dalek`, `argon2`, `zeroize`, `rand`,
`uuid`).

`app/` is the platform glue: SQLite (via `sqlx`), the filesystem, serde
encodings, floating-point progress fractions and the developer task runner.
`tests/` exercises the library on concrete values.
