# job_orchestrator

The verified core of a secure job orchestrator. A job's payload is hashed over its
canonical JSON, its metadata is signed with the server's Ed25519 key, a deterministic
compute module processes it, and its output is accepted only when it is exactly the
expected result with its FNV-1a 64 checksum. The job lifecycle
(`SUBMITTED` → `VALIDATED` → `PROCESSING` → `VERIFIED` | `FAILED`) is a state machine.

- `src/` — the library, verified with Verus: `json`, `json_laws` and
  `canonical_unique` (JSON values, payload parsing by serde_json, canonical JSON, its
  key-order law at every depth, and that the canonical text determines the value),
  `crypto` and `ids` (hashing, signing, encodings, job ids),
  `compute` (checksum and output check), `job` and `pipeline` (records, job types, the
  lifecycle machine), `interceptor` (signature headers of the RPC front end), `events`
  (watchers and batch tallies), `config` and `error`.
- `app/` — the server around it: environment, HTTP API, the job store over HTTP, the
  compute module as a child process, the event bus, and the RPC handlers.
- `tests/` — tests of the library on concrete values.
