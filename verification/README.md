# remo-broker

An on-instance credential broker. It holds one bootstrap token for its instance, fetches
secrets from a credential backend with it, and serves them over one Unix socket per project.
Each project gets the secrets that its manifest lists, and no others; every fetch, allowed or
denied, leaves one line in an append-only audit log that never carries a value.

## Layout

- `src/` is the library: configuration, manifests, the bootstrap exchange, the caches, the
  project registry, both wire protocols, the audit log and the daemon's life, as functions from
  plain values to plain values. It is written in Verus, and what each function does is stated in
  its contract and proved.
- `app/` is the daemon around it: files, sockets, signals, the clock and the backend.
- `tests/` exercises the library from outside.

## What is proved

Besides the contracts of the single functions, the library states as lemmas what holds of it as a
whole. Among them:

- A name that is not on a project's allowlist is denied without a look at the cache or the
  backend, and an empty allowlist denies everything (`fetch.rs`).
- A value is served from the cache only within its time to live; once it has expired, only the
  backend brings it back (`cache.rs`, `fetch.rs`).
- A cache keeps to its bound and drops the oldest entry first (`cache.rs`); a manifest can lower
  the daemon's bounds and never raises them (`registry.rs`).
- Operations on one project leave every other as it is, failed ones change nothing, and taking a
  project off undoes taking it on (`registry.rs`).
- A request that is written as a line is read back as that request, whatever its fields hold, and
  fields that the protocol does not know change nothing (`message.rs`, `proto/`).
- Every answer and every line of the audit log is one line, and no answer is longer than a message
  may be (`json.rs`, `server.rs`, `audit.rs`).
- Every event that is written to the audit log is read back from its line, whatever its fields
  hold, and a log tells which events were appended to it (`audit.rs`, `audit_reader.rs`).
- A manifest that is missing or refused, and only such a one, leaves an event that says so and why
  (`registry.rs`); a project's socket that was lost is bound again, and that leaves one too
  (`listener.rs`).
- The audit log's buffer is bounded, loses nothing but its oldest event, and empties in order
  (`audit.rs`).
- A manifest is accepted exactly when it keeps every rule (`manifest.rs`); flags beat the file,
  and the file beats the defaults (`config.rs`).

## What is trusted

Calls into other crates stand behind small wrappers whose contracts are believed, not proved. Each
says in its doc comment what it claims: `serde_json` in `json.rs`, `message.rs` and `member.rs`,
`toml` in `tree.rs`, `secrecy` in `secret.rs`, `time` in `audit.rs` and `audit_reader.rs`, and, of
the standard library, two conversions of bytes to text and the quoting of a text in `text.rs`.
