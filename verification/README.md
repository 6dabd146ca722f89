# ait_application

The decision logic of the AIT local control plane, written in Verus and
proved against its contracts: Projects, Sessions and their branches, Agents
and providers, Runs with their leases, startup recovery and finalization
rules, native approvals and permission ceilings, Cron triggers, settings,
Project archives, native Codex Thread history import, bounded progress
projections and session titles. Every change states the events it queues in
the outbox (`events.rs`), and `storage.rs` states which record of the state
goes to which Project's store and which puts and deletes a change writes.

Layout:

- `src/` — the verified library. Each module states its rules as spec
  functions over `Seq`, `Map` and plain values; the executable functions are
  proved to meet them. `commands.rs` dispatches every state-changing command,
  states the events each one queues, and proves that a refused command
  leaves the state as it was and queues nothing. Laws that relate several
  operations are public `lemma_*` proof functions.
- `tests/` — tests on concrete values, run against the compiled library.
- `app/` — the service around the library: Git and filesystem access, the
  shared service handle that runs commands, startup recovery claims and
  title generation and keeps the outbox, and serde copies of the library's
  types. It does not execute agent Runs: the workspace-agent worker, and so
  the finalization of a Run's result, are not part of it.

Calls into `serde_json`, `sha2`, `url` and `uuid` stand behind small trusted
wrappers whose doc comments say what is assumed of them.
