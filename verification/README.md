# orpheus

Policy enforcement and a signed, hash-chained audit log for an infrastructure agent,
with a control plane that watches each node's chain head.

- `src/` — the verified library: policy evaluation (`policy`, `policy_engine`, `config`),
  the audit chain (`audit`), node identity (`identity`), the control-plane dashboard
  (`control`), the heartbeat's uptime (`heartbeat`), text helpers (`text`) and the
  cryptographic primitives from sha2, ed25519-dalek and hex (`crypto`).
- `app/` — the two programs (`orpheus` runs the agent, `orpheus control` the control
  plane): HTTP routes, SQLite storage, configuration and key files, the clock.
- `tests/` — tests of the library on concrete values.
