# posthaste (verified core)

The decision logic of the Posthaste mail runtime and its HTTP API, written in
Verus: every function in `src/` carries a contract that Verus proves.

- `src/` — the verified library: the idempotent apply ledger, account and
  automation validation, secret-store decisions, resource events, OAuth and
  compose checks, read calls, runtime views (scope, recompute triggers, window
  growth, mail-list projection), the view registry, the link table and its
  idle reaper, link mutations and their settlements, the event tap cursor, and
  the SSE wire framing. Laws that span functions are public proof functions
  (`law_*`), e.g. in `ledger_laws.rs`, `link_laws.rs`, `event_tap.rs`,
  `view_registry.rs` and `mail_list.rs`.
- `tests/` — ordinary Rust tests of the library.
- `app/` — the runtime daemon's entry point and the I/O the library leaves to
  its caller (process environment, OS keychain locking, SSE byte streams).

Calls into outside crates (`base64`, `uuid`, `keyring`, the system clock) go
through small trusted wrappers whose contracts state what those crates
document.
