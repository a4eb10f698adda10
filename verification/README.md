# osmium

The decision-making core of the Osmium ARTCC backend, written in Verus. The
functions in `src/` are verified against their `requires`/`ensures` contracts,
except the small `#[verifier::external_body]` wrappers around outside crates
and the system clock, whose contracts are trusted (see the end of this file).

- `src/text.rs`, `src/timestamp.rs`, `src/error.rs`: text handling, UTC instants
  (through chrono) and the API's error kinds.
- `src/handlers/`: one module per resource of the HTTP API (training, files,
  statistics, API keys, authentication, publications, ...). Each holds the
  validation, normalization and access decisions of its requests; the database
  and HTTP plumbing is not here.
- `src/jobs/`: the health record of the periodic jobs and the planning done by
  the roster and statistics synchronization workers (which sessions continue,
  which end, how a session splits into monthly totals).
- `app/`: plain Rust around the library: reading settings, the vNAS feed and
  stored blobs, floating-point totals, and serde copies of library types.
- `tests/`: unit tests run against the compiled library with the real outside
  crates linked.

Calls into outside crates (chrono, chrono-tz, sha2, hmac, aes-gcm, getrandom,
http, url) and the system clock go through small `#[verifier::external_body]` wrappers whose doc
comments say what each one claims of the crate it calls.
