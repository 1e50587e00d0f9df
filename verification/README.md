# moenia

A circuit breaker library whose logic is verified with Verus.

The breaker wraps calls to a service. While the service keeps failing it
stops sending calls (open), after a while lets probe calls through
(half-open), and returns to normal operation (closed) once enough probes have
succeeded.

- `src/` — the verified library: the states and transitions (`state.rs`),
  the failure policies (`policy.rs`), the error classifiers
  (`classifier.rs`), the configuration (`config.rs`), the breaker itself
  (`breaker.rs`), and the clock and duration conversions (`time.rs`). Each
  module states its laws as public proof functions.
- `app/` — what stays outside the verifier: the async call, the Tower
  middleware, and copies of `Error` and `Config` with the `thiserror` and
  `serde` derives.
- `tests/` — tests of the library.
