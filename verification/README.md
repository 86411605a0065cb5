# siphon-ai

The decision logic of a SIP-to-WebSocket voice bridge, written and proved in Verus:
which call goes to which route, who is let in, what is answered, what is kept for
operators to look at, and when a signed caller identity is trusted.

## Layout

- `src/` is the library. Every function in it is verified against its contract.
  - `routes` reads the route file, compiles it and matches calls against it.
  - `sip` handles requests: admission, digest policy, routing, dialogs, outbound
    registrations and the registrar's connections.
  - `security` holds the attestation policy; `stir_shaken` verifies signed calls.
  - `telemetry` holds the admin surface with its tokens and roles, the rings, the log
    filter, the metric catalogue and the HEP packets.
  - `webhooks` holds the lifecycle events and their filter.
  - `text` and `net` hold what the others share.
- `app/` runs the library: listeners, files, clocks, tasks, exporters, serde.
- `tests/` runs the library on concrete values.

## What is trusted

Calls into other crates stand behind small functions marked
`#[verifier::external_body]` or `assume_specification`; the comment above each says
which outside function it calls and what is claimed of it. Where a result is a
function of the arguments that no few lines can state (a regular expression match, a
digest, a parsed document), it has a name, and the contracts above speak of that name.

Time never enters by itself: functions that depend on it take `now`.
