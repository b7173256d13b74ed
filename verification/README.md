# nizaam_core

Nizaam Core's Control Plane, its Error System and its
internal event vocabulary, written in Verus: every library function states
its behaviour as a contract, and the verifier proves it.

- `src/control_plane/` — registration, membership, the engine registry,
  observations, contract, capability and provider resolution, destination
  eligibility, routing policies, resolution and routing, global
  coordination plans and replanning, context exchange, admission.
- `src/error/` — namespaced error codes, definitions, the catalog, error
  occurrences and their reporting.
- `src/events/` — events and scopes, the event subsystem lifecycle,
  subscriptions, publishers and the bounded delivery bookkeeping.
- The remaining modules under `src/` hold the shared vocabulary these build
  on: identities, texts and text maps, contracts, operations, health,
  security identities.
- `app/` — what is not verified: the serializable wire forms of Core values
  and the threaded delivery runtime that runs subscriber handlers.
- `tests/` — behavioural tests of the library.
