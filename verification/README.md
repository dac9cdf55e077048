# socle

An opinionated axum service bootstrap whose decision logic is verified
with Verus.

## Layout

- `src/` — the verified core. Its functions carry `requires` /
  `ensures` contracts checked by Verus, except the small trusted wrappers
  around outside crates (below), whose contracts are believed, not
  checked.
  - `config` — layered configuration and its validation.
  - `error`, `problem` — bootstrap errors and RFC 9457 problem values.
  - `etag` — entity tags and the `If-Match` precondition.
  - `org` — organization ids, contexts, context resolution and the
    ancestry isolation policy.
  - `audit` — which requests are audited and what their events hold.
  - `rate_limit` — rate-limit keys, the keyed GCRA limiter and `429`
    rejections.
  - `health` — readiness aggregation and grouping of check results.
  - `response` — success response shapes, page windows, and the
    Problem+JSON enrichment of bare errors.
  - `paths` — route labels that bound metric cardinality.
  - `bootstrap` — the service builder and the start-up, layering and
    drain plan of a service.
  - `openapi`, `json`, `json_view` — health paths and security schemes in
    a `utoipa` document, and the OpenAPI 3.0 post-processing of JSON
    documents.
  - `trace` — span records captured for tests.
  - `text` — character-level helpers.
- `tests/` — tests of the library.
- `app/` — the runtime around the core: axum/tower layers, configuration
  loading with figment, telemetry set-up, and the serve loop that carries
  out the core's plan.

Calls into outside crates (`uuid`, `http`, `governor`, `api-bones`,
`utoipa`, and `String::push` from std) sit behind small trusted wrappers
marked `#[verifier::external_body]`. Verus does not check their bodies;
their doc comments say what their contracts claim of the outside code.
