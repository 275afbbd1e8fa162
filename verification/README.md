# ntgw-http

The request-handling rules of an HTTP gateway, written in Verus with their
contracts proved.

- `src/` is the verified library: header lists, CORS, redirects and rewrites,
  basic, JWT and OIDC authentication, IP filtering, external authorization,
  HTTP cache decisions, upstream peer options and backend TLS checks, request
  mirroring budgets, the per-request record and access-log fields, and the
  request-flow state machine that orders the filter stages.
- Calls into outside crates (base64, bcrypt, sha2, hmac, ipnet,
  jsonwebtoken, http, tokio's semaphore) stand behind small trusted wrappers
  whose doc comments say what is assumed of them.
- `tests/` runs the library on concrete values.
- `app/` holds what Verus does not see: serde copies of the benchmark
  configuration types, the JWKS fetch and key cache around the verified JWT
  checks, OIDC token exchange, and address parsing.
