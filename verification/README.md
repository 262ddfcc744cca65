# lucid_auth

Authentication-service building blocks whose behaviour is specified and
proved with Verus: inbound SCIM 2.0 provisioning (resource normalisation,
an in-memory store of users, groups and managed connection credentials,
bearer-token authentication, role-grant projection), API keys (issuing,
validation, usage quotas and rate windows, ordering), signed cookies, OAuth
scope lists, secondary storage, anonymous sign-in, the acquisition of a
SCIM user link inside a transaction, and the dashboard's reports, data
adapter and calendar rules. Flows that interleave store reads with
decisions are written as step functions from state and answer to next
state and action, which `app/` drives.

Layout:

- `src/` — the verified library. Public functions state their results in
  `ensures` (where a result rests on the clock, chance or an outside call,
  what holds of every outcome); public `law_*` proof functions state properties that relate
  several calls (for instance, that a stored value reads back, or that
  decommissioning a connection is final). Calls into `base64`, `hmac`,
  `sha2`, `rand` and `chrono` go through small trusted wrappers whose
  contracts are documented where they are declared.
- `tests/` — tests that run the compiled library.
- `app/` — the runtime around the library: serde shapes of the SCIM
  resources, asynchronous store and secondary-storage adapters, the
  authentication flow with an application-supplied token verifier, and the
  figures computed in floating point.
