# federated_catalog

A federated catalog, verified with Verus: the catalogs of known dataspace
participants are cached by origin node and served as one, and callers'
Decentralized Claims Protocol (DCP) tokens are verified.

- `src/` is the library. Every function states what it returns or changes, and
  is proved to. `src/properties/` states the laws that span several functions.
- `app/` is the server around it: routes, JSON, and the requests that token
  verification makes to other parties.
- `tests/` runs the library.

The library trusts what it says of functions of `serde_json`, `base64`, `p256`,
`rand`, `uuid` and the standard library; each such statement stands on the
wrapper that makes the call.
