# cached_asset_proxy

An HTTP proxy that serves asset maps and asset files, answering from a Redis
cache where it can and from the asset service otherwise.

- `src/` is the library, verified with Verus: cache keys (`cache`), requests
  to the asset service and reading the zip archives it returns (`assets`,
  `archive`), substitution of asset paths into the main document, settings
  and their defaults (`config`), error replies (`errors`), the
  cache-or-fetch decision (`handlers`) and the text utilities they rest on
  (`text`).
- `app/` is the service around it: environment, Redis, HTTP client and
  server, JSON encoding.
- `tests/` exercises the library on concrete values.
