# search-proxy

A multi-account key-rotation proxy for the Firecrawl and Tavily CLIs: a pool of API keys
is leased out least-recently-used first, keys that hit a rate limit or quota cool down,
and both a CLI wrapper (mode A) and an HTTP reverse proxy (mode B) rotate keys on limits.

Layout:

- `src/` — the library, verified with Verus: the lease order and key state machine
  (`keys`), the usage refresh (`usage`), the provider table (`provider`), authentication
  rules (`auth`), the reverse proxy's and the wrapper's rules (`proxy`, `wrap`), identifiers
  (`tokens`), configuration defaults (`config`), paths and shims (`paths`), the wrap settings
  document and the merge that records the real CLI paths in it (`config_doc`), the WebUI's key
  view (`webui`), request and reply bodies (`api`), the printed tables (`listing`) and
  exact string helpers (`text`).
- `app/` — the program: command line, SQLite storage, HTTP serving and calls, running the
  real CLIs. It asks the library for every decision.
- `tests/` — tests of the library on concrete values.
