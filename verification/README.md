# r2s_api_proxy

A reverse proxy for the Ret2Shell API that lets clients use fixed keys
(`Bearer custom_key`) and forwards their requests with the current upstream
token (`Bearer eyJ...`), which it keeps fresh.

- `src/` is the verified library (Verus): the command-line settings and
  routes (`cli`), random fallback keys (`keygen`), the application and token
  state (`state`), the token cache file (`cache`), header handling
  (`headers`), the proxy and ping decisions (`proxy`) and the startup token
  check as a state machine (`startup`).
- `app/` is the server around it: clap, tracing, tokio, axum and reqwest,
  file I/O and the event loop that runs the startup check.
- `tests/` exercises the library on concrete values.
