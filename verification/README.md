# webx_metrics_pro

The verified core of the WebX Metrics Pro dashboard service, written in
Verus, and the HTTP service around it.

- `src/` — the library, verified by Verus:
  - `limiter` — fixed-window request limits per client key, kept in a
    `DashMap`;
  - `cookies` — reading a cookie out of a `Cookie` header and the
    `Set-Cookie` values of the session cookies;
  - `security` — the CSRF double-submit check, client address candidates
    from proxy headers, the `/metrics` bearer check, response security
    headers, CSRF token generation and the per-client limits;
  - `auth` — Argon2 password hashes and the claims of access and refresh
    tokens;
  - `session` — the login decision, the refresh-token rotation as a state
    machine, logout, and who may export;
  - `config` — the start-up checks on the secrets;
  - `text` — trimming and comparing text.
- `app/` — the Axum server: routes and middleware, SQLite storage with
  `sqlx`, JWT encoding with `jsonwebtoken`, the SVG charts and exports.
- `tests/` — tests of the library.
