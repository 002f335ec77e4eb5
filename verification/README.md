# zo-tunnel

A self-hosted HTTP tunnel: a server behind Traefik that gives each connected
client a subdomain, and the `zotunnel` client that exposes a local port
through it.

## Layout

- `src/` — the library, verified with Verus. It holds the logic of both
  programs: the frame format and message kinds of the control protocol,
  the client registry, the per-key sliding-window rate limiter, dashboard
  sessions and cookies, server metrics, server and client configuration rules, Traefik
  route files, version comparison and release names, the reconnect policy.
  Each public function carries a contract; the laws that tie functions
  together (a frame reads back as written, a registered client is found,
  an expired session is refused, no span shorter than a second holds more
  admitted requests than the limit, ...) are public proof functions next to the code they speak of.
- `src/text.rs` — the character-level string functions the rest is built on.
- `tests/` — tests on concrete values.
- `app/` — the two programs: argument parsing, files, sockets, processes,
  the axum dashboard and the YAML/JSON forms of the library's types. The
  program runs as the server when its executable name contains `server`,
  and as the `zotunnel` client otherwise.

Time-dependent rules (sessions, rate windows, uptime) take the current time
in milliseconds as an argument; random values (tokens, session ids, tunnel
names) come from the operating system through `getrandom` and `uuid`.
