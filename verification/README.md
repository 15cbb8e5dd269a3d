# buechsentelefon

A small WebRTC audio chat server: rooms, optional room and server
passwords, named user accounts, and signalling over WebSockets.

- `src/` is the library, verified with Verus: the configuration and its
  look-ups, password hashing and checking (Argon2), the configuration
  commands that rewrite `config.toml` (through `toml_edit`), the default
  configuration, the login rate limiter, the room registry and the
  WebSocket signalling protocol, and the decisions behind the HTTP
  endpoints and the server start-up.
- `app/` is the binary around it: command line, files, TLS, the HTTP and
  WebSocket server, and JSON (de)serialisation.
- `tests/` exercises the library.

Login: without `[[users]]` the server password admits; once accounts are
configured, login takes a username and password, and the session carries the
account's role. Guests can only join the Lobby.
