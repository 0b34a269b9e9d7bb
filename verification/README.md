# rustsmb-server

The request handling of an SMB2/SMB3 file server, verified with Verus.

A handler does not talk to the outside world. It starts from the bytes of a
request, says what it needs next (a handle from the state store, data from the
storage backend, an answer from the authentication provider), and is handed the
reply. Each stage is a type of its own, so a reply can only be given where one is
awaited, and each stage has a contract that says what comes of every reply. What
holds across the stages is stated in the `law_` functions.

- `src/frame.rs`, `src/codec.rs`, `src/protocol/`: messages as bytes.
- `src/handler/`: one module for each kind of request, compound messages and
  signing.
- `src/connection.rs`, `src/state.rs`, `src/storage.rs`: what is known of a
  connection, of sessions, trees, handles, leases and locks, and of files.
- `src/config.rs`, `src/coordination.rs`: settings, and a server among others.
- `src/helpers/`: information blocks, UTF-16 and times.
- `app/`: the connection loop, the services that it runs the handlers with, and
  reading the settings from a file.

Functions that read the clock or draw random numbers have a twin that takes these
values as arguments; its name ends in `_at`, or in `_from` for a random GUID alone.
