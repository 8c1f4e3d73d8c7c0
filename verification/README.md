# chat-system

A multi-protocol chat library whose decisions are verified with Verus.

- `src/` is the verified library: message and configuration types, rich
  text and its per-platform renderings, Markdown conversion and chunking,
  streaming buffers, group-chat rules, channel capabilities, media limits,
  and, for each messenger, the requests it builds and how it reads the
  replies (including the Discord gateway session and the IRC client and
  server sessions). Contracts are stated over `Seq`-based models, and the
  laws of the library are public proof functions.
- `app/` is the I/O around it: the async `Messenger` trait and manager,
  the HTTP, websocket, TCP/TLS and subprocess clients, the IRC listeners,
  and serde forms of the library's types.
- `tests/` runs the library on concrete values.

`app/` depends on `webpki-roots` for one purpose: the IRC client's TLS
connection (`use_tls`) needs a set of trusted root certificates to verify
the server, and `webpki-roots` supplies the Mozilla root set without
reading the operating system's certificate store.
