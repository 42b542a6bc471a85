# frills

A no-frills message queue. Clients register as a *service*, services subscribe
to *topics*, and every message pushed to a topic is copied into the queue of each
subscribed service. All clients registered under one service name draw from that
service's single queue; a pulled message stays in flight until it is acknowledged
(dropped) or refused (put back at the end of the queue).

Layout:

- `src/` — the verified library (Verus):
  - `server/` — the broker's routing state (`FrillsServer`, `Service`, `Topic`,
    `Registry`), the per-connection decisions (`ClientThread`), and the laws
    that hold across requests (`laws.rs`);
  - `client/` — client configuration (`Builder`), the polling state of a
    client's message stream (`FrillsClient`), and the worker's translation of
    tasks into wire messages;
  - `codec/` — the wire messages and their framing in a connection's buffer;
  - `port.rs`, `utils.rs` — the server's port argument and the batching of two
    streams.
- `app/` — the program around it: sockets, tokio tasks and channels, bincode
  serialization, and the command line.
- `tests/` — tests of the library.
