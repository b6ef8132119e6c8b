# socketcluster_server

A SocketCluster protocol (version 1) WebSocket server, built as a verified
core and a thin runtime around it.

- `src/` is the core, verified with Verus: the registry of connected
  sockets and of channel subscriptions (`state.rs`, on the string-keyed
  collections of `collections.rs`), what the server does with each packet
  (`handlers.rs`: handshake, subscribe, publish, unsubscribe, disconnect,
  pings), the life of one connection (`connection.rs`), the run of the
  middleware (`middleware.rs`), the packet model (`models.rs`), and
  properties that span several operations (`laws.rs`).
- `app/` runs it on Axum and Tokio: the WebSocket handler, the per-socket
  loop that feeds frames to a `Connection` and performs the steps it
  returns, the ping timer, the middleware trait, and the JSON text of
  packets (serde).
- `tests/` plays client sessions and single operations against the core.
