# ignition

The logic of the Ignition real-time event service, verified with Verus.

- `src/shared/`: the shared server (Hobby / Pro / StartUp keys): plan limits,
  the per-key usage registry (a `DashMap`) with its bounded recency cache,
  admission of connecting clients, the socket event handlers' decisions, the
  log-line format and size cap.
- `src/websocket/`: the earlier websocket server, whose keys carry signed
  request and connection allowances and whose rooms are `<key>_<group>`.
- `src/polling.rs`: the back-off of the dedicated server's queue poller.
- `src/spark.rs`: the HTTP ingress's forward-or-deny decision.
- `src/dedicated.rs`: the dedicated server's token check.
- `src/sdk.rs`: the client SDK's payloads and AES-ECB/PKCS#7 encryption.
- `app/`: the servers and the SDK client around the library: sockets, HTTP
  routes, the database, the message queues, the log file.

## The recency cache

The shared server's recency cache (`src/shared/lru.rs`) keeps its keys in a
single vector, least recently used first, and finds a key by a linear scan.
A doubly linked list of shared, locked nodes indexed by a hash map would make
lookups constant-time, but its nodes (`Arc<Mutex<..>>`) are outside what Verus
can reason about, and a second index beside the vector would have to be kept
in step with it at every operation for no gain at a capacity of 100 keys. The
vector makes the cache's order its whole state, so each operation's contract
states the new order exactly, and the invariants (no key twice, at most the
capacity, only registered keys cached) are proved over it.
