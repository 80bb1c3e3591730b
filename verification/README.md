# raft_kv

A key-value store replicated over a three-node cluster with the Raft
consensus algorithm.

- `src/` is the verified library:
  - `store.rs`: the key-value map each node serves, with its read/write laws;
  - `protocol.rs`: client requests and answers;
  - `server.rs`: how a node answers a request (reads from its store, writes
    through the log);
  - `raft.rs`: a node's state, its answers to peer messages, the rounds it
    runs as leader (replicating a write) and as candidate (collecting votes),
    and the laws these keep;
  - `clock.rs`: the monotonic clock that election timeouts are measured on.
- `app/` runs a node over TCP: JSON framing, the listeners, the timers, and
  the network side of each round.
