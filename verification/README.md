# mesh_runtime

Two small systems programs, with their logic verified by Verus.

- `src/green.rs`: a cooperative green-thread scheduler. A runtime holds a
  fixed table of thread slots; the library decides which thread runs next
  (round-robin over ready threads), lays out the first stack frame of a
  spawned thread, and frees the slot of a finished one. Laws proved there:
  yields are round-robin and fail only when nothing is ready, at most the
  current thread is running, and the base thread's slot is never handed out.
- `src/node.rs`, `src/discovery.rs`: a gossip-based node discovery protocol.
  The library holds what a node knows of the network and updates it from
  received messages (discovery replaces, fresher gossip merges link sets),
  builds the messages a node sends, and picks the peers it gossips with.
  Laws proved there: entries stay keyed by node number, a node's own entry is
  never changed by messages, knowledge only grows, gossip never rolls an
  entry back, and handling a message twice equals handling it once.
- `app/`: the unverified edges: UDP sockets, timers, wire encoding, logging,
  and the x86-64 context switch. `mesh_runtime green` runs the green-thread
  demonstration; `mesh_runtime <id>` starts a discovery node.
