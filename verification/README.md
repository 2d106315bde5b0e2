# areamy

A strongly typed runtime for streaming graphs, written in Verus.

Nodes run routines; edges carry messages between them. A message is data,
a flush or a marker. Routines transform data; flushes and markers travel
behind the data that was produced before them, and a signal that reaches a
node along several paths leaves it once.

## Layout

- `src/` — the verified library.
  - `message.rs`, `signal.rs`, `error.rs`, `marker.rs` — messages, signal
    origins and their deduplication, errors.
  - `edge.rs` — edges over unbounded `crossbeam` channels; the channel calls
    here and in `distribute.rs` are the only trusted items besides `str`
    equality.
  - `graph.rs`, `endpoint.rs`, `connect.rs` — the traits nodes implement,
    sources and sinks, and the functions that wire nodes together.
  - `node/` — the nodes: `line` (one input, one output), `bifurcation` (one
    input, two outputs), `biunion` (two inputs, one output), each in the
    flavours the runtime offers: worked (`work`), deduplicating (`sync`),
    pulled (`nosync`, `pull`) and polled phase by phase (`poll`).
    `node/state.rs` holds the lifecycle of polled nodes and `node/layout.rs`
    lays polled nodes out as a graph of phases under distinct ids.
  - `node/line/pull/distribute.rs` — round-robin distribution of a pulled
    stream to several consumers over bounded channels.
- `tests/` — the test suite.
- `app/` — the parts that need threads: the distributor's producer thread
  and its shutdown.

Every public function carries a `requires` / `ensures` contract, and Verus
checks each body against it. Where a user's routine, a parent node or a
channel decides the outcome, the contract states what the library hands to
it and what it does with the answer: each node keeps a ghost log of the
calls it made on its routine (what it sent, when it flushed, what the
routine answered) and of what its parents reported, and its contracts
relate that log to what it took from its inputs and emitted on its outputs.
