# boa_idb

The decision logic of an IndexedDB implementation for the Boa JavaScript
engine, written in Verus: every function in `src/` carries a contract and is
proved against it.

- `src/` is the verified library. Keys are held in their encoded form (byte
  strings ordered lexicographically), so key ranges, cursor movement and
  index-key handling are proved over `Seq<u8>`. The request driver
  (`driver`, `txn`, `cursor_ops`, `upgrade`, `upgrade_index`) keeps the
  per-transaction FIFO queues, transaction handles, cursors and the schema
  snapshot of a versionchange transaction; its public proof functions state
  what the operations keep (queue consistency, unique store and index
  names, cursors only moving forward). `api/` holds the argument and state
  checks behind the IDB interfaces, `open_step` the step an open or delete takes for its queue's answer,
  `dom/` the event-dispatch plan and listener runs, the code-unit order of
  store names, listener lists and DOM exception codes, `observer` the lifecycle counters
  and latency histogram.
- `app/` is the unverified glue around the library: the DOM classes
  (`DOMException`, `DOMStringList`, `Event`, `EventTarget`) for a Boa `Context`, the runtime mutexes and the dispatch loop
  that calls listeners.
- `tests/` runs the library on concrete values.
