# snapshot_service

The snapshot service of a blockchain client, verified with Verus: it takes snapshots of the
client's state, and restores the client from them.

- `src/` decides. Each operation is a run of steps; a step asks the host for one action, and the
  host's reply leads to the next. What each step does, what comes of whole operations, and what
  holds across them is proved there.
- `app/` acts: it performs the actions on the file system, the database and the rebuilders of the
  client, and shares the service between threads.
- `tests/` runs the operations against a host with its file system in memory.
