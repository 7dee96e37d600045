# maccy

The core of a clipboard history manager with peer-to-peer sync, as a
verified library.

- `src/` is the library, verified with Verus: the item model (`model`),
  sorting (`sort`), search (`search`), the history rules for de-duplication,
  the size limit, pinning and text edits (`history`), the pairing crypto
  (`crypto`), the wire form of items (`sync`), the sync engine's decisions
  for each network event and command (`network`), and the values they
  exchange (`types`, `error`, `platform`). Each public function states its
  result in its contract; the `law_*` proof functions state what holds
  across calls.
- `app/` is the shell around it: SQLite storage, the history manager, the
  libp2p network loop that carries out the library's decisions, the JSON
  wire formats, and the C interface.
- `tests/` runs the library on concrete values.
