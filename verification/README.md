# Clutch

The core of an optimistic rollup node on Solana, written in Verus: the
transaction model, the mempool, the runtime that executes transfers, mints and
burns, the state manager and its state root, the sequencer that packs blocks
and batches, the key-value store layout and the JSON-RPC request handling.
Each public function carries a contract, and the properties that span
functions (read after write, first in first out, replay protection, lamport
conservation, block replay, and others) stand as proof functions named `law_*`.

Layout:

- `src/` — the verified library.
  - `codec.rs` — hex, little-endian and decimal encodings.
  - `outside.rs` — the calls into outside crates (Solana types, bincode, bs58,
    sha2, chrono), each with its trusted contract.
  - `types/` — accounts, transactions, blocks, batches, receipts, errors.
  - `state/` — byte order, sorted maps, and the state manager.
  - `storage/` — the byte key-value store and its key scheme.
  - `mempool/`, `runtime/`, `sequencer/`, `rpc/`, `metrics.rs`, `genesis.rs`.
- `tests/` — tests of the library on concrete values.
- `app/` — the node program: command line, tracing, persistence with bincode,
  the block-production loop, the JSON-RPC server and the L1 batch submitter.
