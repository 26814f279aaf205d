# hybrid_chain

A hybrid chain: SHA256d proof-of-work blocks and coin-age proof-of-stake
blocks over compact note bundles (Pedersen value commitments on Ristretto,
spend tags, an epoch-bounded living set of notes, listed predicates and a
first-seen ticker book), together with the node-side bookkeeping that drives
it: the consensus engine and its tip, the block store with Nakamoto fork
choice, the mempool and priority queue, the block recorder, peer tips, and
the decisions of the mining and minting services.

Layout:

- `src/` — the verified library. `hash`, `crypto` and `wallet` hold the
  calls into `sha2`, `curve25519-dalek` and `hex`; `consensus` the difficulty,
  work and stake rules; `notes` the note machinery; `chain` the chain, its
  blocks, snapshots and the mining pool; `node` the node-side state.
- `tests/` — tests against the library.
- `app/` — the program: argument handling, the chain file (bincode through
  serializable copies of the library's types), the mining and minting
  threads, and the parts computed in floating point.
