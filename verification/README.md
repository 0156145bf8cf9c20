# ruvector-swarm

Core of an agent swarm: Ed25519 agent identities, an agent registry and a
Q-learning engine for action selection, verified with Verus.

- `src/` — the verified library. `identity` (keys, signing, verification),
  `registry` (membership, duplicate detection, status, capability-index slots),
  `qlearning` (Q-table, Bellman updates, epsilon-greedy selection), `types`
  (agent ids, query kinds), `binary32` (IEEE-754 ordering on bit patterns),
  `keyed` (sequences of records viewed as maps), `error`.
  Q-values, learning parameters and capability vectors are held as binary32
  bit patterns; the floating-point arithmetic is passed in by the caller.
- `app/` — the surrounding Rust: the floating-point side of the engine and its
  bincode persistence, the HNSW capability index, serde forms of the types,
  and the query, response and feedback records.
- `tests/` — tests of the library.
