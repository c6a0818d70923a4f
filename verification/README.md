# sc_pow

Proof of work consensus: checking blocks that come from elsewhere, and mining blocks.

- `src/` is the engine, verified with Verus: headers and their seals (`header`,
  `verification`), what is stored with each block (`auxiliary`, `difficulty`, `scale`),
  inherents (`inherents`), the miner as a machine of events and actions (`mining`), and what
  is handed to the importer (`import`). `error` and `consensus` say what went wrong. `laws` states what holds of the engine as a whole.
- `app/` puts the engine into a node: an import queue and a mining thread.
- `tests/` runs the engine on concrete blocks.

A few functions call other crates: `parity_scale_codec` for the stored form, `sp_runtime` for
hashes, `sp_inherents` and `sp_timestamp` for inherents, `sp_consensus_pow` for adding up
difficulties, `sp_consensus` for its error type. Their contracts are taken on trust, and the comment on each says what it claims.

`Cargo.toml` holds `substrate-bip39` to a version that depends on the same `schnorrkel` as
`sp-core` does: with 0.4.6, which depends on another, `sp-core` does not compile.
