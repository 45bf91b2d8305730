# rpc_cache

A cache in front of a Solana RPC node, verified with Verus. It answers `getAccountInfo` and
`getProgramAccounts` from the accounts it knows, asks the node for those it does not know yet,
and hands every other method on.

- `src/` is the library. It decides what is answered, what is kept, what is asked of the node
  and how often. Every function in it has a contract; `src/laws.rs` states what holds of several
  steps together.
- `app/` is the HTTP server around it: reading and sending, the clock, the metrics, and the JSON
  forms of the library's types.
- `tests/` runs the library with the crates that it calls.

What the library takes from other crates stands behind trusted items: `src/json.rs`
(`serde_json`, `smallvec`), `src/codec.rs` (`bs58`, `base64`, `zstd`), `src/table.rs` (`dashmap`)
and `src/response_cache.rs` (`lru`, `bytes`).
