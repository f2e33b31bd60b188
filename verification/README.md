# polkadot_node

Parts of a Polkadot node, verified with Verus.

- `src/native_executor.rs`: the native runtime executor. It decides once for each runtime code
  whether calls run natively or in WebAssembly, and remembers the decision in a cache.
- `src/wasm_format.rs`: the types, the functions and the bodies of a WebAssembly module, read from its
  bytes.
- `src/wasm_exits.rs`: whether what the functions of a module leave behind can be counted in 32 bits. A
  module in which it cannot is not loaded.
- `src/native_environment.rs`: what becomes of native code that panics or does not know a method.
- `src/service.rs`: when the consensus service starts a round of BFT agreement, and how it is shut
  down.
- `src/network.rs`: a network context that records what a protocol asks of it.
- `src/primitives.rs`: hashes and keys.
- `src/wasm.rs`: what is taken, unproved, from the crates `wasmi` and `twox_hash`.
- `app/`: the process-wide cache, the thread and the event loop around the library.
- `tests/`: the library at work, with the real outside crates.
