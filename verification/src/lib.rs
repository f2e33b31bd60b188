//! Three pieces of a Polkadot node: the native runtime executor with its cache of runtimes, the
//! decisions of the consensus service, and a recording network context.

pub mod native_environment;
pub mod native_executor;
pub mod network;
pub mod primitives;
pub mod service;
pub mod wasm;
pub mod wasm_exits;
pub mod wasm_format;
pub mod wasm_laws;
