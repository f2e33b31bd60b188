//! What the executor takes from the crates `wasmi` and `twox_hash`.

use std::hash::Hasher;
use vstd::prelude::*;

verus! {

/// `wasmi::Module`: a WebAssembly module that was loaded and validated. Nothing is known of what is
/// inside; the executor stores it and hands it on.
#[verifier::external_type_specification]
#[verifier::external_body]
pub struct ExModule(wasmi::Module);

/// `wasmi::Error`: why a module was refused. Nothing is known of what is inside.
#[verifier::external_type_specification]
#[verifier::external_body]
pub struct ExWasmError(wasmi::Error);

/// The 64-bit xxHash of `bytes` under `seed`.
pub uninterp spec fn xx_hash_64(seed: u64, bytes: Seq<u8>) -> u64;

/// The module that `wasmi` loads from `code`: `None` where `code` is no valid module.
pub uninterp spec fn wasm_module(code: Seq<u8>) -> Option<wasmi::Module>;

/// `twox_hash::XxHash` (64 bits): the hash of one slice. The hasher is made with `with_seed`, takes
/// the slice in one `write`, and is read with `finish`. Claimed: the result depends on the seed and
/// on the bytes alone.
#[verifier::external_body]
pub(crate) fn xx_hash(seed: u64, bytes: &[u8]) -> (hash: u64)
    ensures
        hash == xx_hash_64(seed, bytes@),
{
    let mut hasher = twox_hash::XxHash::with_seed(seed);
    hasher.write(bytes);
    hasher.finish()
}

/// `wasmi::Module::from_buffer`: load and validate a module. Claimed: whether the buffer is accepted,
/// and which module is loaded from it, depends on the bytes alone. Nothing is claimed of the error.
/// For each way out of a function, `wasmi` adds the number of its parameters and locals to that of the
/// values that are to be dropped there, in 32 bits: a module in which that sum overflows must not be given
/// to it.
#[verifier::external_body]
pub(crate) fn module_from_buffer(code: &[u8]) -> (loaded: Result<wasmi::Module, wasmi::Error>)
    requires
        crate::wasm_exits::few_locals(code@),
    ensures
        wasm_module(code@) == (match loaded {
            Ok(module) => Some(module),
            Err(_) => None,
        }),
{
    wasmi::Module::from_buffer(code)
}

} // verus!
