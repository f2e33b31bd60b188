//! The native runtime executor: it runs a call natively where the native runtime is equivalent to
//! the given code, and in WebAssembly otherwise. Which of the two it is, is decided once for each
//! code and remembered in a cache.

use crate::wasm::{module_from_buffer, xx_hash};
use crate::wasm_exits::has_few_locals;
use std::collections::HashMap;
use vstd::prelude::*;

verus! {

broadcast use vstd::std_specs::hash::group_hash_axioms;

/// How to run a code: natively, or with the WebAssembly module that was loaded from it.
pub enum RunWith<V> {
    /// The module does not tell its version.
    InvalidVersion(wasmi::Module),
    /// The native runtime can be called in place of the code, whose version is this.
    NativeRuntime(V),
    /// The native runtime cannot be called in place of the code.
    WasmRuntime(V, wasmi::Module),
}

/// The cache of runtimes, by the key of their code.
pub type CacheType<V> = HashMap<u64, RunWith<V>>;

/// The key under which a code is cached.
pub open spec fn cache_key(code: Seq<u8>) -> u64 {
    crate::wasm::xx_hash_64(0, code)
}

/// Whether the executor can run `code` at all: it was seen before, or it is a valid module, no function
/// of which has too many locals.
pub open spec fn can_run<V>(cache: Map<u64, RunWith<V>>, code: Seq<u8>) -> bool {
    ||| cache.contains_key(cache_key(code))
    ||| crate::wasm_exits::few_locals(code) && crate::wasm::wasm_module(code) is Some
}

/// How to run a module that told `version`, given whether the native runtime can be called in place
/// of that version.
pub open spec fn run_with<V>(
    version: Option<V>,
    native_can_call: bool,
    module: wasmi::Module,
) -> RunWith<V> {
    match version {
        Some(v) => if native_can_call {
            RunWith::NativeRuntime(v)
        } else {
            RunWith::WasmRuntime(v, module)
        },
        None => RunWith::InvalidVersion(module),
    }
}

impl<V> RunWith<V> {
    /// The version of the code, where it is known.
    pub open spec fn known_version(self) -> Option<V> {
        match self {
            RunWith::InvalidVersion(_) => None,
            RunWith::NativeRuntime(v) => Some(v),
            RunWith::WasmRuntime(v, _) => Some(v),
        }
    }

    /// Decide how to run a module.
    pub fn new(version: Option<V>, native_can_call: bool, module: wasmi::Module) -> (chosen: Self)
        ensures
            chosen == run_with(version, native_can_call, module),
            version is None ==> chosen == RunWith::<V>::InvalidVersion(module),
            version matches Some(v) ==> chosen == (if native_can_call {
                RunWith::<V>::NativeRuntime(v)
            } else {
                RunWith::<V>::WasmRuntime(v, module)
            }),
    {
        match version {
            Some(v) => if native_can_call {
                RunWith::NativeRuntime(v)
            } else {
                RunWith::WasmRuntime(v, module)
            },
            None => RunWith::InvalidVersion(module),
        }
    }

    /// The version of the code, where it is known.
    pub fn version(&self) -> (version: Option<&V>)
        ensures
            version is Some <==> self.known_version() is Some,
            version is Some ==> Some(*version->0) == self.known_version(),
            *self matches RunWith::NativeRuntime(v) ==> version == Some(&v),
            *self matches RunWith::WasmRuntime(v, _) ==> version == Some(&v),
            *self is InvalidVersion ==> version is None,
    {
        match self {
            RunWith::InvalidVersion(_) => None,
            RunWith::NativeRuntime(v) => Some(v),
            RunWith::WasmRuntime(v, _) => Some(v),
        }
    }
}

/// A low-overhead key for caching a code. Codes with the same key share one entry of the cache:
/// whoever puts code on a chain sees to it that its key differs from that of any other code there.
pub fn gen_cache_key(code: &[u8]) -> (key: u64)
    ensures
        key == cache_key(code@),
        key == crate::wasm::xx_hash_64(0, code@),
{
    xx_hash(0, code)
}

/// The surroundings that the executor works in: the WebAssembly executor, and how a runtime version
/// is decoded and compared.
pub struct WasmHost<W, F, C> {
    /// Call a method of a module with some input data.
    pub call_in_wasm_module: W,
    /// Decode a runtime version.
    pub decode_version: F,
    /// Whether a runtime of the first version can be called in place of one of the second.
    pub can_call_with: C,
}

impl<W, F, C> WasmHost<W, F, C> {
    /// The host runs every method of every module.
    pub open spec fn runs_wasm<E, R>(self) -> bool where
        W: Fn(&mut E, &wasmi::Module, &str, &[u8]) -> Result<Vec<u8>, R>,
     {
        forall|e: &mut E, m: &wasmi::Module, method: &str, data: &[u8]|
            call_requires(self.call_in_wasm_module, (e, m, method, data))
    }

    /// The host answers whatever it is asked.
    pub open spec fn total<E, V, R>(self) -> bool where
        W: Fn(&mut E, &wasmi::Module, &str, &[u8]) -> Result<Vec<u8>, R>,
        F: Fn(&[u8]) -> Option<V>,
        C: Fn(&V, &V) -> bool,
     {
        &&& self.runs_wasm::<E, R>()
        &&& forall|bytes: &[u8]| call_requires(self.decode_version, (bytes,))
        &&& forall|a: &V, b: &V| call_requires(self.can_call_with, (a, b))
    }

    /// `reply` is what calling `method` of `module` with `data` in `e` gave.
    pub open spec fn wasm_replies<E, R>(
        self,
        e: &mut E,
        module: wasmi::Module,
        method: Seq<char>,
        data: Seq<u8>,
        reply: Result<Vec<u8>, R>,
    ) -> bool where W: Fn(&mut E, &wasmi::Module, &str, &[u8]) -> Result<Vec<u8>, R> {
        exists|s: &str, d: &[u8]|
            #![trigger call_ensures(self.call_in_wasm_module, (e, &module, s, d), reply)]
            s@ == method && d@ =~= data && call_ensures(
                self.call_in_wasm_module,
                (e, &module, s, d),
                reply,
            )
    }

    /// `version` is what the version call's reply decodes to: nothing where the call failed.
    pub open spec fn decodes<V, R>(self, reply: Result<Vec<u8>, R>, version: Option<V>) -> bool where
        F: Fn(&[u8]) -> Option<V>,
     {
        match reply {
            Ok(bytes) => exists|d: &[u8]|
                d@ == bytes@ && #[trigger] call_ensures(self.decode_version, (d,), version),
            Err(_) => version is None,
        }
    }

    /// `entry` is how to run `module` by what the module itself says of its version.
    pub open spec fn judges<E, V, R>(
        self,
        e: &mut E,
        module: wasmi::Module,
        ref_version: V,
        entry: RunWith<V>,
    ) -> bool where
        W: Fn(&mut E, &wasmi::Module, &str, &[u8]) -> Result<Vec<u8>, R>,
        F: Fn(&[u8]) -> Option<V>,
        C: Fn(&V, &V) -> bool,
     {
        exists|reply: Result<Vec<u8>, R>, version: Option<V>, native_can_call: bool|
            {
                &&& #[trigger] self.wasm_replies(e, module, "version"@, Seq::empty(), reply)
                &&& #[trigger] self.decodes(reply, version)
                &&& version matches Some(v) ==> call_ensures(
                    self.can_call_with,
                    (&ref_version, &v),
                    native_can_call,
                )
                &&& entry == #[trigger] run_with(version, native_can_call, module)
            }
    }
}

/// Call a method of a module.
fn call_in_wasm_module<E, R, W, F, C>(
    host: &WasmHost<W, F, C>,
    ext: &mut E,
    module: &wasmi::Module,
    method: &str,
    data: &[u8],
) -> (reply: Result<Vec<u8>, R>) where
    W: Fn(&mut E, &wasmi::Module, &str, &[u8]) -> Result<Vec<u8>, R>,

    requires
        host.runs_wasm::<E, R>(),
    ensures
        exists|e: &mut E|
            *e == *old(ext) && *final(e) == *final(ext) && #[trigger] host.wasm_replies(
                e,
                *module,
                method@,
                data@,
                reply,
            ),
        exists|e: &mut E|
            *e == *old(ext) && *final(e) == *final(ext) && #[trigger] call_ensures(
                host.call_in_wasm_module,
                (e, module, method, data),
                reply,
            ),
{
    let reply = (host.call_in_wasm_module)(ext, module, method, data);
    proof {
        let e = choose|e: &mut E|
            *e == *old(ext) && *final(e) == *ext && #[trigger] call_ensures(
                host.call_in_wasm_module,
                (e, module, method, data),
                reply,
            );
        assert(host.wasm_replies(e, *module, method@, data@, reply));
    }
    reply
}

/// Ask a module for its version, and decide by it how to run the module.
fn judge<E, V, R, W, F, C>(
    ext: &mut E,
    module: wasmi::Module,
    ref_version: V,
    host: &WasmHost<W, F, C>,
) -> (entry: RunWith<V>) where
    W: Fn(&mut E, &wasmi::Module, &str, &[u8]) -> Result<Vec<u8>, R>,
    F: Fn(&[u8]) -> Option<V>,
    C: Fn(&V, &V) -> bool,

    requires
        host.total::<E, V, R>(),
    ensures
        exists|e: &mut E|
            *e == *old(ext) && *final(e) == *final(ext) && #[trigger] host.judges::<E, V, R>(
                e,
                module,
                ref_version,
                entry,
            ),
{
    let no_data: [u8; 0] = [];
    assert(no_data@ =~= Seq::<u8>::empty());
    let reply = call_in_wasm_module(host, ext, &module, "version", &no_data);
    let ghost replied = reply;
    let ghost loaded = module;
    let version = match reply {
        Ok(bytes) => (host.decode_version)(bytes.as_slice()),
        Err(_) => None,
    };
    let ghost told = version;
    let native_can_call: bool = match &version {
        Some(v) => (host.can_call_with)(&ref_version, v),
        None => false,
    };
    let entry = RunWith::new(version, native_can_call, module);
    proof {
        let e = choose|e: &mut E|
            *e == *old(ext) && *final(e) == *ext && #[trigger] host.wasm_replies(
                e,
                loaded,
                "version"@,
                Seq::empty(),
                replied,
            );
        assert(host.wasm_replies(e, loaded, "version"@, Seq::empty(), replied));
        assert(host.decodes(replied, told));
        assert(entry == run_with(told, native_can_call, loaded));
        assert(host.judges::<E, V, R>(e, loaded, ref_version, entry));
    }
    entry
}

/// `after` is `before` with an entry for `code`: the one that was there, or a new one.
pub open spec fn cached<V>(
    before: Map<u64, RunWith<V>>,
    code: Seq<u8>,
    after: Map<u64, RunWith<V>>,
) -> bool {
    let key = cache_key(code);
    &&& after.contains_key(key)
    &&& after == if before.contains_key(key) {
        before
    } else {
        before.insert(key, after[key])
    }
}

/// Make sure that the cache tells how to run `code`. If it does not yet, the code is loaded and asked
/// for its version, which is held against `ref_version`; what comes of it is cached. Where the code
/// cannot be run, nothing is done.
pub fn ensure_cached<E, V, R, W, F, C>(
    cache: &mut CacheType<V>,
    ext: &mut E,
    code: &[u8],
    ref_version: V,
    host: &WasmHost<W, F, C>,
) -> (known: bool) where
    W: Fn(&mut E, &wasmi::Module, &str, &[u8]) -> Result<Vec<u8>, R>,
    F: Fn(&[u8]) -> Option<V>,
    C: Fn(&V, &V) -> bool,

    requires
        host.total::<E, V, R>(),
    ensures
        known == can_run(old(cache)@, code@),
        known <==> old(cache)@.contains_key(crate::wasm::xx_hash_64(0, code@)) || (
        crate::wasm_exits::few_locals(code@) && crate::wasm::wasm_module(code@) is Some),
        known ==> final(cache)@.contains_key(crate::wasm::xx_hash_64(0, code@)),
        old(cache)@.contains_key(crate::wasm::xx_hash_64(0, code@)) ==> final(cache)@ == old(cache)@,
        forall|key: u64|
            key != crate::wasm::xx_hash_64(0, code@) ==> #[trigger] final(cache)@.contains_key(key)
                == old(cache)@.contains_key(key),
        forall|key: u64|
            old(cache)@.contains_key(key) ==> #[trigger] final(cache)@[key] == old(cache)@[key],
        !known ==> final(cache)@ == old(cache)@ && *final(ext) == *old(ext),
        known ==> cached(old(cache)@, code@, final(cache)@),
        old(cache)@.contains_key(cache_key(code@)) ==> *final(ext) == *old(ext),
        known && !old(cache)@.contains_key(cache_key(code@)) ==> exists|e: &mut E|
            *e == *old(ext) && *final(e) == *final(ext) && #[trigger] host.judges::<E, V, R>(
                e,
                crate::wasm::wasm_module(code@)->0,
                ref_version,
                final(cache)@[cache_key(code@)],
            ),
{
    let key: u64 = gen_cache_key(code);
    if cache.contains_key(&key) {
        return true;
    }
    if !has_few_locals(code) {
        return false;
    }
    match module_from_buffer(code) {
        Ok(module) => {
            assert(crate::wasm::wasm_module(code@)->0 == module);
            let entry = judge(ext, module, ref_version, host);
            cache.insert(key, entry);
            true
        },
        Err(_) => false,
    }
}

/// Fetch from the cache how to run `code`. If it is not there yet, the code is loaded and asked for
/// its version, which is held against `ref_version`; what comes of it is cached and returned.
pub fn fetch_cached_runtime_version<'a, E, V, R, W, F, C>(
    cache: &'a mut CacheType<V>,
    ext: &mut E,
    code: &[u8],
    ref_version: V,
    host: &WasmHost<W, F, C>,
) -> (entry: &'a RunWith<V>) where
    W: Fn(&mut E, &wasmi::Module, &str, &[u8]) -> Result<Vec<u8>, R>,
    F: Fn(&[u8]) -> Option<V>,
    C: Fn(&V, &V) -> bool,

    requires
        host.total::<E, V, R>(),
        can_run(old(cache)@, code@),
    ensures
        *entry == final(cache)@[cache_key(code@)],
        final(cache)@.contains_key(crate::wasm::xx_hash_64(0, code@)),
        *entry == final(cache)@[crate::wasm::xx_hash_64(0, code@)],
        forall|key: u64|
            key != crate::wasm::xx_hash_64(0, code@) ==> #[trigger] final(cache)@.contains_key(key)
                == old(cache)@.contains_key(key),
        forall|key: u64|
            old(cache)@.contains_key(key) ==> #[trigger] final(cache)@[key] == old(cache)@[key],
        cached(old(cache)@, code@, final(cache)@),
        old(cache)@.contains_key(cache_key(code@)) ==> *final(ext) == *old(ext),
        !old(cache)@.contains_key(cache_key(code@)) ==> exists|e: &mut E|
            *e == *old(ext) && *final(e) == *final(ext) && #[trigger] host.judges::<E, V, R>(
                e,
                crate::wasm::wasm_module(code@)->0,
                ref_version,
                final(cache)@[cache_key(code@)],
            ),
{
    ensure_cached(cache, ext, code, ref_version, host);
    match cache.get(&gen_cache_key(code)) {
        Some(entry) => entry,
        None => vstd::pervasive::unreached(),
    }
}

/// A code is not in the cache, and is no valid WebAssembly module or has too many locals.
#[derive(Debug, PartialEq, Eq, Structural)]
pub struct InvalidModule;

/// Delegate for dispatching a call to native code.
pub trait NativeExecutionDispatch {
    /// What a runtime works on: storage and the like.
    type Externalities;

    /// A runtime version.
    type Version;

    /// Why a call failed.
    type Error;

    /// The version of the native runtime.
    const VERSION: Self::Version;

    /// Get the wasm code that the native dispatch will be equivalent to.
    fn native_equivalent() -> &'static [u8];

    /// Dispatch a method and input data to be executed natively. An unknown `method` is an error.
    fn dispatch(ext: &mut Self::Externalities, method: &str, data: &[u8]) -> Result<
        Vec<u8>,
        Self::Error,
    >;
}

/// `reply` is what dispatching `method` with `data` natively in `e` gave.
pub open spec fn native_replies<D: NativeExecutionDispatch>(
    e: &mut D::Externalities,
    method: Seq<char>,
    data: Seq<u8>,
    reply: Result<Vec<u8>, D::Error>,
) -> bool {
    exists|s: &str, d: &[u8]|
        s@ == method && d@ == data && #[trigger] call_ensures(D::dispatch, (e, s, d), reply)
}

/// `reply` is what calling `method` with `data` in `e` gave, where the call was run as `entry` says.
pub open spec fn replies<D: NativeExecutionDispatch, W, F, C>(
    host: WasmHost<W, F, C>,
    entry: RunWith<D::Version>,
    e: &mut D::Externalities,
    method: Seq<char>,
    data: Seq<u8>,
    reply: Result<Vec<u8>, D::Error>,
) -> bool where
    W: Fn(&mut D::Externalities, &wasmi::Module, &str, &[u8]) -> Result<Vec<u8>, D::Error>,
 {
    match entry {
        RunWith::NativeRuntime(_) => native_replies::<D>(e, method, data, reply),
        RunWith::WasmRuntime(_, module) => host.wasm_replies(e, module, method, data, reply),
        RunWith::InvalidVersion(module) => host.wasm_replies(e, module, method, data, reply),
    }
}

/// `version` is a copy of the version that `entry` knows, if it knows one.
pub open spec fn tells<V: Clone>(entry: RunWith<V>, version: Option<V>) -> bool {
    match entry.known_version() {
        Some(v) => version is Some && cloned(v, version->0),
        None => version is None,
    }
}

/// `after` is `before` with the native runtime of `D` entered for `code`.
pub open spec fn registered<D: NativeExecutionDispatch>(
    before: Map<u64, RunWith<D::Version>>,
    code: Seq<u8>,
    after: Map<u64, RunWith<D::Version>>,
) -> bool {
    after == before.insert(cache_key(code), RunWith::NativeRuntime(D::VERSION))
}

/// `entry` is how to run `code` by what the code itself says of its version.
pub open spec fn judged<D: NativeExecutionDispatch, W, F, C>(
    host: WasmHost<W, F, C>,
    code: Seq<u8>,
    entry: RunWith<D::Version>,
) -> bool where
    W: Fn(&mut D::Externalities, &wasmi::Module, &str, &[u8]) -> Result<Vec<u8>, D::Error>,
    F: Fn(&[u8]) -> Option<D::Version>,
    C: Fn(&D::Version, &D::Version) -> bool,
 {
    exists|e: &mut D::Externalities| #[trigger]
        host.judges::<D::Externalities, D::Version, D::Error>(
            e,
            crate::wasm::wasm_module(code)->0,
            D::VERSION,
            entry,
        )
}

/// `after` is `before` with an entry for `code`: the one that was there, or a new one by what the code
/// itself says of its version.
pub open spec fn fetched<D: NativeExecutionDispatch, W, F, C>(
    host: WasmHost<W, F, C>,
    before: Map<u64, RunWith<D::Version>>,
    code: Seq<u8>,
    after: Map<u64, RunWith<D::Version>>,
) -> bool where
    W: Fn(&mut D::Externalities, &wasmi::Module, &str, &[u8]) -> Result<Vec<u8>, D::Error>,
    F: Fn(&[u8]) -> Option<D::Version>,
    C: Fn(&D::Version, &D::Version) -> bool,
 {
    &&& cached(before, code, after)
    &&& !before.contains_key(cache_key(code)) ==> judged::<D, W, F, C>(
        host,
        code,
        after[cache_key(code)],
    )
}

/// An executor that uses a delegate to determine wasm code equivalence and dispatch to native code
/// when possible, falling back on WebAssembly when not.
#[derive(Debug)]
pub struct NativeExecutor<D: NativeExecutionDispatch + Sync + Send> {
    /// Ties the executor to its delegate.
    _dummy: std::marker::PhantomData<D>,
}

impl<D: NativeExecutionDispatch + Sync + Send> Clone for NativeExecutor<D> {
    fn clone(&self) -> (copy: Self)
        ensures
            copy == *self,
    {
        NativeExecutor { _dummy: std::marker::PhantomData }
    }
}

impl<D: NativeExecutionDispatch + Sync + Send> NativeExecutor<D> {
    /// Create a new instance. From here on the code that the delegate is equivalent to runs natively.
    pub fn new(cache: &mut CacheType<D::Version>) -> (executor: Self)
        ensures
            exists|code: &'static [u8]| #[trigger]
                call_ensures(D::native_equivalent, (), code) && registered::<D>(
                    old(cache)@,
                    code@,
                    final(cache)@,
                ),
            exists|code: &'static [u8]| #[trigger]
                call_ensures(D::native_equivalent, (), code) && final(cache)@ == old(cache)@.insert(
                    crate::wasm::xx_hash_64(0, code@),
                    RunWith::NativeRuntime(D::VERSION),
                ),
    {
        let code = D::native_equivalent();
        cache.insert(gen_cache_key(code), RunWith::NativeRuntime(D::VERSION));
        NativeExecutor { _dummy: std::marker::PhantomData }
    }

    /// The version of the native runtime.
    pub fn native_version() -> (version: Option<D::Version>)
        ensures
            version == Some(D::VERSION),
    {
        Some(D::VERSION)
    }

    /// The version of the runtime that `code` is, if it tells one.
    pub fn runtime_version<W, F, C>(
        &self,
        cache: &mut CacheType<D::Version>,
        ext: &mut D::Externalities,
        code: &[u8],
        host: &WasmHost<W, F, C>,
    ) -> (version: Option<D::Version>) where
        D::Version: Clone,
        W: Fn(&mut D::Externalities, &wasmi::Module, &str, &[u8]) -> Result<Vec<u8>, D::Error>,
        F: Fn(&[u8]) -> Option<D::Version>,
        C: Fn(&D::Version, &D::Version) -> bool,

        requires
            host.total::<D::Externalities, D::Version, D::Error>(),
            can_run(old(cache)@, code@),
        ensures
            tells(final(cache)@[cache_key(code@)], version),
            match final(cache)@[crate::wasm::xx_hash_64(0, code@)] {
                RunWith::NativeRuntime(v) => version matches Some(w) && cloned(v, w),
                RunWith::WasmRuntime(v, _) => version matches Some(w) && cloned(v, w),
                RunWith::InvalidVersion(_) => version is None,
            },
            fetched::<D, W, F, C>(*host, old(cache)@, code@, final(cache)@),
            old(cache)@.contains_key(cache_key(code@)) ==> *final(ext) == *old(ext),
            !old(cache)@.contains_key(cache_key(code@)) ==> exists|e: &mut D::Externalities|
                *e == *old(ext) && *final(e) == *final(ext) && #[trigger] host.judges::<
                    D::Externalities,
                    D::Version,
                    D::Error,
                >(
                    e,
                    crate::wasm::wasm_module(code@)->0,
                    D::VERSION,
                    final(cache)@[cache_key(code@)],
                ),
    {
        let entry = fetch_cached_runtime_version(cache, ext, code, D::VERSION, host);
        match entry.version() {
            Some(v) => Some(v.clone()),
            None => None,
        }
    }

    /// Call a method of a runtime, as `entry` says how to run it.
    pub fn call_as<W, F, C>(
        entry: &RunWith<D::Version>,
        ext: &mut D::Externalities,
        method: &str,
        data: &[u8],
        host: &WasmHost<W, F, C>,
    ) -> (reply: Result<Vec<u8>, D::Error>) where
        W: Fn(&mut D::Externalities, &wasmi::Module, &str, &[u8]) -> Result<Vec<u8>, D::Error>,

        requires
            host.runs_wasm::<D::Externalities, D::Error>(),
        ensures
            exists|e: &mut D::Externalities|
                *e == *old(ext) && *final(e) == *final(ext) && #[trigger] replies::<D, W, F, C>(
                    *host,
                    *entry,
                    e,
                    method@,
                    data@,
                    reply,
                ),
            *entry is NativeRuntime ==> exists|e: &mut D::Externalities|
                *e == *old(ext) && *final(e) == *final(ext) && #[trigger] call_ensures(
                    D::dispatch,
                    (e, method, data),
                    reply,
                ),
            *entry matches RunWith::WasmRuntime(_, module) ==> exists|e: &mut D::Externalities|
                *e == *old(ext) && *final(e) == *final(ext) && #[trigger] call_ensures(
                    host.call_in_wasm_module,
                    (e, &module, method, data),
                    reply,
                ),
            *entry matches RunWith::InvalidVersion(module) ==> exists|e: &mut D::Externalities|
                *e == *old(ext) && *final(e) == *final(ext) && #[trigger] call_ensures(
                    host.call_in_wasm_module,
                    (e, &module, method, data),
                    reply,
                ),
    {
        match entry {
            RunWith::NativeRuntime(_) => {
                let reply = D::dispatch(ext, method, data);
                proof {
                    let e = choose|e: &mut D::Externalities|
                        *e == *old(ext) && *final(e) == *ext && #[trigger] call_ensures(
                            D::dispatch,
                            (e, method, data),
                            reply,
                        );
                    assert(native_replies::<D>(e, method@, data@, reply));
                    assert(replies::<D, W, F, C>(*host, *entry, e, method@, data@, reply));
                }
                reply
            },
            RunWith::WasmRuntime(_, module) | RunWith::InvalidVersion(module) => {
                let reply = call_in_wasm_module(host, ext, module, method, data);
                proof {
                    let e = choose|e: &mut D::Externalities|
                        *e == *old(ext) && *final(e) == *ext && #[trigger] host.wasm_replies(
                            e,
                            *module,
                            method@,
                            data@,
                            reply,
                        );
                    assert(replies::<D, W, F, C>(*host, *entry, e, method@, data@, reply));
                }
                reply
            },
        }
    }

    /// Call a method of the runtime that `code` is: natively if the native runtime can be called in
    /// its place, and in WebAssembly otherwise.
    pub fn call<W, F, C>(
        &self,
        cache: &mut CacheType<D::Version>,
        ext: &mut D::Externalities,
        code: &[u8],
        method: &str,
        data: &[u8],
        host: &WasmHost<W, F, C>,
    ) -> (reply: Result<Vec<u8>, D::Error>) where
        W: Fn(&mut D::Externalities, &wasmi::Module, &str, &[u8]) -> Result<Vec<u8>, D::Error>,
        F: Fn(&[u8]) -> Option<D::Version>,
        C: Fn(&D::Version, &D::Version) -> bool,

        requires
            host.total::<D::Externalities, D::Version, D::Error>(),
            can_run(old(cache)@, code@),
        ensures
            fetched::<D, W, F, C>(*host, old(cache)@, code@, final(cache)@),
            old(cache)@.contains_key(cache_key(code@)) ==> exists|e: &mut D::Externalities|
                *e == *old(ext) && *final(e) == *final(ext) && #[trigger] replies::<D, W, F, C>(
                    *host,
                    final(cache)@[cache_key(code@)],
                    e,
                    method@,
                    data@,
                    reply,
                ),
            !old(cache)@.contains_key(cache_key(code@)) ==> exists|
                e: &mut D::Externalities,
                e2: &mut D::Externalities,
            |
                {
                    &&& *e == *old(ext)
                    &&& *final(e) == *e2
                    &&& *final(e2) == *final(ext)
                    &&& #[trigger] host.judges::<D::Externalities, D::Version, D::Error>(
                        e,
                        crate::wasm::wasm_module(code@)->0,
                        D::VERSION,
                        final(cache)@[cache_key(code@)],
                    )
                    &&& #[trigger] replies::<D, W, F, C>(
                        *host,
                        final(cache)@[cache_key(code@)],
                        e2,
                        method@,
                        data@,
                        reply,
                    )
                },
            final(cache)@[crate::wasm::xx_hash_64(0, code@)] is NativeRuntime ==> exists|
                e: &mut D::Externalities,
            |
                {
                    &&& old(cache)@.contains_key(crate::wasm::xx_hash_64(0, code@)) ==> *e == *old(
                        ext,
                    )
                    &&& *final(e) == *final(ext)
                    &&& #[trigger] call_ensures(D::dispatch, (e, method, data), reply)
                },
            final(cache)@[crate::wasm::xx_hash_64(0, code@)] matches RunWith::WasmRuntime(_, module) ==> exists|
                e: &mut D::Externalities,
            |
                {
                    &&& old(cache)@.contains_key(crate::wasm::xx_hash_64(0, code@)) ==> *e == *old(
                        ext,
                    )
                    &&& *final(e) == *final(ext)
                    &&& #[trigger] call_ensures(host.call_in_wasm_module, (e, &module, method, data), reply)
                },
            final(cache)@[crate::wasm::xx_hash_64(0, code@)] matches RunWith::InvalidVersion(module) ==> exists|
                e: &mut D::Externalities,
            |
                {
                    &&& old(cache)@.contains_key(crate::wasm::xx_hash_64(0, code@)) ==> *e == *old(
                        ext,
                    )
                    &&& *final(e) == *final(ext)
                    &&& #[trigger] call_ensures(host.call_in_wasm_module, (e, &module, method, data), reply)
                },
    {
        let entry = fetch_cached_runtime_version(cache, ext, code, D::VERSION, host);
        Self::call_as(entry, ext, method, data, host)
    }

    /// Like `runtime_version`, for a code of which nothing is known: it is an error, and nothing is
    /// done, if the code cannot be run.
    pub fn checked_runtime_version<W, F, C>(
        &self,
        cache: &mut CacheType<D::Version>,
        ext: &mut D::Externalities,
        code: &[u8],
        host: &WasmHost<W, F, C>,
    ) -> (checked: Result<Option<D::Version>, InvalidModule>) where
        D::Version: Clone,
        W: Fn(&mut D::Externalities, &wasmi::Module, &str, &[u8]) -> Result<Vec<u8>, D::Error>,
        F: Fn(&[u8]) -> Option<D::Version>,
        C: Fn(&D::Version, &D::Version) -> bool,

        requires
            host.total::<D::Externalities, D::Version, D::Error>(),
        ensures
            checked is Ok <==> can_run(old(cache)@, code@),
            checked is Ok <==> old(cache)@.contains_key(crate::wasm::xx_hash_64(0, code@)) || (
            crate::wasm_exits::few_locals(code@) && crate::wasm::wasm_module(code@) is Some),
            checked is Err ==> final(cache)@ == old(cache)@ && *final(ext) == *old(ext),
            checked is Ok ==> tells(final(cache)@[cache_key(code@)], checked->Ok_0),
            checked matches Ok(version) ==> (match final(cache)@[crate::wasm::xx_hash_64(0, code@)] {
                RunWith::NativeRuntime(v) => version matches Some(w) && cloned(v, w),
                RunWith::WasmRuntime(v, _) => version matches Some(w) && cloned(v, w),
                RunWith::InvalidVersion(_) => version is None,
            }),
            checked is Ok ==> fetched::<D, W, F, C>(*host, old(cache)@, code@, final(cache)@),
            old(cache)@.contains_key(cache_key(code@)) ==> *final(ext) == *old(ext),
            checked is Ok && !old(cache)@.contains_key(cache_key(code@)) ==> exists|
                e: &mut D::Externalities,
            |
                *e == *old(ext) && *final(e) == *final(ext) && #[trigger] host.judges::<
                    D::Externalities,
                    D::Version,
                    D::Error,
                >(
                    e,
                    crate::wasm::wasm_module(code@)->0,
                    D::VERSION,
                    final(cache)@[cache_key(code@)],
                ),
    {
        if ensure_cached(cache, ext, code, D::VERSION, host) {
            Ok(self.runtime_version(cache, ext, code, host))
        } else {
            Err(InvalidModule)
        }
    }

    /// Like `call`, for a code of which nothing is known: it is an error, and nothing is done, if the
    /// code cannot be run.
    pub fn checked_call<W, F, C>(
        &self,
        cache: &mut CacheType<D::Version>,
        ext: &mut D::Externalities,
        code: &[u8],
        method: &str,
        data: &[u8],
        host: &WasmHost<W, F, C>,
    ) -> (checked: Result<Result<Vec<u8>, D::Error>, InvalidModule>) where
        W: Fn(&mut D::Externalities, &wasmi::Module, &str, &[u8]) -> Result<Vec<u8>, D::Error>,
        F: Fn(&[u8]) -> Option<D::Version>,
        C: Fn(&D::Version, &D::Version) -> bool,

        requires
            host.total::<D::Externalities, D::Version, D::Error>(),
        ensures
            checked is Ok <==> can_run(old(cache)@, code@),
            checked is Ok <==> old(cache)@.contains_key(crate::wasm::xx_hash_64(0, code@)) || (
            crate::wasm_exits::few_locals(code@) && crate::wasm::wasm_module(code@) is Some),
            checked is Err ==> final(cache)@ == old(cache)@ && *final(ext) == *old(ext),
            checked is Ok ==> fetched::<D, W, F, C>(*host, old(cache)@, code@, final(cache)@),
            old(cache)@.contains_key(cache_key(code@)) ==> exists|e: &mut D::Externalities|
                *e == *old(ext) && *final(e) == *final(ext) && #[trigger] replies::<D, W, F, C>(
                    *host,
                    final(cache)@[cache_key(code@)],
                    e,
                    method@,
                    data@,
                    checked->Ok_0,
                ),
            checked is Ok && !old(cache)@.contains_key(cache_key(code@)) ==> exists|
                e: &mut D::Externalities,
                e2: &mut D::Externalities,
            |
                {
                    &&& *e == *old(ext)
                    &&& *final(e) == *e2
                    &&& *final(e2) == *final(ext)
                    &&& #[trigger] host.judges::<D::Externalities, D::Version, D::Error>(
                        e,
                        crate::wasm::wasm_module(code@)->0,
                        D::VERSION,
                        final(cache)@[cache_key(code@)],
                    )
                    &&& #[trigger] replies::<D, W, F, C>(
                        *host,
                        final(cache)@[cache_key(code@)],
                        e2,
                        method@,
                        data@,
                        checked->Ok_0,
                    )
                },
            checked is Ok && final(cache)@[crate::wasm::xx_hash_64(
                0,
                code@,
            )] is NativeRuntime ==> exists|
                e: &mut D::Externalities,
            |
                {
                    &&& old(cache)@.contains_key(crate::wasm::xx_hash_64(0, code@)) ==> *e == *old(
                        ext,
                    )
                    &&& *final(e) == *final(ext)
                    &&& #[trigger] call_ensures(D::dispatch, (e, method, data), checked->Ok_0)
                },
            final(cache)@[crate::wasm::xx_hash_64(0, code@)] matches RunWith::WasmRuntime(_, module)
                ==> checked is Ok ==> exists|
                e: &mut D::Externalities,
            |
                {
                    &&& old(cache)@.contains_key(crate::wasm::xx_hash_64(0, code@)) ==> *e == *old(
                        ext,
                    )
                    &&& *final(e) == *final(ext)
                    &&& #[trigger] call_ensures(host.call_in_wasm_module, (e, &module, method, data), checked->Ok_0)
                },
            final(cache)@[crate::wasm::xx_hash_64(0, code@)] matches RunWith::InvalidVersion(module)
                ==> checked is Ok ==> exists|
                e: &mut D::Externalities,
            |
                {
                    &&& old(cache)@.contains_key(crate::wasm::xx_hash_64(0, code@)) ==> *e == *old(
                        ext,
                    )
                    &&& *final(e) == *final(ext)
                    &&& #[trigger] call_ensures(host.call_in_wasm_module, (e, &module, method, data), checked->Ok_0)
                },
    {
        if ensure_cached(cache, ext, code, D::VERSION, host) {
            let reply = self.call(cache, ext, code, method, data, host);
            let checked = Ok::<Result<Vec<u8>, D::Error>, InvalidModule>(reply);
            assert(checked->Ok_0 == reply);
            checked
        } else {
            Err(InvalidModule)
        }
    }
}

/// `caches` are the states of a cache while the codes `codes` are fetched, one after the other.
pub open spec fn fetches<V>(caches: Seq<Map<u64, RunWith<V>>>, codes: Seq<Seq<u8>>) -> bool {
    &&& caches.len() == codes.len() + 1
    &&& forall|i: int|
        0 <= i < codes.len() ==> #[trigger] cached(caches[i], codes[i], caches[i + 1])
}

/// Fetching a code changes no entry of the cache, and adds at most one: that of the code. From then
/// on the code can be run without further ado.
pub proof fn law_fetch_adds_at_most_its_own_entry<V>(
    before: Map<u64, RunWith<V>>,
    code: Seq<u8>,
    after: Map<u64, RunWith<V>>,
)
    requires
        cached(before, code, after),
    ensures
        before.submap_of(after),
        can_run(after, code),
        forall|key: u64|
            after.contains_key(key) ==> before.contains_key(key) || key == cache_key(code),
{
}

/// How a code is run is decided once: whatever is fetched afterwards, its entry stays as it is.
pub proof fn law_entry_is_decided_once<V>(
    caches: Seq<Map<u64, RunWith<V>>>,
    codes: Seq<Seq<u8>>,
    key: u64,
)
    requires
        fetches(caches, codes),
        caches.first().contains_key(key),
    ensures
        caches.last().contains_key(key),
        caches.last()[key] == caches.first()[key],
    decreases codes.len(),
{
    if codes.len() > 0 {
        let n = codes.len() - 1;
        assert(cached(caches[n], codes[n], caches[n + 1]));
        assert forall|i: int| 0 <= i < n implies #[trigger] cached(
            caches.drop_last()[i],
            codes.drop_last()[i],
            caches.drop_last()[i + 1],
        ) by {
            assert(cached(caches[i], codes[i], caches[i + 1]));
        }
        law_entry_is_decided_once(caches.drop_last(), codes.drop_last(), key);
    }
}

/// Fetching a code again, or another code with the same key, changes nothing and gives the entry
/// that is there.
pub proof fn law_same_key_shares_one_entry<V>(
    before: Map<u64, RunWith<V>>,
    code: Seq<u8>,
    between: Map<u64, RunWith<V>>,
    other: Seq<u8>,
    after: Map<u64, RunWith<V>>,
)
    requires
        cached(before, code, between),
        cache_key(other) == cache_key(code),
        cached(between, other, after),
    ensures
        after == between,
        after[cache_key(other)] == between[cache_key(code)],
{
}

/// Codes with different keys do not disturb each other: the order in which they are fetched does not
/// matter to the cache, if each gets the entry that it got in the other order.
pub proof fn law_different_keys_are_independent<V>(
    before: Map<u64, RunWith<V>>,
    code: Seq<u8>,
    other: Seq<u8>,
    between: Map<u64, RunWith<V>>,
    after: Map<u64, RunWith<V>>,
    between2: Map<u64, RunWith<V>>,
    after2: Map<u64, RunWith<V>>,
)
    requires
        cache_key(code) != cache_key(other),
        cached(before, code, between),
        cached(between, other, after),
        cached(before, other, between2),
        cached(between2, code, after2),
        after[cache_key(code)] == after2[cache_key(code)],
        after[cache_key(other)] == after2[cache_key(other)],
    ensures
        after == after2,
{
    assert(after =~= after2);
}

/// A new executor puts the code that its delegate is equivalent to into the cache, in place of what
/// was there, and leaves every other entry alone.
pub proof fn law_registering_leaves_others<D: NativeExecutionDispatch>(
    before: Map<u64, RunWith<D::Version>>,
    code: Seq<u8>,
    after: Map<u64, RunWith<D::Version>>,
    key: u64,
)
    requires
        registered::<D>(before, code, after),
        key != cache_key(code),
    ensures
        after.contains_key(cache_key(code)),
        after.contains_key(key) == before.contains_key(key),
        before.contains_key(key) ==> after[key] == before[key],
{
}

/// Once an executor was created, the code that its delegate is equivalent to can be run, whatever
/// was fetched in between: it has the delegate's own version, and its calls are dispatched natively.
pub proof fn law_equivalent_code_runs_natively<D: NativeExecutionDispatch, W, F, C>(
    before: Map<u64, RunWith<D::Version>>,
    code: Seq<u8>,
    caches: Seq<Map<u64, RunWith<D::Version>>>,
    codes: Seq<Seq<u8>>,
    host: WasmHost<W, F, C>,
    e: &mut D::Externalities,
    method: Seq<char>,
    data: Seq<u8>,
    reply: Result<Vec<u8>, D::Error>,
) where W: Fn(&mut D::Externalities, &wasmi::Module, &str, &[u8]) -> Result<Vec<u8>, D::Error>
    requires
        fetches(caches, codes),
        registered::<D>(before, code, caches.first()),
    ensures
        can_run(caches.last(), code),
        caches.last()[cache_key(code)].known_version() == Some(D::VERSION),
        replies::<D, W, F, C>(
            host,
            caches.last()[cache_key(code)],
            e,
            method,
            data,
            reply,
        ) == native_replies::<D>(e, method, data, reply),
{
    law_entry_is_decided_once(caches, codes, cache_key(code));
}

/// A code that is judged by what it tells is run natively only if it told a version that the native
/// runtime can be called in place of. Otherwise it is run with its own module: it told a version
/// that the native runtime cannot be called in place of, or none.
pub proof fn law_native_only_if_callable<E, V, R, W, F, C>(
    host: WasmHost<W, F, C>,
    e: &mut E,
    module: wasmi::Module,
    ref_version: V,
    entry: RunWith<V>,
) where
    W: Fn(&mut E, &wasmi::Module, &str, &[u8]) -> Result<Vec<u8>, R>,
    F: Fn(&[u8]) -> Option<V>,
    C: Fn(&V, &V) -> bool,

    requires
        host.judges::<E, V, R>(e, module, ref_version, entry),
    ensures
        exists|reply: Result<Vec<u8>, R>| #[trigger]
            host.wasm_replies(e, module, "version"@, Seq::empty(), reply) && host.decodes(
                reply,
                entry.known_version(),
            ),
        match entry {
            RunWith::NativeRuntime(v) => call_ensures(host.can_call_with, (&ref_version, &v), true),
            RunWith::WasmRuntime(v, own) => own == module && call_ensures(
                host.can_call_with,
                (&ref_version, &v),
                false,
            ),
            RunWith::InvalidVersion(own) => own == module,
        },
{
}

/// A code of which no version is told is never run natively.
pub proof fn law_no_version_no_native_call<D: NativeExecutionDispatch, W, F, C>(
    host: WasmHost<W, F, C>,
    entry: RunWith<D::Version>,
    e: &mut D::Externalities,
    method: Seq<char>,
    data: Seq<u8>,
    reply: Result<Vec<u8>, D::Error>,
) where
    D::Version: Clone,
    W: Fn(&mut D::Externalities, &wasmi::Module, &str, &[u8]) -> Result<Vec<u8>, D::Error>,

    requires
        tells(entry, None),
        replies::<D, W, F, C>(host, entry, e, method, data, reply),
    ensures
        entry matches RunWith::InvalidVersion(module) && host.wasm_replies(
            e,
            module,
            method,
            data,
            reply,
        ),
{
}

/// `caches` are the states of the cache of a process whose only delegate is `D`, which is equivalent
/// to `native`. An executor is created first; from one state to the next one of `codes` is fetched, or
/// another executor is created.
pub open spec fn runs<D: NativeExecutionDispatch, W, F, C>(
    host: WasmHost<W, F, C>,
    native: Seq<u8>,
    caches: Seq<Map<u64, RunWith<D::Version>>>,
    codes: Seq<Seq<u8>>,
) -> bool where
    W: Fn(&mut D::Externalities, &wasmi::Module, &str, &[u8]) -> Result<Vec<u8>, D::Error>,
    F: Fn(&[u8]) -> Option<D::Version>,
    C: Fn(&D::Version, &D::Version) -> bool,
 {
    &&& caches.len() == codes.len() + 1
    &&& registered::<D>(Map::empty(), native, caches.first())
    &&& forall|i: int|
        0 <= i < codes.len() ==> (#[trigger] fetched::<D, W, F, C>(
            host,
            caches[i],
            codes[i],
            caches[i + 1],
        ) || codes[i] == native && registered::<D>(caches[i], native, caches[i + 1]))
}

/// Whatever a process does with its cache, it changes no entry, and each entry is that of the native
/// runtime or comes of judging one of the codes that were fetched.
proof fn lemma_entries<D: NativeExecutionDispatch, W, F, C>(
    host: WasmHost<W, F, C>,
    native: Seq<u8>,
    caches: Seq<Map<u64, RunWith<D::Version>>>,
    codes: Seq<Seq<u8>>,
    key: u64,
    first: int,
    last: int,
) where
    W: Fn(&mut D::Externalities, &wasmi::Module, &str, &[u8]) -> Result<Vec<u8>, D::Error>,
    F: Fn(&[u8]) -> Option<D::Version>,
    C: Fn(&D::Version, &D::Version) -> bool,

    requires
        runs::<D, W, F, C>(host, native, caches, codes),
        0 <= first <= last < caches.len(),
    ensures
        caches[last].contains_key(cache_key(native)),
        caches[last][cache_key(native)] == RunWith::NativeRuntime(D::VERSION),
        caches[first].contains_key(key) ==> caches[last].contains_key(key) && caches[last][key]
            == caches[first][key],
        caches[last].contains_key(key) && key != cache_key(native) ==> exists|i: int|
            0 <= i < codes.len() && cache_key(codes[i]) == key && #[trigger] judged::<D, W, F, C>(
                host,
                codes[i],
                caches[last][key],
            ),
    decreases last,
{
    if last > 0 {
        let i = last - 1;
        lemma_entries::<D, W, F, C>(
            host,
            native,
            caches,
            codes,
            key,
            if first < last {
                first
            } else {
                i
            },
            i,
        );
        assert(fetched::<D, W, F, C>(host, caches[i], codes[i], caches[i + 1]) || registered::<D>(
            caches[i],
            native,
            caches[i + 1],
        ));
        if key != cache_key(native) {
            if caches[i].contains_key(key) {
                assert(caches[last][key] == caches[i][key]);
            } else if caches[last].contains_key(key) {
                assert(judged::<D, W, F, C>(host, codes[i], caches[last][key]));
            }
        }
    }
}

/// `can` is what came of comparing the version of the native runtime with `version`: a code that tells
/// no version cannot be stood in for.
pub open spec fn compared<D: NativeExecutionDispatch, W, F, C>(
    host: WasmHost<W, F, C>,
    version: Option<D::Version>,
    can: bool,
) -> bool where C: Fn(&D::Version, &D::Version) -> bool {
    match version {
        Some(v) => call_ensures(host.can_call_with, (&D::VERSION, &v), can),
        None => !can,
    }
}

/// In a process whose only delegate is `D`, the calls of a code other than the one that the delegate is
/// equivalent to are dispatched natively if and only if comparing the version that the code told with
/// the native one came out so. Otherwise they are run with the module of the code. It does not matter
/// what is called with which data. What is told as the version of the code, at any time, is a copy of the
/// version that was compared.
///
/// The codes that were fetched and the one that the delegate is equivalent to have keys of their own.
pub proof fn law_route_follows_the_comparison<D: NativeExecutionDispatch, W, F, C>(
    host: WasmHost<W, F, C>,
    native: Seq<u8>,
    caches: Seq<Map<u64, RunWith<D::Version>>>,
    codes: Seq<Seq<u8>>,
    code: Seq<u8>,
    told: int,
    version: Option<D::Version>,
    called: int,
    e: &mut D::Externalities,
    method: Seq<char>,
    data: Seq<u8>,
    reply: Result<Vec<u8>, D::Error>,
) where
    D::Version: Clone,
    W: Fn(&mut D::Externalities, &wasmi::Module, &str, &[u8]) -> Result<Vec<u8>, D::Error>,
    F: Fn(&[u8]) -> Option<D::Version>,
    C: Fn(&D::Version, &D::Version) -> bool,

    requires
        runs::<D, W, F, C>(host, native, caches, codes),
        cache_key(native) == cache_key(code) ==> native == code,
        forall|i: int|
            0 <= i < codes.len() && cache_key(#[trigger] codes[i]) == cache_key(code) ==> codes[i]
                == code,
        0 <= told < caches.len(),
        caches[told].contains_key(cache_key(code)),
        tells(caches[told][cache_key(code)], version),
        0 <= called < caches.len(),
        caches[called].contains_key(cache_key(code)),
    ensures
        tells(caches[called][cache_key(code)], version),
        code == native ==> {
            &&& caches[called][cache_key(code)] == RunWith::NativeRuntime(D::VERSION)
            &&& replies::<D, W, F, C>(
                host,
                caches[called][cache_key(code)],
                e,
                method,
                data,
                reply,
            ) == native_replies::<D>(e, method, data, reply)
        },
        code != native ==> exists|can: bool|
            {
                &&& #[trigger] compared::<D, W, F, C>(
                    host,
                    caches[called][cache_key(code)].known_version(),
                    can,
                )
                &&& caches[called][cache_key(code)] is NativeRuntime <==> can
                &&& replies::<D, W, F, C>(
                    host,
                    caches[called][cache_key(code)],
                    e,
                    method,
                    data,
                    reply,
                ) == if can {
                    native_replies::<D>(e, method, data, reply)
                } else {
                    host.wasm_replies(e, crate::wasm::wasm_module(code)->0, method, data, reply)
                }
            },
{
    let key = cache_key(code);
    let entry = caches[called][key];
    lemma_entries::<D, W, F, C>(host, native, caches, codes, key, called, called);
    if told <= called {
        lemma_entries::<D, W, F, C>(host, native, caches, codes, key, told, called);
    } else {
        lemma_entries::<D, W, F, C>(host, native, caches, codes, key, called, told);
    }
    if code != native {
        assert(judged::<D, W, F, C>(host, code, entry));
        let e1 = choose|e1: &mut D::Externalities| #[trigger]
            host.judges::<D::Externalities, D::Version, D::Error>(
                e1,
                crate::wasm::wasm_module(code)->0,
                D::VERSION,
                entry,
            );
        law_native_only_if_callable::<D::Externalities, D::Version, D::Error, W, F, C>(
            host,
            e1,
            crate::wasm::wasm_module(code)->0,
            D::VERSION,
            entry,
        );
        assert(compared::<D, W, F, C>(host, entry.known_version(), entry is NativeRuntime));
    }
}

/// In a process whose only delegate is `D`, the calls of a code are dispatched natively if and only if
/// the code is the one that the delegate is equivalent to, or the version that is told of it is one
/// that the native runtime can be called in place of. Otherwise they are run with the module of the
/// code. It does not matter what is called with which data, nor when the version was told and when the
/// call was made.
///
/// The codes that were fetched and the one that the delegate is equivalent to have keys of their own,
/// the comparison of versions is a function, and a copy of a version equals it.
pub proof fn law_native_if_and_only_if_callable<D: NativeExecutionDispatch, W, F, C>(
    host: WasmHost<W, F, C>,
    callable: spec_fn(D::Version, D::Version) -> bool,
    native: Seq<u8>,
    caches: Seq<Map<u64, RunWith<D::Version>>>,
    codes: Seq<Seq<u8>>,
    code: Seq<u8>,
    told: int,
    version: Option<D::Version>,
    called: int,
    e: &mut D::Externalities,
    method: Seq<char>,
    data: Seq<u8>,
    reply: Result<Vec<u8>, D::Error>,
) where
    D::Version: Clone,
    W: Fn(&mut D::Externalities, &wasmi::Module, &str, &[u8]) -> Result<Vec<u8>, D::Error>,
    F: Fn(&[u8]) -> Option<D::Version>,
    C: Fn(&D::Version, &D::Version) -> bool,

    requires
        runs::<D, W, F, C>(host, native, caches, codes),
        forall|a: D::Version, b: D::Version, can: bool| #[trigger]
            call_ensures(host.can_call_with, (&a, &b), can) ==> can == callable(a, b),
        forall|a: D::Version, b: D::Version| #[trigger] cloned(a, b) ==> a == b,
        cache_key(native) == cache_key(code) ==> native == code,
        forall|i: int|
            0 <= i < codes.len() && cache_key(#[trigger] codes[i]) == cache_key(code) ==> codes[i]
                == code,
        0 <= told < caches.len(),
        caches[told].contains_key(cache_key(code)),
        tells(caches[told][cache_key(code)], version),
        0 <= called < caches.len(),
        caches[called].contains_key(cache_key(code)),
    ensures
        replies::<D, W, F, C>(
            host,
            caches[called][cache_key(code)],
            e,
            method,
            data,
            reply,
        ) == if code == native || (version matches Some(v) && callable(D::VERSION, v)) {
            native_replies::<D>(e, method, data, reply)
        } else {
            host.wasm_replies(e, crate::wasm::wasm_module(code)->0, method, data, reply)
        },
        caches[called][cache_key(code)] is NativeRuntime <==> code == native || (
        version matches Some(v) && callable(D::VERSION, v)),
{
    law_route_follows_the_comparison::<D, W, F, C>(
        host,
        native,
        caches,
        codes,
        code,
        told,
        version,
        called,
        e,
        method,
        data,
        reply,
    );
}

/// A call reaches the one who runs it with the method and with all of the data, byte for byte: the
/// native runtime, or else the module of the entry, and what that one replied is the reply.
pub proof fn law_call_reaches_its_runtime_unchanged<D: NativeExecutionDispatch, W, F, C>(
    host: WasmHost<W, F, C>,
    entry: RunWith<D::Version>,
    e: &mut D::Externalities,
    method: Seq<char>,
    data: Seq<u8>,
    reply: Result<Vec<u8>, D::Error>,
) where W: Fn(&mut D::Externalities, &wasmi::Module, &str, &[u8]) -> Result<Vec<u8>, D::Error>
    requires
        replies::<D, W, F, C>(host, entry, e, method, data, reply),
    ensures
        entry is NativeRuntime ==> exists|s: &str, d: &[u8]|
            {
                &&& s@ == method
                &&& d@.len() == data.len()
                &&& forall|i: int| 0 <= i < data.len() ==> d@[i] == data[i]
                &&& #[trigger] call_ensures(D::dispatch, (e, s, d), reply)
            },
        entry matches RunWith::WasmRuntime(_, module) ==> exists|s: &str, d: &[u8]|
            {
                &&& s@ == method
                &&& d@.len() == data.len()
                &&& forall|i: int| 0 <= i < data.len() ==> d@[i] == data[i]
                &&& #[trigger] call_ensures(host.call_in_wasm_module, (e, &module, s, d), reply)
            },
        entry matches RunWith::InvalidVersion(module) ==> exists|s: &str, d: &[u8]|
            {
                &&& s@ == method
                &&& d@.len() == data.len()
                &&& forall|i: int| 0 <= i < data.len() ==> d@[i] == data[i]
                &&& #[trigger] call_ensures(host.call_in_wasm_module, (e, &module, s, d), reply)
            },
{
}

/// If what a module replies to a call is a function of the method and the data, and what the native
/// runtime replies is one too, then so is the reply of a call: that function, of the method and of all
/// of the data.
pub proof fn law_reply_is_that_of_its_runtime<D: NativeExecutionDispatch, W, F, C>(
    host: WasmHost<W, F, C>,
    entry: RunWith<D::Version>,
    e: &mut D::Externalities,
    method: Seq<char>,
    data: Seq<u8>,
    reply: Result<Vec<u8>, D::Error>,
    native: spec_fn(Seq<char>, Seq<u8>) -> Result<Vec<u8>, D::Error>,
    wasm: spec_fn(wasmi::Module, Seq<char>, Seq<u8>) -> Result<Vec<u8>, D::Error>,
) where W: Fn(&mut D::Externalities, &wasmi::Module, &str, &[u8]) -> Result<Vec<u8>, D::Error>
    requires
        replies::<D, W, F, C>(host, entry, e, method, data, reply),
        forall|s: &str, d: &[u8], r: Result<Vec<u8>, D::Error>| #[trigger]
            call_ensures(D::dispatch, (e, s, d), r) ==> r == native(s@, d@),
        forall|m: &wasmi::Module, s: &str, d: &[u8], r: Result<Vec<u8>, D::Error>| #[trigger]
            call_ensures(host.call_in_wasm_module, (e, m, s, d), r) ==> r == wasm(*m, s@, d@),
    ensures
        entry is NativeRuntime ==> reply == native(method, data),
        entry matches RunWith::WasmRuntime(_, module) ==> reply == wasm(module, method, data),
        entry matches RunWith::InvalidVersion(module) ==> reply == wasm(module, method, data),
{
}

/// The version of a code is decoded from the whole reply to its version call. Where the call failed,
/// no version is known.
pub proof fn law_the_whole_reply_is_decoded<V, R, W, F, C>(
    host: WasmHost<W, F, C>,
    reply: Result<Vec<u8>, R>,
    version: Option<V>,
    decode: spec_fn(Seq<u8>) -> Option<V>,
) where F: Fn(&[u8]) -> Option<V>
    requires
        host.decodes(reply, version),
        forall|d: &[u8], v: Option<V>| #[trigger]
            call_ensures(host.decode_version, (d,), v) ==> v == decode(d@),
    ensures
        reply matches Ok(bytes) ==> version == decode(bytes@),
        reply is Err ==> version is None,
{
}

/// The decoder gets the whole reply to the version call, byte for byte, and the version is what it then
/// gave.
pub proof fn law_decoder_gets_the_whole_reply<V, R, W, F, C>(
    host: WasmHost<W, F, C>,
    bytes: Vec<u8>,
    version: Option<V>,
) where F: Fn(&[u8]) -> Option<V>
    requires
        host.decodes(Ok::<Vec<u8>, R>(bytes), version),
    ensures
        exists|d: &[u8]|
            {
                &&& d@.len() == bytes@.len()
                &&& forall|i: int| 0 <= i < bytes@.len() ==> d@[i] == bytes@[i]
                &&& #[trigger] call_ensures(host.decode_version, (d,), version)
            },
{
}

/// A new code is judged by what it itself says: its module is called once, with the method `version` and
/// no data; the whole reply is decoded; and the version of the native runtime is compared with what came
/// out. A code that tells no version is run with its module, and one that tells a version natively or
/// with its module, as the comparison came out.
///
/// Decoding and comparing are functions here.
pub proof fn law_code_is_judged_by_what_it_tells<E, V, R, W, F, C>(
    host: WasmHost<W, F, C>,
    e: &mut E,
    module: wasmi::Module,
    ref_version: V,
    entry: RunWith<V>,
    decode: spec_fn(Seq<u8>) -> Option<V>,
    callable: spec_fn(V, V) -> bool,
) where
    W: Fn(&mut E, &wasmi::Module, &str, &[u8]) -> Result<Vec<u8>, R>,
    F: Fn(&[u8]) -> Option<V>,
    C: Fn(&V, &V) -> bool,

    requires
        host.judges::<E, V, R>(e, module, ref_version, entry),
        forall|d: &[u8], v: Option<V>| #[trigger]
            call_ensures(host.decode_version, (d,), v) ==> v == decode(d@),
        forall|a: V, b: V, can: bool| #[trigger]
            call_ensures(host.can_call_with, (&a, &b), can) ==> can == callable(a, b),
    ensures
        exists|s: &str, d: &[u8], reply: Result<Vec<u8>, R>|
            {
                &&& s@ == "version"@
                &&& d@.len() == 0
                &&& #[trigger] call_ensures(host.call_in_wasm_module, (e, &module, s, d), reply)
                &&& reply is Err ==> entry == RunWith::<V>::InvalidVersion(module)
                &&& reply matches Ok(bytes) ==> (match decode(bytes@) {
                    None => entry == RunWith::<V>::InvalidVersion(module),
                    Some(v) => if callable(ref_version, v) {
                        entry == RunWith::<V>::NativeRuntime(v)
                    } else {
                        entry == RunWith::<V>::WasmRuntime(v, module)
                    },
                })
            },
{
    let (reply, version, can) = choose|
        reply: Result<Vec<u8>, R>,
        version: Option<V>,
        can: bool,
    |
        {
            &&& #[trigger] host.wasm_replies(e, module, "version"@, Seq::empty(), reply)
            &&& #[trigger] host.decodes(reply, version)
            &&& version matches Some(v) ==> call_ensures(
                host.can_call_with,
                (&ref_version, &v),
                can,
            )
            &&& entry == #[trigger] run_with(version, can, module)
        };
    law_the_whole_reply_is_decoded(host, reply, version, decode);
    let (s, d) = choose|s: &str, d: &[u8]|
        #![trigger call_ensures(host.call_in_wasm_module, (e, &module, s, d), reply)]
        s@ == "version"@ && d@ =~= Seq::<u8>::empty() && call_ensures(
            host.call_in_wasm_module,
            (e, &module, s, d),
            reply,
        );
    assert(call_ensures(host.call_in_wasm_module, (e, &module, s, d), reply));
}

/// The key of a code is the 64-bit xxHash of all of its bytes, without a seed. Codes whose hashes differ
/// have different keys, and so never share an entry.
pub proof fn law_codes_with_different_hashes_do_not_share<V>(
    a: Seq<u8>,
    b: Seq<u8>,
    before: Map<u64, RunWith<V>>,
    after: Map<u64, RunWith<V>>,
)
    requires
        crate::wasm::xx_hash_64(0, a) != crate::wasm::xx_hash_64(0, b),
        cached(before, a, after),
    ensures
        cache_key(a) == crate::wasm::xx_hash_64(0, a),
        cache_key(a) != cache_key(b),
        after.contains_key(cache_key(b)) == before.contains_key(cache_key(b)),
        before.contains_key(cache_key(b)) ==> after[cache_key(b)] == before[cache_key(b)],
{
}

/// A fetch leaves the cache as it was where the code was known, and otherwise adds one entry, under the
/// hash of the code, and no other.
pub proof fn law_fetch_adds_one_entry_under_the_hash<V>(
    before: Map<u64, RunWith<V>>,
    code: Seq<u8>,
    after: Map<u64, RunWith<V>>,
)
    requires
        cached(before, code, after),
    ensures
        before.contains_key(crate::wasm::xx_hash_64(0, code)) ==> after == before,
        forall|key: u64| #[trigger]
            after.contains_key(key) <==> before.contains_key(key) || key
                == crate::wasm::xx_hash_64(0, code),
        forall|key: u64| before.contains_key(key) ==> #[trigger] after[key] == before[key],
{
}

/// A code can be run if its hash is known to the cache, and else if `wasmi` accepts it and what its
/// functions leave behind can be counted; and in no other case.
pub proof fn law_known_or_valid_code_can_be_run<V>(cache: Map<u64, RunWith<V>>, code: Seq<u8>)
    ensures
        can_run(cache, code) <==> cache.contains_key(crate::wasm::xx_hash_64(0, code)) || (
        crate::wasm_exits::few_locals(code) && crate::wasm::wasm_module(code) is Some),
{
}

/// A new executor enters the version of its delegate under the hash of the code that the delegate is
/// equivalent to.
pub proof fn law_new_executor_registers_its_code<D: NativeExecutionDispatch>(
    before: Map<u64, RunWith<D::Version>>,
    code: Seq<u8>,
    after: Map<u64, RunWith<D::Version>>,
)
    requires
        registered::<D>(before, code, after),
    ensures
        after.contains_key(crate::wasm::xx_hash_64(0, code)),
        after[crate::wasm::xx_hash_64(0, code)] == RunWith::NativeRuntime(D::VERSION),
        forall|key: u64|
            key != crate::wasm::xx_hash_64(0, code) ==> #[trigger] after.contains_key(key)
                == before.contains_key(key),
        forall|key: u64|
            key != crate::wasm::xx_hash_64(0, code) && before.contains_key(key)
                ==> #[trigger] after[key] == before[key],
{
}

/// Of a code with a version a copy of that version is told, whether the code is run natively or not, and
/// of a code without one none.
pub proof fn law_version_is_told_as_it_is<V: Clone>(entry: RunWith<V>, version: Option<V>)
    requires
        tells(entry, version),
    ensures
        version is None <==> entry is InvalidVersion,
        entry matches RunWith::NativeRuntime(v) ==> version matches Some(w) && cloned(v, w),
        entry matches RunWith::WasmRuntime(v, _) ==> version matches Some(w) && cloned(v, w),
{
}

/// Nothing is asked of a host but that it can be called.
pub proof fn law_callable_host_is_enough<E, V, R, W, F, C>(host: WasmHost<W, F, C>) where
    W: Fn(&mut E, &wasmi::Module, &str, &[u8]) -> Result<Vec<u8>, R>,
    F: Fn(&[u8]) -> Option<V>,
    C: Fn(&V, &V) -> bool,

    requires
        forall|e: &mut E, m: &wasmi::Module, method: &str, data: &[u8]| #[trigger]
            call_requires(host.call_in_wasm_module, (e, m, method, data)),
        forall|bytes: &[u8]| #[trigger] call_requires(host.decode_version, (bytes,)),
        forall|a: &V, b: &V| #[trigger] call_requires(host.can_call_with, (a, b)),
    ensures
        host.runs_wasm::<E, R>(),
        host.total::<E, V, R>(),
{
}

} // verus!
