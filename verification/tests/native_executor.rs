use polkadot_node::native_executor::{
    ensure_cached, fetch_cached_runtime_version, gen_cache_key, CacheType, InvalidModule,
    NativeExecutionDispatch, NativeExecutor, RunWith, WasmHost,
};
use wasmi::{ImportsBuilder, Module, ModuleInstance, NopExternals, RuntimeValue};

/// The calls that were made, in order.
type Log = Vec<String>;

/// A module that exports the function `version`, which returns the given number.
fn module_telling(version: u8) -> Vec<u8> {
    let mut code = vec![0x00, 0x61, 0x73, 0x6d, 0x01, 0x00, 0x00, 0x00];
    code.extend_from_slice(&[0x01, 0x05, 0x01, 0x60, 0x00, 0x01, 0x7f]);
    code.extend_from_slice(&[0x03, 0x02, 0x01, 0x00]);
    code.extend_from_slice(&[0x07, 0x0b, 0x01, 0x07]);
    code.extend_from_slice(b"version");
    code.extend_from_slice(&[0x00, 0x00]);
    code.extend_from_slice(&[0x0a, 0x06, 0x01, 0x04, 0x00, 0x41, version, 0x0b]);
    code
}

/// A module without any export.
fn empty_module() -> Vec<u8> {
    vec![0x00, 0x61, 0x73, 0x6d, 0x01, 0x00, 0x00, 0x00]
}

/// Run an exported function without arguments: its result is the reply. The method `own_version`
/// stands for the function `version`, so that a module can be told by its calls.
fn run_wasm(log: &mut Log, module: &Module, method: &str, data: &[u8]) -> Result<Vec<u8>, String> {
    log.push(format!("wasm {} {:?}", method, data));
    let instance = ModuleInstance::new(module, &ImportsBuilder::default())
        .map_err(|e| e.to_string())?
        .assert_no_start();
    let name = if method == "own_version" { "version" } else { method };
    match instance.invoke_export(name, &[], &mut NopExternals) {
        Ok(Some(RuntimeValue::I32(v))) => Ok(vec![v as u8]),
        Ok(_) => Err("no result".to_string()),
        Err(e) => Err(e.to_string()),
    }
}

/// A version is one byte that is not zero.
fn decode(bytes: &[u8]) -> Option<u8> {
    if bytes.len() == 1 && bytes[0] != 0 {
        Some(bytes[0])
    } else {
        None
    }
}

/// A runtime can be called in place of the same version and of the next older one.
fn can_call_with(a: &u8, b: &u8) -> bool {
    *a == *b || *a == *b + 1
}

struct Five;

const FIVE_CODE: &[u8] = b"this is what version five is equivalent to";

impl NativeExecutionDispatch for Five {
    type Externalities = Log;
    type Version = u8;
    type Error = String;

    const VERSION: u8 = 5;

    fn native_equivalent() -> &'static [u8] {
        FIVE_CODE
    }

    fn dispatch(log: &mut Log, method: &str, data: &[u8]) -> Result<Vec<u8>, String> {
        log.push(format!("native {} {:?}", method, data));
        if method == "fail" {
            Err("failed natively".to_string())
        } else {
            Ok(vec![55])
        }
    }
}

#[test]
fn cache_key_is_the_seedless_xx_hash() {
    assert_eq!(gen_cache_key(b""), 0xef46db3751d8e999);
    assert_eq!(gen_cache_key(b"a"), 0xd24ec4f1a98c6e5b);
    assert_eq!(gen_cache_key(b"abc"), 0x44bc2cf5ad770999);
}

#[test]
fn run_with_follows_version_and_callability() {
    let module = || Module::from_buffer(empty_module()).unwrap();
    assert!(matches!(RunWith::new(Some(3u8), true, module()), RunWith::NativeRuntime(3)));
    assert!(matches!(RunWith::new(Some(3u8), false, module()), RunWith::WasmRuntime(3, _)));
    assert!(matches!(RunWith::<u8>::new(None, true, module()), RunWith::InvalidVersion(_)));
    assert!(matches!(RunWith::<u8>::new(None, false, module()), RunWith::InvalidVersion(_)));
}

#[test]
fn version_is_known_unless_invalid() {
    let module = || Module::from_buffer(empty_module()).unwrap();
    assert_eq!(RunWith::NativeRuntime(3u8).version(), Some(&3));
    assert_eq!(RunWith::WasmRuntime(4u8, module()).version(), Some(&4));
    assert_eq!(RunWith::<u8>::InvalidVersion(module()).version(), None);
}

#[test]
fn fetch_decides_by_the_version_that_the_code_tells() {
    let host = WasmHost { call_in_wasm_module: run_wasm, decode_version: decode, can_call_with };
    let mut cache: CacheType<u8> = CacheType::new();
    let mut log = Log::new();

    let same = module_telling(5);
    let entry = fetch_cached_runtime_version(&mut cache, &mut log, &same, 5, &host);
    assert!(matches!(entry, RunWith::NativeRuntime(5)));

    // The native version comes first: five can be called in place of four, and not of six.
    let older = module_telling(4);
    let entry = fetch_cached_runtime_version(&mut cache, &mut log, &older, 5, &host);
    assert!(matches!(entry, RunWith::NativeRuntime(4)));
    let newer = module_telling(6);
    let entry = fetch_cached_runtime_version(&mut cache, &mut log, &newer, 5, &host);
    assert!(matches!(entry, RunWith::WasmRuntime(6, _)));

    // The reply does not decode.
    let undecodable = module_telling(0);
    let entry = fetch_cached_runtime_version(&mut cache, &mut log, &undecodable, 5, &host);
    assert!(matches!(entry, RunWith::InvalidVersion(_)));

    // The call fails.
    let silent = empty_module();
    let entry = fetch_cached_runtime_version(&mut cache, &mut log, &silent, 5, &host);
    assert!(matches!(entry, RunWith::InvalidVersion(_)));

    assert_eq!(cache.len(), 5);
    assert_eq!(log, vec!["wasm version []".to_string(); 5]);
}

#[test]
fn fetch_decides_once() {
    let host = WasmHost { call_in_wasm_module: run_wasm, decode_version: decode, can_call_with };
    let mut cache: CacheType<u8> = CacheType::new();
    let mut log = Log::new();
    let code = module_telling(5);

    fetch_cached_runtime_version(&mut cache, &mut log, &code, 5, &host);
    assert_eq!(log.len(), 1);

    // Another reference version would decide otherwise, and is not asked any more.
    let entry = fetch_cached_runtime_version(&mut cache, &mut log, &code, 9, &host);
    assert!(matches!(entry, RunWith::NativeRuntime(5)));
    assert_eq!(log.len(), 1);
    assert_eq!(cache.len(), 1);
}

#[test]
fn codes_are_cached_apart() {
    let host = WasmHost { call_in_wasm_module: run_wasm, decode_version: decode, can_call_with };
    let mut log = Log::new();
    let a = module_telling(5);
    let b = module_telling(9);
    let mut forth: CacheType<u8> = CacheType::new();
    fetch_cached_runtime_version(&mut forth, &mut log, &a, 5, &host);
    fetch_cached_runtime_version(&mut forth, &mut log, &b, 5, &host);
    let mut back: CacheType<u8> = CacheType::new();
    fetch_cached_runtime_version(&mut back, &mut log, &b, 5, &host);
    fetch_cached_runtime_version(&mut back, &mut log, &a, 5, &host);
    for cache in [forth, back] {
        assert_eq!(cache.len(), 2);
        assert!(matches!(cache[&gen_cache_key(&a)], RunWith::NativeRuntime(5)));
        assert!(matches!(cache[&gen_cache_key(&b)], RunWith::WasmRuntime(9, _)));
    }
}

#[test]
fn new_registers_the_native_equivalent() {
    let mut cache: CacheType<u8> = CacheType::new();
    cache.insert(gen_cache_key(FIVE_CODE), RunWith::NativeRuntime(1));
    cache.insert(77, RunWith::NativeRuntime(2));
    let executor = NativeExecutor::<Five>::new(&mut cache);
    assert_eq!(cache.len(), 2);
    assert!(matches!(cache[&gen_cache_key(FIVE_CODE)], RunWith::NativeRuntime(5)));
    assert!(matches!(cache[&77], RunWith::NativeRuntime(2)));

    // The code need not even be a module.
    let host = WasmHost { call_in_wasm_module: run_wasm, decode_version: decode, can_call_with };
    let mut log = Log::new();
    assert!(ensure_cached(&mut cache, &mut log, FIVE_CODE, 5, &host));
    let copy = executor.clone();
    assert_eq!(copy.runtime_version(&mut cache, &mut log, FIVE_CODE, &host), Some(5));
    assert_eq!(copy.call(&mut cache, &mut log, FIVE_CODE, "run", &[1, 2], &host), Ok(vec![55]));
    assert_eq!(log, vec!["native run [1, 2]".to_string()]);
    assert_eq!(NativeExecutor::<Five>::native_version(), Some(5));
}

#[test]
fn runtime_version_is_that_of_the_code() {
    let host = WasmHost { call_in_wasm_module: run_wasm, decode_version: decode, can_call_with };
    let mut cache: CacheType<u8> = CacheType::new();
    let executor = NativeExecutor::<Five>::new(&mut cache);
    let mut log = Log::new();
    let mut version_of =
        |code: &[u8]| executor.runtime_version(&mut cache, &mut log, code, &host);
    assert_eq!(version_of(&module_telling(4)), Some(4));
    assert_eq!(version_of(&module_telling(9)), Some(9));
    assert_eq!(version_of(&module_telling(0)), None);
    assert_eq!(version_of(&empty_module()), None);
    assert_eq!(version_of(&empty_module()), None);
}

#[test]
fn call_goes_where_the_version_says() {
    let host = WasmHost { call_in_wasm_module: run_wasm, decode_version: decode, can_call_with };
    let mut cache: CacheType<u8> = CacheType::new();
    let executor = NativeExecutor::<Five>::new(&mut cache);

    // Natively, after the code was asked for its version.
    let mut log = Log::new();
    let code = module_telling(4);
    assert_eq!(
        executor.call(&mut cache, &mut log, &code, "own_version", &[7], &host),
        Ok(vec![55])
    );
    assert_eq!(log, vec!["wasm version []".to_string(), "native own_version [7]".to_string()]);
    let mut log = Log::new();
    assert_eq!(
        executor.call(&mut cache, &mut log, &code, "fail", &[], &host),
        Err("failed natively".to_string())
    );
    assert_eq!(log, vec!["native fail []".to_string()]);

    // In the module of the code.
    let mut log = Log::new();
    let code = module_telling(9);
    assert_eq!(
        executor.call(&mut cache, &mut log, &code, "own_version", &[7], &host),
        Ok(vec![9])
    );
    assert_eq!(log, vec!["wasm version []".to_string(), "wasm own_version [7]".to_string()]);

    // In the module of the code, though it tells no version.
    let mut log = Log::new();
    let code = module_telling(0);
    assert_eq!(
        executor.call(&mut cache, &mut log, &code, "own_version", &[7], &host),
        Ok(vec![0])
    );
    assert!(executor.call(&mut cache, &mut log, &code, "unknown", &[], &host).is_err());
    assert_eq!(log[2], "wasm unknown []");
}

#[test]
fn invalid_code_is_refused_and_leaves_no_trace() {
    let host = WasmHost { call_in_wasm_module: run_wasm, decode_version: decode, can_call_with };
    let mut cache: CacheType<u8> = CacheType::new();
    let executor = NativeExecutor::<Five>::new(&mut cache);
    let mut log = Log::new();
    let code = b"no module".to_vec();
    assert!(!ensure_cached(&mut cache, &mut log, &code, 5, &host));
    assert_eq!(
        executor.checked_runtime_version(&mut cache, &mut log, &code, &host),
        Err(InvalidModule)
    );
    assert_eq!(
        executor.checked_call(&mut cache, &mut log, &code, "run", &[], &host),
        Err(InvalidModule)
    );
    assert_eq!(cache.len(), 1);
    assert!(log.is_empty());

    let code = module_telling(9);
    assert_eq!(
        executor.checked_runtime_version(&mut cache, &mut log, &code, &host),
        Ok(Some(9))
    );
    assert_eq!(
        executor.checked_call(&mut cache, &mut log, &code, "own_version", &[], &host),
        Ok(Ok(vec![9]))
    );
}

/// A module with one function, which declares this many locals of one type and returns early.
fn module_with_locals(count: [u8; 5]) -> Vec<u8> {
    let mut code = vec![0x00, 0x61, 0x73, 0x6d, 0x01, 0x00, 0x00, 0x00];
    code.extend_from_slice(&[0x01, 0x04, 0x01, 0x60, 0x00, 0x00]);
    code.extend_from_slice(&[0x03, 0x02, 0x01, 0x00]);
    code.extend_from_slice(&[0x0a, 0x0d, 0x01, 0x0b, 0x01]);
    code.extend_from_slice(&count);
    code.extend_from_slice(&[0x7f, 0x41, 0x00, 0x0f, 0x0b]);
    code
}

#[test]
fn code_with_too_many_locals_is_refused_and_leaves_no_trace() {
    let host = WasmHost { call_in_wasm_module: run_wasm, decode_version: decode, can_call_with };
    let mut cache: CacheType<u8> = CacheType::new();
    let executor = NativeExecutor::<Five>::new(&mut cache);
    let mut log = Log::new();

    // As many locals as can be counted at all, where a value is left behind with them.
    let code = module_with_locals([0xff, 0xff, 0xff, 0xff, 0x0f]);
    assert_eq!(
        executor.checked_runtime_version(&mut cache, &mut log, &code, &host),
        Err(InvalidModule)
    );
    assert_eq!(
        executor.checked_call(&mut cache, &mut log, &code, "run", &[], &host),
        Err(InvalidModule)
    );
    assert_eq!(cache.len(), 1);
    assert!(log.is_empty());

    // One less, and so many that not every stack could be counted with them.
    for count in [[0xfe, 0xff, 0xff, 0xff, 0x0f], [0x80, 0x80, 0xff, 0xff, 0x0f]] {
        let code = module_with_locals(count);
        assert_eq!(executor.checked_runtime_version(&mut cache, &mut log, &code, &host), Ok(None));
    }
    assert_eq!(cache.len(), 3);

    // As many as can be counted, where no value is left behind.
    let mut code = module_with_locals([0xff, 0xff, 0xff, 0xff, 0x0f]);
    code.truncate(28);
    code.push(0x7f);
    code.push(0x0b);
    code[19] = 0x0a;
    code[21] = 0x08;
    assert_eq!(executor.checked_runtime_version(&mut cache, &mut log, &code, &host), Ok(None));
    assert_eq!(cache.len(), 4);
}

#[test]
fn checked_call_asks_a_new_code_once() {
    let host = WasmHost { call_in_wasm_module: run_wasm, decode_version: decode, can_call_with };
    let mut cache: CacheType<u8> = CacheType::new();
    let executor = NativeExecutor::<Five>::new(&mut cache);
    let mut log = Log::new();
    let code = module_telling(9);
    assert_eq!(
        executor.checked_call(&mut cache, &mut log, &code, "own_version", &[3], &host),
        Ok(Ok(vec![9]))
    );
    assert_eq!(log, vec!["wasm version []".to_string(), "wasm own_version [3]".to_string()]);
    assert_eq!(
        executor.checked_runtime_version(&mut cache, &mut log, &code, &host),
        Ok(Some(9))
    );
    assert_eq!(log.len(), 2);
}

#[test]
fn calls_are_native_if_and_only_if_the_version_is_callable() {
    let host = WasmHost { call_in_wasm_module: run_wasm, decode_version: decode, can_call_with };
    let codes = [
        FIVE_CODE.to_vec(),
        module_telling(0),
        module_telling(3),
        module_telling(4),
        module_telling(5),
        module_telling(6),
        empty_module(),
    ];
    let expected = [true, false, false, true, true, false, false];

    // The version is told before the calls in one cache, and after them in the other.
    for version_first in [true, false] {
        let mut cache: CacheType<u8> = CacheType::new();
        let executor = NativeExecutor::<Five>::new(&mut cache);
        for (code, native) in codes.iter().zip(expected) {
            let mut version = None;
            if version_first {
                version = executor.runtime_version(&mut cache, &mut Log::new(), code, &host);
            }
            for (method, data) in [("own_version", &[1u8][..]), ("fail", &[][..])] {
                let mut log = Log::new();
                let _ = executor.call(&mut cache, &mut log, code, method, data, &host);
                let route = if native { "native" } else { "wasm" };
                assert_eq!(log[log.len() - 1], format!("{} {} {:?}", route, method, data));
                // Another executor of the same delegate changes nothing.
                NativeExecutor::<Five>::new(&mut cache);
            }
            if !version_first {
                version = executor.runtime_version(&mut cache, &mut Log::new(), code, &host);
            }
            let callable = match version {
                Some(v) => can_call_with(&5, &v),
                None => false,
            };
            assert_eq!(native, code.as_slice() == FIVE_CODE || callable);
        }
    }
}
