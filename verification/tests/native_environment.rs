use polkadot_node::native_environment::{
    answer, dispatch, safe_call, with_native_environment, ErrorKind,
};

#[test]
fn a_panic_becomes_a_runtime_error() {
    assert!(matches!(safe_call::<u8, &str>(Ok(7)), Ok(7)));
    assert!(matches!(safe_call::<u8, &str>(Err("boom")), Err(ErrorKind::Runtime)));
}

#[test]
fn native_code_works_on_the_externalities() {
    let mut ext = 1u64;
    let result = with_native_environment(&mut ext, |e: &mut u64| {
        *e += 10;
        Ok::<u64, ()>(*e)
    });
    assert!(matches!(result, Ok(11)));
    assert_eq!(ext, 11);
    let result = with_native_environment(&mut ext, |e: &mut u64| {
        *e += 10;
        Err::<u64, ()>(())
    });
    assert!(matches!(result, Err(ErrorKind::Runtime)));
    assert_eq!(ext, 21);
}

#[test]
fn an_unknown_method_is_an_error() {
    assert!(matches!(answer(Ok(Some(3u8)), "go"), Ok(3)));
    match answer::<u8>(Ok(None), "go") {
        Err(ErrorKind::MethodNotFound(name)) => assert_eq!(name, "go"),
        _ => panic!("the method is unknown"),
    }
    assert!(matches!(answer::<u8>(Err(ErrorKind::Runtime), "go"), Err(ErrorKind::Runtime)));
}

#[test]
fn dispatch_answers_with_value_or_error() {
    let mut ext = 0u64;
    let known = dispatch(&mut ext, "go", |e: &mut u64| {
        *e = 1;
        Ok::<Option<u8>, ()>(Some(9))
    });
    assert!(matches!(known, Ok(9)));
    assert_eq!(ext, 1);
    match dispatch(&mut ext, "go", |_: &mut u64| Ok::<Option<u8>, ()>(None)) {
        Err(ErrorKind::MethodNotFound(name)) => assert_eq!(name, "go"),
        _ => panic!("the method is unknown"),
    }
    let panicked = dispatch(&mut ext, "go", |_: &mut u64| Err::<Option<u8>, ()>(()));
    assert!(matches!(panicked, Err(ErrorKind::Runtime)));
}
