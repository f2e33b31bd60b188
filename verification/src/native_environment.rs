//! What comes of running native code: a panic in it is caught and becomes an error, and so does a
//! method that it does not know.

use vstd::prelude::*;

verus! {

/// Why a native call failed.
#[derive(Debug)]
pub enum ErrorKind {
    /// The native code panicked.
    Runtime,
    /// The native code has no method of this name.
    MethodNotFound(String),
}

/// The result of native code whose run ended with `outcome`: `Err` where it panicked.
pub open spec fn safe_result<U, P>(outcome: Result<U, P>) -> Result<U, ErrorKind> {
    match outcome {
        Ok(value) => Ok(value),
        Err(_) => Err(ErrorKind::Runtime),
    }
}

/// `reply` is the answer to a call of `method` that gave `found`: nothing where the method is
/// unknown.
pub open spec fn answers<U>(
    found: Result<Option<U>, ErrorKind>,
    method: Seq<char>,
    reply: Result<U, ErrorKind>,
) -> bool {
    match found {
        Ok(Some(value)) => reply == Ok::<U, ErrorKind>(value),
        Ok(None) => reply matches Err(ErrorKind::MethodNotFound(name)) && name@ == method,
        Err(kind) => reply == Err::<U, ErrorKind>(kind),
    }
}

/// Turn what became of a run of native code into a result. If the code panicked, what it panicked
/// with is dropped.
pub fn safe_call<U, P>(outcome: Result<U, P>) -> (result: Result<U, ErrorKind>)
    ensures
        result == safe_result(outcome),
        outcome matches Ok(value) ==> result == Ok::<U, ErrorKind>(value),
        outcome is Err ==> result == Err::<U, ErrorKind>(ErrorKind::Runtime),
{
    match outcome {
        Ok(value) => Ok(value),
        Err(_) => Err(ErrorKind::Runtime),
    }
}

/// Run native code in the externalities. `run` sets them up, runs the code and catches its panic: it
/// returns `Err` if the code panicked, and this an error then.
pub fn with_native_environment<E, U, P, S: FnOnce(&mut E) -> Result<U, P>>(
    ext: &mut E,
    run: S,
) -> (result: Result<U, ErrorKind>)
    requires
        forall|e: &mut E| *e == *old(ext) ==> #[trigger] call_requires(run, (e,)),
    ensures
        exists|e: &mut E, outcome: Result<U, P>|
            {
                &&& *e == *old(ext)
                &&& *final(e) == *final(ext)
                &&& #[trigger] call_ensures(run, (e,), outcome)
                &&& result == safe_result(outcome)
                &&& outcome matches Ok(value) ==> result == Ok::<U, ErrorKind>(value)
                &&& outcome is Err ==> result == Err::<U, ErrorKind>(ErrorKind::Runtime)
            },
{
    let outcome = run(ext);
    safe_call(outcome)
}

/// The answer to a call of `method`, from what native code found: nothing where it does not know the
/// method.
pub fn answer<U>(found: Result<Option<U>, ErrorKind>, method: &str) -> (reply: Result<U, ErrorKind>)
    ensures
        answers(found, method@, reply),
        found matches Ok(Some(value)) ==> reply == Ok::<U, ErrorKind>(value),
        found matches Ok(None) ==> (reply matches Err(ErrorKind::MethodNotFound(name)) && name@
            == method@),
        found matches Err(kind) ==> reply == Err::<U, ErrorKind>(kind),
{
    match found {
        Ok(Some(value)) => Ok(value),
        Ok(None) => Err(ErrorKind::MethodNotFound(method.to_owned())),
        Err(kind) => Err(kind),
    }
}

/// Dispatch a method to native code, which `run` runs in the externalities. `run` returns `Err` if
/// the code panicked, and `Ok(None)` if it does not know the method.
pub fn dispatch<E, U, P, S: FnOnce(&mut E) -> Result<Option<U>, P>>(
    ext: &mut E,
    method: &str,
    run: S,
) -> (reply: Result<U, ErrorKind>)
    requires
        forall|e: &mut E| *e == *old(ext) ==> #[trigger] call_requires(run, (e,)),
    ensures
        exists|e: &mut E, outcome: Result<Option<U>, P>|
            {
                &&& *e == *old(ext)
                &&& *final(e) == *final(ext)
                &&& #[trigger] call_ensures(run, (e,), outcome)
                &&& answers(safe_result(outcome), method@, reply)
                &&& outcome matches Ok(Some(value)) ==> reply == Ok::<U, ErrorKind>(value)
                &&& outcome matches Ok(None) ==> (reply matches Err(
                    ErrorKind::MethodNotFound(name),
                ) && name@ == method@)
                &&& outcome is Err ==> reply == Err::<U, ErrorKind>(ErrorKind::Runtime)
            },
{
    let found = with_native_environment(ext, run);
    answer(found, method)
}

/// A call of a known method that does not panic is answered with what the native code gave; any other
/// call is answered with an error, which tells the two reasons apart and names the unknown method.
pub proof fn law_only_what_was_found_is_answered<U, P>(
    outcome: Result<Option<U>, P>,
    method: Seq<char>,
    reply: Result<U, ErrorKind>,
)
    requires
        answers(safe_result(outcome), method, reply),
    ensures
        reply is Ok <==> outcome matches Ok(Some(_)),
        outcome matches Ok(Some(value)) ==> reply->Ok_0 == value,
        outcome is Err <==> reply matches Err(ErrorKind::Runtime),
        outcome matches Ok(None) <==> reply matches Err(ErrorKind::MethodNotFound(_)),
        reply matches Err(ErrorKind::MethodNotFound(name)) ==> name@ == method,
{
}

} // verus!
