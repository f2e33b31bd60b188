//! The parts of the binary format of WebAssembly that tell the types, the functions and the bodies of a
//! module.
//!
//! A module is a header of eight bytes, and sections up to its end. A section is a byte that tells
//! its kind, the size of its payload, and the payload. The payloads that matter here are lists, each
//! with its length before it: the types (each with its parameters and results), the imports, for each
//! function of the module's own the index of its type, and for each of these functions its body.
//! Numbers are encoded in LEB128.

use vstd::prelude::*;
use vstd::slice::slice_subrange;

verus! {

/// Where the sections begin.
pub const HEADER_LEN: usize = 8;

/// The kind of the section with the types.
pub const TYPE_SECTION: u8 = 1;

/// The kind of the section with the imports.
pub const IMPORT_SECTION: u8 = 2;

/// The kind of the section with the types' indices of the module's own functions.
pub const FUNCTION_SECTION: u8 = 3;

/// The kind of the section with the bodies of the functions.
pub const CODE_SECTION: u8 = 10;

/// The number of at most `n` bytes that is encoded at `at`, and where its encoding ends: seven bits in
/// each byte, the lowest first, and the top bit set in all but the last byte.
pub open spec fn leb(bytes: Seq<u8>, at: int, n: nat) -> Option<(nat, int)>
    decreases n,
{
    if n == 0 || !(0 <= at < bytes.len()) {
        None
    } else if bytes[at] < 128 {
        Some((bytes[at] as nat, at + 1))
    } else {
        match leb(bytes, at + 1, (n - 1) as nat) {
            Some((high, end)) => Some(((bytes[at] - 128) as nat + 128 * high, end)),
            None => None,
        }
    }
}

/// The 32-bit number that is encoded at `at`, and where its encoding ends.
pub open spec fn number(bytes: Seq<u8>, at: int) -> Option<(nat, int)> {
    match leb(bytes, at, 5) {
        Some((value, end)) => if value <= u32::MAX {
            Some((value, end))
        } else {
            None
        },
        None => None,
    }
}

/// The payload of the first section of this kind, from `at` on. A section that is not there is as good
/// as one with an empty list.
pub open spec fn section(code: Seq<u8>, at: int, kind: u8) -> Option<Seq<u8>>
    decreases code.len() - at,
{
    if at == code.len() {
        Some(seq![0u8])
    } else {
        match number(code, at + 1) {
            Some((size, start)) => if at < start && start + size <= code.len() {
                if code[at] == kind {
                    Some(code.subrange(start, start + size))
                } else {
                    section(code, start + size, kind)
                }
            } else {
                None
            },
            None => None,
        }
    }
}

/// What a call of a function takes and gives: so many parameters, and a value or none.
pub struct Signature {
    pub params: u64,
    pub value: bool,
}

/// The type at `at`, and where it ends: its form, its parameters and its results, each parameter and
/// each result being one byte.
pub open spec fn function_type(bytes: Seq<u8>, at: int) -> Option<(Signature, int)> {
    match number(bytes, at + 1) {
        Some((params, start)) => match number(bytes, start + params) {
            Some((results, end)) => if end + results <= bytes.len() {
                Some((Signature { params: params as u64, value: results > 0 }, end + results))
            } else {
                None
            },
            None => None,
        },
        None => None,
    }
}

/// The `n` types from `at` on.
pub open spec fn function_types(bytes: Seq<u8>, at: int, n: nat) -> Option<Seq<Signature>>
    decreases n,
{
    if n == 0 {
        Some(Seq::empty())
    } else {
        match function_type(bytes, at) {
            Some((signature, end)) => match function_types(bytes, end, (n - 1) as nat) {
                Some(rest) => Some(seq![signature] + rest),
                None => None,
            },
            None => None,
        }
    }
}

/// The `n` numbers from `at` on.
pub open spec fn numbers(bytes: Seq<u8>, at: int, n: nat) -> Option<Seq<nat>>
    decreases n,
{
    if n == 0 {
        Some(Seq::empty())
    } else {
        match number(bytes, at) {
            Some((value, end)) => match numbers(bytes, end, (n - 1) as nat) {
                Some(rest) => Some(seq![value] + rest),
                None => None,
            },
            None => None,
        }
    }
}

/// Where the limits of a table or a memory end: a byte that tells whether there is an upper limit, and
/// the limits.
pub open spec fn limits_end(bytes: Seq<u8>, at: int) -> Option<int> {
    match number(bytes, at + 1) {
        Some((_, end)) => if bytes[at] == 0 {
            Some(end)
        } else if bytes[at] == 1 {
            match number(bytes, end) {
                Some((_, end)) => Some(end),
                None => None,
            }
        } else {
            None
        },
        None => None,
    }
}

/// Where the name at `at` ends: its length comes before it.
pub open spec fn name_end(bytes: Seq<u8>, at: int) -> Option<int> {
    match number(bytes, at) {
        Some((size, start)) => if start + size <= bytes.len() {
            Some(start + size)
        } else {
            None
        },
        None => None,
    }
}

/// What is imported at `at`, and where that ends: the index of its type, if it is a function. The
/// other things to import are a table, a memory or a global variable.
pub open spec fn external(bytes: Seq<u8>, at: int) -> Option<(Option<nat>, int)> {
    if !(0 <= at < bytes.len()) {
        None
    } else if bytes[at] == 0 {
        match number(bytes, at + 1) {
            Some((index, end)) => Some((Some(index), end)),
            None => None,
        }
    } else if bytes[at] == 1 {
        match limits_end(bytes, at + 2) {
            Some(end) => Some((None, end)),
            None => None,
        }
    } else if bytes[at] == 2 {
        match limits_end(bytes, at + 1) {
            Some(end) => Some((None, end)),
            None => None,
        }
    } else if bytes[at] == 3 && at + 3 <= bytes.len() {
        Some((None, at + 3))
    } else {
        None
    }
}

/// The import at `at`, and where it ends: the names of a module and of one of its exports, and what is
/// imported.
pub open spec fn import(bytes: Seq<u8>, at: int) -> Option<(Option<nat>, int)> {
    match name_end(bytes, at) {
        Some(end) => match name_end(bytes, end) {
            Some(end) => external(bytes, end),
            None => None,
        },
        None => None,
    }
}

/// The indices of the types of the functions among the `n` imports from `at` on.
pub open spec fn imported_functions(bytes: Seq<u8>, at: int, n: nat) -> Option<Seq<nat>>
    decreases n,
{
    if n == 0 {
        Some(Seq::empty())
    } else {
        match import(bytes, at) {
            Some((function, end)) => match (function, imported_functions(bytes, end, (n - 1) as nat)) {
                (Some(index), Some(rest)) => Some(seq![index] + rest),
                (None, rest) => rest,
                _ => None,
            },
            None => None,
        }
    }
}

/// The `n` bodies from `at` on. The size of a body comes before it.
pub open spec fn bodies(bytes: Seq<u8>, at: int, n: nat) -> Option<Seq<Seq<u8>>>
    decreases n,
{
    if n == 0 {
        Some(Seq::empty())
    } else {
        match number(bytes, at) {
            Some((size, start)) => if start + size <= bytes.len() {
                match bodies(bytes, start + size, (n - 1) as nat) {
                    Some(rest) => Some(seq![bytes.subrange(start, start + size)] + rest),
                    None => None,
                }
            } else {
                None
            },
            None => None,
        }
    }
}

/// The sum of the `n` groups of locals from `at` on, and where they end: each is a number of locals,
/// and one byte for their type.
pub open spec fn group_sum(body: Seq<u8>, at: int, n: nat) -> Option<(nat, int)>
    decreases n,
{
    if n == 0 {
        Some((0, at))
    } else {
        match number(body, at) {
            Some((count, end)) => if end < body.len() {
                match group_sum(body, end + 1, (n - 1) as nat) {
                    Some((rest, end)) => Some((count + rest, end)),
                    None => None,
                }
            } else {
                None
            },
            None => None,
        }
    }
}

/// The number of locals that a body declares, and where its instructions begin. A body begins with the
/// list of its groups of locals.
pub open spec fn declared_locals(body: Seq<u8>) -> Option<(nat, int)> {
    match number(body, 0) {
        Some((groups, at)) => group_sum(body, at, groups),
        None => None,
    }
}

/// The types of a module.
pub open spec fn module_types(code: Seq<u8>) -> Option<Seq<Signature>> {
    match section(code, HEADER_LEN as int, TYPE_SECTION) {
        Some(payload) => match number(payload, 0) {
            Some((n, at)) => function_types(payload, at, n),
            None => None,
        },
        None => None,
    }
}

/// The indices of the types of the functions that a module imports.
pub open spec fn module_imports(code: Seq<u8>) -> Option<Seq<nat>> {
    match section(code, HEADER_LEN as int, IMPORT_SECTION) {
        Some(payload) => match number(payload, 0) {
            Some((n, at)) => imported_functions(payload, at, n),
            None => None,
        },
        None => None,
    }
}

/// The indices of the types of a module's own functions.
pub open spec fn module_functions(code: Seq<u8>) -> Option<Seq<nat>> {
    match section(code, HEADER_LEN as int, FUNCTION_SECTION) {
        Some(payload) => match number(payload, 0) {
            Some((n, at)) => numbers(payload, at, n),
            None => None,
        },
        None => None,
    }
}

/// The bodies of a module's own functions.
pub open spec fn module_bodies(code: Seq<u8>) -> Option<Seq<Seq<u8>>> {
    match section(code, HEADER_LEN as int, CODE_SECTION) {
        Some(payload) => match number(payload, 0) {
            Some((n, at)) => bodies(payload, at, n),
            None => None,
        },
        None => None,
    }
}

/// A bound on the numbers of at most `n` bytes.
spec fn leb_bound(n: nat) -> nat
    decreases n,
{
    if n == 0 {
        1
    } else {
        128 * leb_bound((n - 1) as nat)
    }
}

proof fn lemma_leb(bytes: Seq<u8>, at: int, n: nat)
    ensures
        leb_bound(n) >= 1,
        leb(bytes, at, n) matches Some((value, end)) ==> {
            &&& value < leb_bound(n)
            &&& 0 <= at < end <= bytes.len()
        },
    decreases n,
{
    if n > 0 {
        lemma_leb(bytes, at + 1, (n - 1) as nat);
    }
}

/// The mathematical values of machine numbers.
pub open spec fn nats(values: Seq<u64>) -> Seq<nat> {
    Seq::new(values.len(), |i: int| values[i] as nat)
}

/// The bytes of slices.
pub open spec fn views(slices: Seq<&[u8]>) -> Seq<Seq<u8>> {
    Seq::new(slices.len(), |i: int| slices[i]@)
}

/// Read a number of at most `n` bytes.
fn read_leb(bytes: &[u8], at: usize, n: u64) -> (read: Option<(u64, usize)>)
    requires
        n <= 5,
        at <= bytes@.len(),
    ensures
        match read {
            Some((value, end)) => leb(bytes@, at as int, n as nat) == Some(
                (value as nat, end as int),
            ),
            None => leb(bytes@, at as int, n as nat) is None,
        },
    decreases n,
{
    proof {
        lemma_leb(bytes@, at as int, n as nat);
        lemma_leb(bytes@, at + 1, (n - 1) as nat);
        reveal_with_fuel(leb_bound, 6);
    }
    if n == 0 || at >= bytes.len() {
        return None;
    }
    let byte: u8 = bytes[at];
    if byte < 128 {
        return Some((byte as u64, at + 1));
    }
    match read_leb(bytes, at + 1, n - 1) {
        Some((high, end)) => Some(((byte - 128) as u64 + 128 * high, end)),
        None => None,
    }
}

/// Read a 32-bit number.
pub(crate) fn read_number(bytes: &[u8], at: usize) -> (read: Option<(u64, usize)>)
    requires
        at <= bytes@.len(),
    ensures
        match read {
            Some((value, end)) => {
                &&& number(bytes@, at as int) == Some((value as nat, end as int))
                &&& value <= u32::MAX
                &&& at < end <= bytes@.len()
            },
            None => number(bytes@, at as int) is None,
        },
{
    proof {
        lemma_leb(bytes@, at as int, 5);
    }
    match read_leb(bytes, at, 5) {
        Some((value, end)) => if value <= u32::MAX as u64 {
            Some((value, end))
        } else {
            None
        },
        None => None,
    }
}

/// Find the payload of the first section of a kind.
fn read_section<'a>(code: &'a [u8], kind: u8) -> (payload: Option<&'a [u8]>)
    ensures
        match payload {
            Some(bytes) => section(code@, HEADER_LEN as int, kind) == Some(bytes@),
            None => section(code@, HEADER_LEN as int, kind) is None,
        },
{
    if code.len() < HEADER_LEN {
        return None;
    }
    let mut at: usize = HEADER_LEN;
    while at < code.len()
        invariant
            at <= code@.len(),
            section(code@, HEADER_LEN as int, kind) == section(code@, at as int, kind),
        decreases code@.len() - at,
    {
        match read_number(code, at + 1) {
            Some((size, start)) => {
                if size > (code.len() - start) as u64 {
                    return None;
                }
                let end: usize = start + size as usize;
                if code[at] == kind {
                    return Some(slice_subrange(code, start, end));
                }
                at = end;
            },
            None => {
                return None;
            },
        }
    }
    let nothing: &'static [u8] = &[0u8];
    assert(nothing@ =~= seq![0u8]);
    Some(nothing)
}

/// Read a type.
fn read_function_type(bytes: &[u8], at: usize) -> (read: Option<(Signature, usize)>)
    requires
        at <= bytes@.len(),
    ensures
        match read {
            Some((signature, end)) => {
                &&& function_type(bytes@, at as int) == Some((signature, end as int))
                &&& signature.params <= u32::MAX
                &&& end <= bytes@.len()
            },
            None => function_type(bytes@, at as int) is None,
        },
{
    if at >= bytes.len() {
        return None;
    }
    match read_number(bytes, at + 1) {
        Some((params, start)) => {
            if params > (bytes.len() - start) as u64 {
                return None;
            }
            match read_number(bytes, start + params as usize) {
                Some((results, end)) => {
                    if results > (bytes.len() - end) as u64 {
                        return None;
                    }
                    Some((Signature { params, value: results > 0 }, end + results as usize))
                },
                None => None,
            }
        },
        None => None,
    }
}

/// Read `n` types.
fn read_function_types(bytes: &[u8], from: usize, n: u64) -> (read: Option<Vec<Signature>>)
    requires
        from <= bytes@.len(),
    ensures
        match read {
            Some(types) => {
                &&& function_types(bytes@, from as int, n as nat) == Some(types@)
                &&& forall|i: int| 0 <= i < types@.len() ==> types@[i].params <= u32::MAX
            },
            None => function_types(bytes@, from as int, n as nat) is None,
        },
{
    let mut types: Vec<Signature> = Vec::new();
    let mut at: usize = from;
    let mut left: u64 = n;
    assert(forall|rest: Seq<Signature>| types@ + rest =~= rest);
    while left > 0
        invariant
            at <= bytes@.len(),
            forall|i: int| 0 <= i < types@.len() ==> types@[i].params <= u32::MAX,
            match function_types(bytes@, at as int, left as nat) {
                Some(rest) => function_types(bytes@, from as int, n as nat) == Some(types@ + rest),
                None => function_types(bytes@, from as int, n as nat) is None,
            },
        decreases left,
    {
        match read_function_type(bytes, at) {
            Some((signature, end)) => {
                let ghost before = types@;
                let ghost added = signature;
                types.push(signature);
                at = end;
                left = left - 1;
                assert forall|rest: Seq<Signature>| before + (seq![added] + rest) =~= types@
                    + rest by {}
            },
            None => {
                return None;
            },
        }
    }
    assert(types@ + Seq::empty() =~= types@);
    Some(types)
}

/// Read `n` numbers.
fn read_numbers(bytes: &[u8], from: usize, n: u64) -> (read: Option<Vec<u64>>)
    requires
        from <= bytes@.len(),
    ensures
        match read {
            Some(values) => numbers(bytes@, from as int, n as nat) == Some(nats(values@)),
            None => numbers(bytes@, from as int, n as nat) is None,
        },
{
    let mut values: Vec<u64> = Vec::new();
    let mut at: usize = from;
    let mut left: u64 = n;
    assert(forall|rest: Seq<nat>| nats(values@) + rest =~= rest);
    while left > 0
        invariant
            at <= bytes@.len(),
            match numbers(bytes@, at as int, left as nat) {
                Some(rest) => numbers(bytes@, from as int, n as nat) == Some(nats(values@) + rest),
                None => numbers(bytes@, from as int, n as nat) is None,
            },
        decreases left,
    {
        match read_number(bytes, at) {
            Some((value, end)) => {
                let ghost before = values@;
                values.push(value);
                at = end;
                left = left - 1;
                assert forall|rest: Seq<nat>| nats(before) + (seq![value as nat] + rest)
                    =~= nats(values@) + rest by {}
            },
            None => {
                return None;
            },
        }
    }
    assert(nats(values@) + Seq::empty() =~= nats(values@));
    Some(values)
}

/// Read past the limits of a table or a memory.
fn read_limits_end(bytes: &[u8], at: usize) -> (read: Option<usize>)
    requires
        at <= bytes@.len(),
    ensures
        match read {
            Some(end) => limits_end(bytes@, at as int) == Some(end as int) && end <= bytes@.len(),
            None => limits_end(bytes@, at as int) is None,
        },
{
    if at >= bytes.len() {
        return None;
    }
    match read_number(bytes, at + 1) {
        Some((_, end)) => if bytes[at] == 0 {
            Some(end)
        } else if bytes[at] == 1 {
            match read_number(bytes, end) {
                Some((_, end)) => Some(end),
                None => None,
            }
        } else {
            None
        },
        None => None,
    }
}

/// Read past a name.
fn read_name_end(bytes: &[u8], at: usize) -> (read: Option<usize>)
    requires
        at <= bytes@.len(),
    ensures
        match read {
            Some(end) => name_end(bytes@, at as int) == Some(end as int) && end <= bytes@.len(),
            None => name_end(bytes@, at as int) is None,
        },
{
    match read_number(bytes, at) {
        Some((size, start)) => if size <= (bytes.len() - start) as u64 {
            Some(start + size as usize)
        } else {
            None
        },
        None => None,
    }
}

/// Read what is imported.
fn read_external(bytes: &[u8], at: usize) -> (read: Option<(Option<u64>, usize)>)
    requires
        at <= bytes@.len(),
    ensures
        match read {
            Some((Some(index), end)) => {
                &&& external(bytes@, at as int) == Some((Some(index as nat), end as int))
                &&& end <= bytes@.len()
            },
            Some((None, end)) => {
                &&& external(bytes@, at as int) == Some((None::<nat>, end as int))
                &&& end <= bytes@.len()
            },
            None => external(bytes@, at as int) is None,
        },
{
    if at >= bytes.len() {
        None
    } else if bytes[at] == 0 {
        match read_number(bytes, at + 1) {
            Some((index, end)) => Some((Some(index), end)),
            None => None,
        }
    } else if bytes[at] == 1 {
        if bytes.len() - at < 2 {
            return None;
        }
        match read_limits_end(bytes, at + 2) {
            Some(end) => Some((None, end)),
            None => None,
        }
    } else if bytes[at] == 2 {
        match read_limits_end(bytes, at + 1) {
            Some(end) => Some((None, end)),
            None => None,
        }
    } else if bytes[at] == 3 && bytes.len() - at >= 3 {
        Some((None, at + 3))
    } else {
        None
    }
}

/// Read `n` imports.
fn read_imported_functions(bytes: &[u8], from: usize, n: u64) -> (read: Option<Vec<u64>>)
    requires
        from <= bytes@.len(),
    ensures
        match read {
            Some(indices) => imported_functions(bytes@, from as int, n as nat) == Some(
                nats(indices@),
            ),
            None => imported_functions(bytes@, from as int, n as nat) is None,
        },
{
    let mut indices: Vec<u64> = Vec::new();
    let mut at: usize = from;
    let mut left: u64 = n;
    assert(forall|rest: Seq<nat>| nats(indices@) + rest =~= rest);
    while left > 0
        invariant
            at <= bytes@.len(),
            match imported_functions(bytes@, at as int, left as nat) {
                Some(rest) => imported_functions(bytes@, from as int, n as nat) == Some(
                    nats(indices@) + rest,
                ),
                None => imported_functions(bytes@, from as int, n as nat) is None,
            },
        decreases left,
    {
        let end: usize = match read_name_end(bytes, at) {
            Some(end) => match read_name_end(bytes, end) {
                Some(end) => end,
                None => {
                    return None;
                },
            },
            None => {
                return None;
            },
        };
        match read_external(bytes, end) {
            Some((Some(index), end)) => {
                let ghost before = indices@;
                indices.push(index);
                at = end;
                left = left - 1;
                assert forall|rest: Seq<nat>| nats(before) + (seq![index as nat] + rest)
                    =~= nats(indices@) + rest by {}
            },
            Some((None, end)) => {
                at = end;
                left = left - 1;
            },
            None => {
                return None;
            },
        }
    }
    assert(nats(indices@) + Seq::empty() =~= nats(indices@));
    Some(indices)
}

/// Read `n` bodies.
fn read_bodies<'a>(bytes: &'a [u8], from: usize, n: u64) -> (read: Option<Vec<&'a [u8]>>)
    requires
        from <= bytes@.len(),
    ensures
        match read {
            Some(found) => bodies(bytes@, from as int, n as nat) == Some(views(found@)),
            None => bodies(bytes@, from as int, n as nat) is None,
        },
{
    let mut found: Vec<&'a [u8]> = Vec::new();
    let mut at: usize = from;
    let mut left: u64 = n;
    assert(forall|rest: Seq<Seq<u8>>| views(found@) + rest =~= rest);
    while left > 0
        invariant
            at <= bytes@.len(),
            match bodies(bytes@, at as int, left as nat) {
                Some(rest) => bodies(bytes@, from as int, n as nat) == Some(views(found@) + rest),
                None => bodies(bytes@, from as int, n as nat) is None,
            },
        decreases left,
    {
        let (size, start) = match read_number(bytes, at) {
            Some((size, start)) => (size, start),
            None => {
                return None;
            },
        };
        if size > (bytes.len() - start) as u64 {
            return None;
        }
        let end: usize = start + size as usize;
        let body = slice_subrange(bytes, start, end);
        let ghost before = found@;
        found.push(body);
        at = end;
        left = left - 1;
        assert forall|rest: Seq<Seq<u8>>| views(before) + (seq![body@] + rest) =~= views(found@)
            + rest by {}
    }
    assert(views(found@) + Seq::empty() =~= views(found@));
    Some(found)
}

/// Read the number of locals that a body declares, and where its instructions begin.
pub(crate) fn read_declared_locals(body: &[u8]) -> (read: Option<(u64, usize)>)
    ensures
        match read {
            Some((locals, end)) => {
                &&& declared_locals(body@) == Some((locals as nat, end as int))
                &&& end <= body@.len()
            },
            None => declared_locals(body@) is None,
        },
{
    let (n, from) = match read_number(body, 0) {
        Some((n, from)) => (n, from),
        None => {
            return None;
        },
    };
    let mut sum: u64 = 0;
    let mut at: usize = from;
    let mut left: u64 = n;
    while left > 0
        invariant
            at <= body@.len(),
            left <= n <= u32::MAX,
            sum <= (n - left) * u32::MAX,
            declared_locals(body@) == group_sum(body@, from as int, n as nat),
            match group_sum(body@, at as int, left as nat) {
                Some((rest, end)) => group_sum(body@, from as int, n as nat) == Some(
                    (sum as nat + rest, end),
                ),
                None => group_sum(body@, from as int, n as nat) is None,
            },
        decreases left,
    {
        match read_number(body, at) {
            Some((count, end)) => {
                if end >= body.len() {
                    return None;
                }
                sum = sum + count;
                at = end + 1;
                left = left - 1;
            },
            None => {
                return None;
            },
        }
    }
    Some((sum, at))
}

/// Read the types of a module.
pub(crate) fn read_module_types(code: &[u8]) -> (read: Option<Vec<Signature>>)
    ensures
        match read {
            Some(types) => {
                &&& module_types(code@) == Some(types@)
                &&& forall|i: int| 0 <= i < types@.len() ==> types@[i].params <= u32::MAX
            },
            None => module_types(code@) is None,
        },
{
    match read_section(code, TYPE_SECTION) {
        Some(payload) => match read_number(payload, 0) {
            Some((n, at)) => read_function_types(payload, at, n),
            None => None,
        },
        None => None,
    }
}

/// Read the indices of the types of the functions that a module imports.
pub(crate) fn read_module_imports(code: &[u8]) -> (read: Option<Vec<u64>>)
    ensures
        match read {
            Some(indices) => module_imports(code@) == Some(nats(indices@)),
            None => module_imports(code@) is None,
        },
{
    match read_section(code, IMPORT_SECTION) {
        Some(payload) => match read_number(payload, 0) {
            Some((n, at)) => read_imported_functions(payload, at, n),
            None => None,
        },
        None => None,
    }
}

/// Read the indices of the types of a module's own functions.
pub(crate) fn read_module_functions(code: &[u8]) -> (read: Option<Vec<u64>>)
    ensures
        match read {
            Some(indices) => module_functions(code@) == Some(nats(indices@)),
            None => module_functions(code@) is None,
        },
{
    match read_section(code, FUNCTION_SECTION) {
        Some(payload) => match read_number(payload, 0) {
            Some((n, at)) => read_numbers(payload, at, n),
            None => None,
        },
        None => None,
    }
}

/// Read the bodies of a module's own functions.
pub(crate) fn read_module_bodies<'a>(code: &'a [u8]) -> (read: Option<Vec<&'a [u8]>>)
    ensures
        match read {
            Some(found) => module_bodies(code@) == Some(views(found@)),
            None => module_bodies(code@) is None,
        },
{
    match read_section(code, CODE_SECTION) {
        Some(payload) => match read_number(payload, 0) {
            Some((n, at)) => read_bodies(payload, at, n),
            None => None,
        },
        None => None,
    }
}

} // verus!
