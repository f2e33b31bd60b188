//! Whether the ways out of the functions of a WebAssembly module can be compiled.
//!
//! A function leaves behind its parameters, its locals and the values that are on its stack by then, but
//! for the value that it returns. For each way out of a function these are counted in 32 bits.
//!
//! How many values are on the stack at an instruction can be told from the instructions before it. The
//! stack belongs to the open blocks, of which the body of the function is the outermost: a block does
//! not take what was there when it was opened. Behind an instruction that never passes control on, up to
//! the end of its block, the stack holds whatever is asked of it, and nothing is counted there.

use crate::wasm_format;
use crate::wasm_format::{
    read_declared_locals, read_module_bodies, read_module_functions, read_module_imports,
    read_module_types, read_number, Signature,
};
use vstd::prelude::*;

verus! {

/// The most values that can be on the stack of a function.
pub const VALUE_STACK_LIMIT: u64 = 16384;

/// What an instruction does to the stack and to the open blocks.
pub enum Op {
    /// Take so many values, and give one or none.
    Plain { takes: u64, gives: bool },
    /// Take so many values, and open a block that gives a value or none.
    Open { takes: u64, is_loop: bool, gives: bool },
    /// Go over to the other branch of a block.
    Else,
    /// Close a block.
    End,
    /// Take a value, and maybe leave so many blocks and the one around them.
    BranchIf { depth: u64 },
    /// Never pass control on.
    Leave,
    /// Leave the function.
    Return,
}

/// A block that is open.
pub struct Block {
    /// How many values were on the stack when it was opened.
    pub floor: nat,
    /// Whether it gives a value when it is closed.
    pub gives: bool,
    /// Whether a branch to it brings a value.
    pub brings: bool,
    /// Whether control no longer gets here.
    pub dead: bool,
}

/// Where `n` bytes from `at` on end.
pub open spec fn bytes_end(bytes: Seq<u8>, at: int, n: int) -> Option<int> {
    if at + n <= bytes.len() {
        Some(at + n)
    } else {
        None
    }
}

/// Where a number of at most `n` bytes ends, whatever its sign.
pub open spec fn leb_end(bytes: Seq<u8>, at: int, n: nat) -> Option<int> {
    match wasm_format::leb(bytes, at, n) {
        Some((_, end)) => Some(end),
        None => None,
    }
}

/// Where the `n` numbers from `at` on end.
pub open spec fn numbers_end(bytes: Seq<u8>, at: int, n: nat) -> Option<int>
    decreases n,
{
    if n == 0 {
        Some(at)
    } else {
        match wasm_format::number(bytes, at) {
            Some((_, end)) => numbers_end(bytes, end, (n - 1) as nat),
            None => None,
        }
    }
}

/// The numeric instructions take two values, but for these: tests for zero, counts of bits, the
/// functions of one float, and conversions.
pub open spec fn takes_one(opcode: u8) -> bool {
    ||| opcode == 0x45
    ||| opcode == 0x50
    ||| 0x67 <= opcode <= 0x69
    ||| 0x79 <= opcode <= 0x7b
    ||| 0x8b <= opcode <= 0x91
    ||| 0x99 <= opcode <= 0x9f
    ||| 0xa7 <= opcode <= 0xbf
}

/// A call of a function of the type with this index, which takes so many values more.
pub open spec fn call_op(types: Seq<Signature>, index: nat, more: int, end: Option<int>) -> Option<
    (Op, int),
> {
    match end {
        Some(end) => if index < types.len() {
            let callee = types[index as int];
            Some((Op::Plain { takes: (callee.params + more) as u64, gives: callee.value }, end))
        } else {
            None
        },
        None => None,
    }
}

/// An instruction that ends there.
pub open spec fn ending(op: Op, end: Option<int>) -> Option<(Op, int)> {
    match end {
        Some(end) => Some((op, end)),
        None => None,
    }
}

/// The instruction at `at`, and where it ends, in a module with these types and functions.
pub open spec fn instruction(
    types: Seq<Signature>,
    functions: Seq<nat>,
    body: Seq<u8>,
    at: int,
) -> Option<(Op, int)> {
    if !(0 <= at < body.len()) {
        None
    } else {
        let opcode = body[at];
        let next = at + 1;
        if opcode == 0x00 {
            // unreachable
            Some((Op::Leave, next))
        } else if opcode == 0x01 {
            // nop
            Some((Op::Plain { takes: 0, gives: false }, next))
        } else if 0x02 <= opcode <= 0x04 {
            // block, loop and if, each with the type of its value
            ending(
                Op::Open {
                    takes: if opcode == 0x04 {
                        1
                    } else {
                        0
                    },
                    is_loop: opcode == 0x03,
                    gives: body[next] != 0x40 && body[next] != 0xc0,
                },
                leb_end(body, next, 5),
            )
        } else if opcode == 0x05 {
            Some((Op::Else, next))
        } else if opcode == 0x0b {
            Some((Op::End, next))
        } else if opcode == 0x0c {
            // br
            ending(Op::Leave, numbers_end(body, next, 1))
        } else if opcode == 0x0d {
            // br_if
            match wasm_format::number(body, next) {
                Some((depth, end)) => Some((Op::BranchIf { depth: depth as u64 }, end)),
                None => None,
            }
        } else if opcode == 0x0e {
            // br_table
            match wasm_format::number(body, next) {
                Some((n, start)) => ending(Op::Leave, numbers_end(body, start, n + 1)),
                None => None,
            }
        } else if opcode == 0x0f {
            Some((Op::Return, next))
        } else if opcode == 0x10 {
            // call
            match wasm_format::number(body, next) {
                Some((function, end)) => if function < functions.len() {
                    call_op(types, functions[function as int], 0, Some(end))
                } else {
                    None
                },
                None => None,
            }
        } else if opcode == 0x11 {
            // call_indirect
            match wasm_format::number(body, next) {
                Some((index, start)) => call_op(types, index, 1, bytes_end(body, start, 1)),
                None => None,
            }
        } else if opcode == 0x1a {
            // drop
            Some((Op::Plain { takes: 1, gives: false }, next))
        } else if opcode == 0x1b {
            // select
            Some((Op::Plain { takes: 3, gives: true }, next))
        } else if opcode == 0x20 || opcode == 0x23 {
            // get_local, get_global
            ending(Op::Plain { takes: 0, gives: true }, numbers_end(body, next, 1))
        } else if opcode == 0x21 || opcode == 0x24 {
            // set_local, set_global
            ending(Op::Plain { takes: 1, gives: false }, numbers_end(body, next, 1))
        } else if opcode == 0x22 {
            // tee_local
            ending(Op::Plain { takes: 1, gives: true }, numbers_end(body, next, 1))
        } else if 0x28 <= opcode <= 0x35 {
            // loads
            ending(Op::Plain { takes: 1, gives: true }, numbers_end(body, next, 2))
        } else if 0x36 <= opcode <= 0x3e {
            // stores
            ending(Op::Plain { takes: 2, gives: false }, numbers_end(body, next, 2))
        } else if opcode == 0x3f {
            // current_memory
            ending(Op::Plain { takes: 0, gives: true }, bytes_end(body, next, 1))
        } else if opcode == 0x40 {
            // grow_memory
            ending(Op::Plain { takes: 1, gives: true }, bytes_end(body, next, 1))
        } else if opcode == 0x41 {
            // i32.const
            ending(Op::Plain { takes: 0, gives: true }, leb_end(body, next, 5))
        } else if opcode == 0x42 {
            // i64.const
            ending(Op::Plain { takes: 0, gives: true }, leb_end(body, next, 10))
        } else if opcode == 0x43 {
            // f32.const
            ending(Op::Plain { takes: 0, gives: true }, bytes_end(body, next, 4))
        } else if opcode == 0x44 {
            // f64.const
            ending(Op::Plain { takes: 0, gives: true }, bytes_end(body, next, 8))
        } else if 0x45 <= opcode <= 0xbf {
            // the other numeric instructions
            Some(
                (
                    Op::Plain {
                        takes: if takes_one(opcode) {
                            1
                        } else {
                            2
                        },
                        gives: true,
                    },
                    next,
                ),
            )
        } else {
            None
        }
    }
}

/// What is left of `height` values when so many are taken: never less than what was there when the
/// block was opened.
pub open spec fn taken(height: nat, takes: nat, block: Block) -> nat {
    if height - takes >= block.floor {
        (height - takes) as nat
    } else {
        block.floor
    }
}

/// One value or none.
pub open spec fn one_if(value: bool) -> nat {
    if value {
        1
    } else {
        0
    }
}

/// The innermost block, when control no longer gets here.
pub open spec fn left_off(blocks: Seq<Block>) -> Seq<Block> {
    blocks.drop_last().push(Block { dead: true, ..blocks.last() })
}

/// The height of the stack and the open blocks after an instruction, if the instruction is possible.
pub open spec fn step(op: Op, height: nat, blocks: Seq<Block>) -> Option<(nat, Seq<Block>)> {
    let block = blocks.last();
    match op {
        Op::Plain { takes, gives } => Some(
            (taken(height, takes as nat, block) + one_if(gives), blocks),
        ),
        Op::Open { takes, is_loop, gives } => {
            let floor = taken(height, takes as nat, block);
            Some(
                (floor, blocks.push(Block { floor, gives, brings: gives && !is_loop, dead: false })),
            )
        },
        Op::Else => Some(
            (block.floor, blocks.drop_last().push(Block { dead: false, ..block })),
        ),
        Op::End => Some((block.floor + one_if(block.gives), blocks.drop_last())),
        Op::BranchIf { depth } => if depth < blocks.len() {
            let rest = taken(height, 1, block);
            if blocks[blocks.len() - 1 - depth].brings {
                Some((taken(rest, 1, block) + 1, blocks))
            } else {
                Some((rest, blocks))
            }
        } else {
            None
        },
        Op::Leave | Op::Return => Some((block.floor, left_off(blocks))),
    }
}

/// The instruction leaves the function.
pub open spec fn is_exit(op: Op, blocks: Seq<Block>) -> bool {
    op is Return || op is End && blocks.len() == 1
}

/// Where the function is left, no more than `room` values are left behind besides the one that it
/// returns.
pub open spec fn exit_fits(room: nat, height: nat, blocks: Seq<Block>) -> bool {
    blocks.last().dead || height <= room + one_if(blocks.first().gives)
}

/// At every way out of the function, from the instruction at `at` on, no more than `room` values are
/// left behind. The instructions can be read up to the end of the function.
pub open spec fn exits_fit(
    types: Seq<Signature>,
    functions: Seq<nat>,
    body: Seq<u8>,
    at: int,
    room: nat,
    height: nat,
    blocks: Seq<Block>,
) -> bool
    decreases body.len() - at,
{
    match instruction(types, functions, body, at) {
        Some((op, end)) => if !(at < end <= body.len()) {
            false
        } else if is_exit(op, blocks) && !exit_fits(room, height, blocks) {
            false
        } else if op is End && blocks.len() == 1 {
            true
        } else {
            match step(op, height, blocks) {
                Some((height, blocks)) => exits_fit(
                    types,
                    functions,
                    body,
                    end,
                    room,
                    height,
                    blocks,
                ),
                None => false,
            }
        },
        None => false,
    }
}

/// The body of a function, as the outermost block.
pub open spec fn outermost(signature: Signature) -> Block {
    Block { floor: 0, gives: signature.value, brings: signature.value, dead: false }
}

/// A function with this type and this body can be left: its parameters, its locals and the values
/// that are left behind can be counted together in 32 bits. Where even a full stack can be counted with
/// them, its instructions do not matter.
pub open spec fn body_fits(
    types: Seq<Signature>,
    functions: Seq<nat>,
    signature: Signature,
    body: Seq<u8>,
) -> bool {
    match wasm_format::declared_locals(body) {
        Some((declared, at)) => {
            let locals = signature.params + declared;
            ||| locals + VALUE_STACK_LIMIT <= u32::MAX
            ||| locals <= u32::MAX && exits_fit(
                types,
                functions,
                body,
                at,
                (u32::MAX - locals) as nat,
                0,
                seq![outermost(signature)],
            )
        },
        None => false,
    }
}

/// The function of the module's own at `i` has a type, and can be left.
pub open spec fn function_fits(
    types: Seq<Signature>,
    imports: Seq<nat>,
    own: Seq<nat>,
    bodies: Seq<Seq<u8>>,
    i: int,
) -> bool {
    &&& i < own.len()
    &&& own[i] < types.len()
    &&& body_fits(types, imports + own, types[own[i] as int], bodies[i])
}

/// All functions of the module's own can be left.
pub open spec fn functions_fit(
    types: Seq<Signature>,
    imports: Seq<nat>,
    own: Seq<nat>,
    bodies: Seq<Seq<u8>>,
) -> bool {
    forall|i: int| 0 <= i < bodies.len() ==> #[trigger] function_fits(types, imports, own, bodies, i)
}

/// The types, the imports, the functions and the bodies of the module can be read, and no function has
/// so many locals that they could not be counted in 32 bits, together with its parameters and with the
/// values that it leaves behind.
pub open spec fn few_locals(code: Seq<u8>) -> bool {
    match (
        wasm_format::module_types(code),
        wasm_format::module_imports(code),
        wasm_format::module_functions(code),
        wasm_format::module_bodies(code),
    ) {
        (Some(types), Some(imports), Some(own), Some(bodies)) => functions_fit(
            types,
            imports,
            own,
            bodies,
        ),
        _ => false,
    }
}

/// Read past `n` bytes.
fn read_bytes_end(bytes: &[u8], at: usize, n: usize) -> (read: Option<usize>)
    requires
        at <= bytes@.len(),
    ensures
        match read {
            Some(end) => {
                &&& bytes_end(bytes@, at as int, n as int) == Some(end as int)
                &&& at <= end <= bytes@.len()
            },
            None => bytes_end(bytes@, at as int, n as int) is None,
        },
{
    if n <= bytes.len() - at {
        Some(at + n)
    } else {
        None
    }
}

/// Read past a number of at most `n` bytes.
fn read_leb_end(bytes: &[u8], at: usize, n: u64) -> (read: Option<usize>)
    requires
        at <= bytes@.len(),
    ensures
        match read {
            Some(end) => {
                &&& leb_end(bytes@, at as int, n as nat) == Some(end as int)
                &&& at <= end <= bytes@.len()
            },
            None => leb_end(bytes@, at as int, n as nat) is None,
        },
    decreases n,
{
    if n == 0 || at >= bytes.len() {
        None
    } else if bytes[at] < 128 {
        Some(at + 1)
    } else {
        read_leb_end(bytes, at + 1, n - 1)
    }
}

/// Read past `n` numbers.
fn read_numbers_end(bytes: &[u8], from: usize, n: u64) -> (read: Option<usize>)
    requires
        from <= bytes@.len(),
    ensures
        match read {
            Some(end) => {
                &&& numbers_end(bytes@, from as int, n as nat) == Some(end as int)
                &&& from <= end <= bytes@.len()
            },
            None => numbers_end(bytes@, from as int, n as nat) is None,
        },
{
    let mut at: usize = from;
    let mut left: u64 = n;
    while left > 0
        invariant
            from <= at <= bytes@.len(),
            numbers_end(bytes@, from as int, n as nat) == numbers_end(
                bytes@,
                at as int,
                left as nat,
            ),
        decreases left,
    {
        match read_number(bytes, at) {
            Some((_, end)) => {
                at = end;
                left = left - 1;
            },
            None => {
                return None;
            },
        }
    }
    Some(at)
}

/// An instruction that ends there.
fn read_ending(op: Op, end: Option<usize>) -> (read: Option<(Op, usize)>)
    ensures
        match end {
            Some(end) => read == Some((op, end)),
            None => read is None,
        },
{
    match end {
        Some(end) => Some((op, end)),
        None => None,
    }
}

/// A call of a function of the type with this index.
fn read_call(types: &Vec<Signature>, index: u64, more: u64, end: usize) -> (read: Option<
    (Op, usize),
>)
    requires
        forall|i: int| 0 <= i < types@.len() ==> types@[i].params <= u32::MAX,
        more <= 1,
    ensures
        match read {
            Some((op, to)) => {
                &&& call_op(types@, index as nat, more as int, Some(end as int)) == Some(
                    (op, end as int),
                )
                &&& to == end
            },
            None => call_op(types@, index as nat, more as int, Some(end as int)) is None,
        },
{
    if index < types.len() as u64 {
        let callee = &types[index as usize];
        Some((Op::Plain { takes: callee.params + more, gives: callee.value }, end))
    } else {
        None
    }
}

/// Whether a numeric instruction takes one value only.
fn does_take_one(opcode: u8) -> (one: bool)
    ensures
        one == takes_one(opcode),
{
    opcode == 0x45 || opcode == 0x50 || (0x67 <= opcode && opcode <= 0x69) || (0x79 <= opcode
        && opcode <= 0x7b) || (0x8b <= opcode && opcode <= 0x91) || (0x99 <= opcode && opcode
        <= 0x9f) || (0xa7 <= opcode && opcode <= 0xbf)
}

/// Read an instruction.
fn read_instruction(
    types: &Vec<Signature>,
    functions: &Vec<u64>,
    body: &[u8],
    at: usize,
) -> (read: Option<(Op, usize)>)
    requires
        at <= body@.len(),
        forall|i: int| 0 <= i < types@.len() ==> types@[i].params <= u32::MAX,
    ensures
        match read {
            Some((op, end)) => {
                &&& instruction(types@, wasm_format::nats(functions@), body@, at as int) == Some(
                    (op, end as int),
                )
                &&& at < end <= body@.len()
            },
            None => instruction(
                types@,
                wasm_format::nats(functions@),
                body@,
                at as int,
            ) is None,
        },
{
    if at >= body.len() {
        return None;
    }
    let opcode: u8 = body[at];
    let next: usize = at + 1;
    proof {
        reveal_with_fuel(numbers_end, 3);
    }
    if opcode == 0x00 {
        Some((Op::Leave, next))
    } else if opcode == 0x01 {
        Some((Op::Plain { takes: 0, gives: false }, next))
    } else if 0x02 <= opcode && opcode <= 0x04 {
        match read_leb_end(body, next, 5) {
            Some(end) => {
                let takes: u64 = if opcode == 0x04 {
                    1
                } else {
                    0
                };
                let gives: bool = body[next] != 0x40 && body[next] != 0xc0;
                Some((Op::Open { takes, is_loop: opcode == 0x03, gives }, end))
            },
            None => None,
        }
    } else if opcode == 0x05 {
        Some((Op::Else, next))
    } else if opcode == 0x0b {
        Some((Op::End, next))
    } else if opcode == 0x0c {
        read_ending(Op::Leave, read_numbers_end(body, next, 1))
    } else if opcode == 0x0d {
        match read_number(body, next) {
            Some((depth, end)) => Some((Op::BranchIf { depth }, end)),
            None => None,
        }
    } else if opcode == 0x0e {
        match read_number(body, next) {
            Some((n, start)) => read_ending(Op::Leave, read_numbers_end(body, start, n + 1)),
            None => None,
        }
    } else if opcode == 0x0f {
        Some((Op::Return, next))
    } else if opcode == 0x10 {
        match read_number(body, next) {
            Some((function, end)) => if function < functions.len() as u64 {
                read_call(types, functions[function as usize], 0, end)
            } else {
                None
            },
            None => None,
        }
    } else if opcode == 0x11 {
        match read_number(body, next) {
            Some((index, start)) => match read_bytes_end(body, start, 1) {
                Some(end) => read_call(types, index, 1, end),
                None => None,
            },
            None => None,
        }
    } else if opcode == 0x1a {
        Some((Op::Plain { takes: 1, gives: false }, next))
    } else if opcode == 0x1b {
        Some((Op::Plain { takes: 3, gives: true }, next))
    } else if opcode == 0x20 || opcode == 0x23 {
        read_ending(Op::Plain { takes: 0, gives: true }, read_numbers_end(body, next, 1))
    } else if opcode == 0x21 || opcode == 0x24 {
        read_ending(Op::Plain { takes: 1, gives: false }, read_numbers_end(body, next, 1))
    } else if opcode == 0x22 {
        read_ending(Op::Plain { takes: 1, gives: true }, read_numbers_end(body, next, 1))
    } else if 0x28 <= opcode && opcode <= 0x35 {
        read_ending(Op::Plain { takes: 1, gives: true }, read_numbers_end(body, next, 2))
    } else if 0x36 <= opcode && opcode <= 0x3e {
        read_ending(Op::Plain { takes: 2, gives: false }, read_numbers_end(body, next, 2))
    } else if opcode == 0x3f {
        read_ending(Op::Plain { takes: 0, gives: true }, read_bytes_end(body, next, 1))
    } else if opcode == 0x40 {
        read_ending(Op::Plain { takes: 1, gives: true }, read_bytes_end(body, next, 1))
    } else if opcode == 0x41 {
        read_ending(Op::Plain { takes: 0, gives: true }, read_leb_end(body, next, 5))
    } else if opcode == 0x42 {
        read_ending(Op::Plain { takes: 0, gives: true }, read_leb_end(body, next, 10))
    } else if opcode == 0x43 {
        read_ending(Op::Plain { takes: 0, gives: true }, read_bytes_end(body, next, 4))
    } else if opcode == 0x44 {
        read_ending(Op::Plain { takes: 0, gives: true }, read_bytes_end(body, next, 8))
    } else if 0x45 <= opcode && opcode <= 0xbf {
        let takes: u64 = if does_take_one(opcode) {
            1
        } else {
            2
        };
        Some((Op::Plain { takes, gives: true }, next))
    } else {
        None
    }
}

/// A block that is open, in machine numbers.
struct OpenBlock {
    floor: u64,
    gives: bool,
    brings: bool,
    dead: bool,
}

impl View for OpenBlock {
    type V = Block;

    closed spec fn view(&self) -> Block {
        Block {
            floor: self.floor as nat,
            gives: self.gives,
            brings: self.brings,
            dead: self.dead,
        }
    }
}

/// The blocks that are open.
spec fn block_views(blocks: Seq<OpenBlock>) -> Seq<Block> {
    Seq::new(blocks.len(), |i: int| blocks[i]@)
}

/// What is left when so many values are taken.
fn take(height: u64, takes: u64, floor: u64) -> (rest: u64)
    ensures
        forall|block: Block|
            block.floor == floor ==> rest == #[trigger] taken(height as nat, takes as nat, block),
        rest <= height || rest == floor,
{
    if takes <= height && height - takes >= floor {
        height - takes
    } else {
        floor
    }
}

/// Whether the function can be left, from the instructions at `from` on.
fn do_exits_fit(
    types: &Vec<Signature>,
    functions: &Vec<u64>,
    body: &[u8],
    from: usize,
    room: u64,
    value: bool,
) -> (fit: bool)
    requires
        from <= body@.len(),
        room <= u32::MAX,
        forall|i: int| 0 <= i < types@.len() ==> types@[i].params <= u32::MAX,
    ensures
        fit == exits_fit(
            types@,
            wasm_format::nats(functions@),
            body@,
            from as int,
            room as nat,
            0,
            seq![Block { floor: 0, gives: value, brings: value, dead: false }],
        ),
{
    let mut at: usize = from;
    let mut height: u64 = 0;
    let mut blocks: Vec<OpenBlock> = Vec::new();
    blocks.push(OpenBlock { floor: 0, gives: value, brings: value, dead: false });
    let ghost first = seq![Block { floor: 0, gives: value, brings: value, dead: false }];
    let ghost all = wasm_format::nats(functions@);
    assert(block_views(blocks@) =~= first);
    loop
        invariant
            at <= body@.len(),
            room <= u32::MAX,
            forall|i: int| 0 <= i < types@.len() ==> types@[i].params <= u32::MAX,
            height <= at,
            blocks@.len() > 0,
            blocks@[0].gives == value,
            forall|i: int| 0 <= i < blocks@.len() ==> #[trigger] blocks@[i].floor <= at,
            all == wasm_format::nats(functions@),
            exits_fit(types@, all, body@, from as int, room as nat, 0, first) == exits_fit(
                types@,
                all,
                body@,
                at as int,
                room as nat,
                height as nat,
                block_views(blocks@),
            ),
            first == seq![Block { floor: 0, gives: value, brings: value, dead: false }],
        decreases body@.len() - at,
    {
        let (op, end) = match read_instruction(types, functions, body, at) {
            Some((op, end)) => (op, end),
            None => {
                return false;
            },
        };
        let n: usize = blocks.len();
        let floor: u64 = blocks[n - 1].floor;
        let gives: bool = blocks[n - 1].gives;
        let dead: bool = blocks[n - 1].dead;
        let keep: u64 = if value {
            1
        } else {
            0
        };
        let fits: bool = dead || height <= room + keep;
        let ghost before = block_views(blocks@);
        assert(before.last() == blocks@[n - 1]@);
        assert(before.first() == blocks@[0]@);
        assert(fits == exit_fits(room as nat, height as nat, before));
        match op {
            Op::Plain { takes, gives } => {
                let rest: u64 = take(height, takes, floor);
                height = if gives {
                    rest + 1
                } else {
                    rest
                };
            },
            Op::Open { takes, is_loop, gives } => {
                let rest: u64 = take(height, takes, floor);
                height = rest;
                blocks.push(
                    OpenBlock { floor: rest, gives, brings: gives && !is_loop, dead: false },
                );
                assert(block_views(blocks@) =~= before.push(blocks@.last()@));
            },
            Op::Else => {
                let brings: bool = blocks[n - 1].brings;
                blocks.pop();
                blocks.push(OpenBlock { floor, gives, brings, dead: false });
                height = floor;
                assert(block_views(blocks@) =~= before.drop_last().push(blocks@.last()@));
            },
            Op::End => {
                if n == 1 {
                    return fits;
                }
                blocks.pop();
                height = if gives {
                    floor + 1
                } else {
                    floor
                };
                assert(block_views(blocks@) =~= before.drop_last());
            },
            Op::BranchIf { depth } => {
                if depth >= n as u64 {
                    return false;
                }
                assert(before[n - 1 - depth] == blocks@[n - 1 - depth]@);
                let rest: u64 = take(height, 1, floor);
                height = if blocks[n - 1 - depth as usize].brings {
                    take(rest, 1, floor) + 1
                } else {
                    rest
                };
            },
            Op::Leave => {
                let brings: bool = blocks[n - 1].brings;
                blocks.pop();
                blocks.push(OpenBlock { floor, gives, brings, dead: true });
                height = floor;
                assert(block_views(blocks@) =~= left_off(before));
            },
            Op::Return => {
                if !fits {
                    return false;
                }
                let brings: bool = blocks[n - 1].brings;
                blocks.pop();
                blocks.push(OpenBlock { floor, gives, brings, dead: true });
                height = floor;
                assert(block_views(blocks@) =~= left_off(before));
            },
        }
        at = end;
    }
}

/// Whether a function can be left.
fn does_body_fit(
    types: &Vec<Signature>,
    functions: &Vec<u64>,
    signature: &Signature,
    body: &[u8],
) -> (fits: bool)
    requires
        signature.params <= u32::MAX,
        forall|i: int| 0 <= i < types@.len() ==> types@[i].params <= u32::MAX,
    ensures
        fits == body_fits(types@, wasm_format::nats(functions@), *signature, body@),
{
    match read_declared_locals(body) {
        Some((declared, at)) => {
            if declared > u32::MAX as u64 {
                return false;
            }
            let locals: u64 = signature.params + declared;
            if locals + VALUE_STACK_LIMIT <= u32::MAX as u64 {
                true
            } else if locals > u32::MAX as u64 {
                false
            } else {
                let room: u64 = u32::MAX as u64 - locals;
                do_exits_fit(types, functions, body, at, room, signature.value)
            }
        },
        None => false,
    }
}

/// Whether all functions of a module's own can be left.
fn all_fit(
    types: &Vec<Signature>,
    imports: &Vec<u64>,
    own: &Vec<u64>,
    bodies: &Vec<&[u8]>,
) -> (fit: bool)
    requires
        forall|i: int| 0 <= i < types@.len() ==> types@[i].params <= u32::MAX,
    ensures
        fit == functions_fit(
            types@,
            wasm_format::nats(imports@),
            wasm_format::nats(own@),
            wasm_format::views(bodies@),
        ),
{
    let mut functions: Vec<u64> = Vec::new();
    functions.extend_from_slice(imports.as_slice());
    functions.extend_from_slice(own.as_slice());
    assert(wasm_format::nats(functions@) =~= wasm_format::nats(imports@) + wasm_format::nats(own@));
    let ghost all_imports = wasm_format::nats(imports@);
    let ghost all_own = wasm_format::nats(own@);
    let ghost all_bodies = wasm_format::views(bodies@);
    let mut i: usize = 0;
    while i < bodies.len()
        invariant
            i <= bodies@.len(),
            forall|j: int| 0 <= j < types@.len() ==> types@[j].params <= u32::MAX,
            wasm_format::nats(functions@) == all_imports + all_own,
            all_imports == wasm_format::nats(imports@),
            all_own == wasm_format::nats(own@),
            all_bodies == wasm_format::views(bodies@),
            forall|j: int|
                0 <= j < i ==> #[trigger] function_fits(
                    types@,
                    all_imports,
                    all_own,
                    all_bodies,
                    j,
                ),
        decreases bodies@.len() - i,
    {
        assert(all_bodies[i as int] == bodies@[i as int]@);
        if i >= own.len() || own[i] >= types.len() as u64 {
            assert(!function_fits(types@, all_imports, all_own, all_bodies, i as int));
            return false;
        }
        if !does_body_fit(types, &functions, &types[own[i] as usize], bodies[i]) {
            assert(!function_fits(types@, all_imports, all_own, all_bodies, i as int));
            return false;
        }
        i += 1;
    }
    true
}

/// Whether no function of a module has too many locals.
pub fn has_few_locals(code: &[u8]) -> (few: bool)
    ensures
        few == few_locals(code@),
{
    let (types, imports, own, bodies) = match (
        read_module_types(code),
        read_module_imports(code),
        read_module_functions(code),
        read_module_bodies(code),
    ) {
        (Some(types), Some(imports), Some(own), Some(bodies)) => (types, imports, own, bodies),
        _ => {
            return false;
        },
    };
    all_fit(&types, &imports, &own, &bodies)
}

} // verus!
