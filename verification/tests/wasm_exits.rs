use polkadot_node::wasm_exits::has_few_locals;
use wasmi::Module;

/// A number in five bytes.
fn number(value: u32) -> [u8; 5] {
    [
        (value & 0x7f) as u8 | 0x80,
        (value >> 7 & 0x7f) as u8 | 0x80,
        (value >> 14 & 0x7f) as u8 | 0x80,
        (value >> 21 & 0x7f) as u8 | 0x80,
        (value >> 28) as u8,
    ]
}

fn join(parts: &[&[u8]]) -> Vec<u8> {
    parts.concat()
}

const HEADER: [u8; 8] = [0x00, 0x61, 0x73, 0x6d, 0x01, 0x00, 0x00, 0x00];

/// The types `[] -> []`, `[] -> [i32]`, `[i32, i64] -> [i32]` and `[i32] -> []`.
const TYPES: [u8; 20] = [
    0x01, 0x12, 0x04, 0x60, 0x00, 0x00, 0x60, 0x00, 0x01, 0x7f, 0x60, 0x02, 0x7f, 0x7e, 0x01, 0x7f,
    0x60, 0x01, 0x7f, 0x00,
];

/// An imported global variable and an imported function of the third type.
const IMPORTS: [u8; 16] = [
    0x02, 0x0e, 0x02, 0x01, 0x6d, 0x01, 0x67, 0x03, 0x7f, 0x00, 0x01, 0x6d, 0x01, 0x66, 0x00, 0x02,
];

/// A table, a memory, and a variable of the module's own.
const OTHERS: [u8; 19] = [
    0x04, 0x04, 0x01, 0x70, 0x00, 0x01, 0x05, 0x03, 0x01, 0x00, 0x01, 0x06, 0x06, 0x01, 0x7f, 0x01,
    0x41, 0x00, 0x0b,
];

/// A module with one function, of the type with this index, with these groups of locals and these
/// instructions before its end.
fn module_of(function_type: u8, groups: &[u32], instructions: &[u8]) -> Vec<u8> {
    let mut body = vec![groups.len() as u8];
    for group in groups {
        body.extend_from_slice(&number(*group));
        body.push(0x7f);
    }
    body.extend_from_slice(instructions);
    body.push(0x0b);
    let size = number(body.len() as u32);
    let section_size = number(body.len() as u32 + 6);
    join(&[
        &HEADER,
        &TYPES,
        &IMPORTS,
        &[0x03, 0x02, 0x01, function_type],
        &OTHERS,
        &[0x0a],
        &section_size,
        &[0x01],
        &size,
        &body,
    ])
}

/// The function leaves behind this many values at the way out where it leaves the most, besides its
/// parameters and locals: with so many locals that these can just be counted, the module is loaded.
fn leaves(function_type: u8, params: u32, values: u32, instructions: &[u8]) {
    let most = u32::MAX - params - values;
    let code = module_of(function_type, &[most], instructions);
    assert!(has_few_locals(&code), "{:x?}", instructions);
    assert!(Module::from_buffer(&code).is_ok(), "{:x?}", instructions);
    if values + params > 0 {
        let code = module_of(function_type, &[most + 1], instructions);
        assert!(!has_few_locals(&code), "{:x?}", instructions);
    }
    // The locals may come in several groups.
    assert!(has_few_locals(&module_of(function_type, &[most - 9, 0, 9], instructions)));
    assert!(!has_few_locals(&module_of(function_type, &[most - 9, 0, 10 + values + params], instructions)));
}

#[test]
fn modules_without_functions_have_few_locals() {
    assert!(has_few_locals(&HEADER));
    assert!(has_few_locals(&join(&[&HEADER, &TYPES, &IMPORTS])));
    // A custom section, of whatever content.
    assert!(has_few_locals(&join(&[&HEADER, &[0x00, 0x03, 0x01, 0x61, 0xff]])));
}

#[test]
fn few_locals_leave_room_for_every_stack() {
    let two_values = [0x41, 0x00, 0x41, 0x00, 0x0f];
    for groups in [&[][..], &[0], &[3, 500], &[4_294_950_911]] {
        let code = module_of(0, groups, &two_values);
        assert!(has_few_locals(&code));
        assert!(Module::from_buffer(&code).is_ok());
    }
    assert!(!has_few_locals(&module_of(0, &[u32::MAX, u32::MAX, u32::MAX], &[])));
}

#[test]
fn values_are_counted_where_a_function_is_left() {
    // Nothing is left behind at the end.
    leaves(0, 0, 0, &[]);
    leaves(0, 0, 0, &[0x01]);
    leaves(0, 0, 0, &[0x41, 0x00, 0x1a]);
    // So much is left behind as is there by then.
    leaves(0, 0, 0, &[0x0f]);
    leaves(0, 0, 1, &[0x41, 0x00, 0x0f]);
    leaves(0, 0, 0, &[0x41, 0x00, 0x1a, 0x0f]);
    leaves(0, 0, 2, &[0x41, 0x00, 0x41, 0x00, 0x0f]);
    // The returned value is not left behind.
    leaves(1, 0, 0, &[0x41, 0x00]);
    leaves(1, 0, 0, &[0x41, 0x00, 0x0f]);
    leaves(1, 0, 1, &[0x41, 0x00, 0x41, 0x00, 0x0f]);
    // The parameters are left behind as the locals are.
    leaves(2, 2, 0, &[0x41, 0x00]);
    leaves(2, 2, 1, &[0x41, 0x00, 0x41, 0x00, 0x0f]);
    leaves(3, 1, 1, &[0x41, 0x00, 0x0f]);
    // The way out where the most is left behind decides.
    leaves(0, 0, 2, &[0x02, 0x40, 0x41, 0x00, 0x41, 0x00, 0x0f, 0x0b, 0x41, 0x00, 0x0f]);
    leaves(0, 0, 2, &[0x02, 0x40, 0x41, 0x00, 0x0f, 0x0b, 0x41, 0x00, 0x41, 0x00, 0x0f]);
}

#[test]
fn blocks_give_what_their_type_says() {
    leaves(0, 0, 1, &[0x02, 0x40, 0x41, 0x00, 0x0f, 0x0b]);
    leaves(0, 0, 1, &[0x41, 0x00, 0x02, 0x40, 0x0f, 0x0b, 0x1a]);
    leaves(0, 0, 1, &[0x02, 0x7f, 0x41, 0x00, 0x0b, 0x0f]);
    leaves(0, 0, 1, &[0x02, 0x7c, 0x00, 0x0b, 0x0f]);
    leaves(0, 0, 0, &[0x02, 0x40, 0x0b, 0x0f]);
    leaves(0, 0, 1, &[0x03, 0x7f, 0x41, 0x00, 0x0b, 0x0f]);
    leaves(0, 0, 0, &[0x03, 0x40, 0x0b, 0x0f]);
    // A type may be written in more bytes than it needs.
    leaves(0, 0, 1, &[0x02, 0xff, 0x7f, 0x41, 0x00, 0x0b, 0x0f]);
    leaves(0, 0, 0, &[0x02, 0xc0, 0x7f, 0x0b, 0x0f]);
    // Both branches of a condition.
    leaves(0, 0, 1, &[0x41, 0x00, 0x04, 0x7f, 0x41, 0x01, 0x05, 0x41, 0x02, 0x0b, 0x0f]);
    leaves(0, 0, 0, &[0x41, 0x00, 0x04, 0x40, 0x0b, 0x0f]);
    leaves(0, 0, 2, &[0x41, 0x00, 0x04, 0x40, 0x41, 0x01, 0x41, 0x01, 0x0f, 0x05, 0x41, 0x02, 0x0f, 0x0b]);
    leaves(0, 0, 2, &[0x41, 0x00, 0x04, 0x40, 0x41, 0x01, 0x0f, 0x05, 0x41, 0x02, 0x41, 0x02, 0x0f, 0x0b]);
}

#[test]
fn nothing_is_counted_where_control_does_not_get() {
    leaves(0, 0, 0, &[0x00, 0x41, 0x00, 0x41, 0x00, 0x0f]);
    leaves(0, 0, 0, &[0x0f, 0x41, 0x00, 0x41, 0x00, 0x0f]);
    leaves(0, 0, 0, &[0x02, 0x40, 0x0c, 0x00, 0x41, 0x00, 0x0f, 0x0b]);
    leaves(0, 0, 0, &[0x02, 0x40, 0x41, 0x00, 0x0e, 0x02, 0x00, 0x01, 0x00, 0x41, 0x00, 0x0f, 0x0b]);
    // A block that is opened there is counted all the same, with what was put on the stack there.
    leaves(0, 0, 2, &[0x00, 0x41, 0x00, 0x02, 0x40, 0x41, 0x01, 0x0f, 0x0b, 0x1a]);
    leaves(0, 0, 1, &[0x00, 0x6a, 0x02, 0x40, 0x0f, 0x0b, 0x1a]);
    leaves(0, 0, 1, &[0x00, 0x1b, 0x1b, 0x02, 0x40, 0x0f, 0x0b, 0x1a]);
    leaves(0, 0, 1, &[0x00, 0x22, 0x00, 0x02, 0x40, 0x0f, 0x0b, 0x1a]);
    leaves(0, 0, 1, &[0x02, 0x40, 0x41, 0x00, 0x0c, 0x00, 0x02, 0x40, 0x41, 0x00, 0x0f, 0x0b, 0x0b]);
    // Control gets to the other branch, and behind the end of the block.
    leaves(0, 0, 1, &[0x41, 0x00, 0x04, 0x40, 0x00, 0x05, 0x41, 0x00, 0x0f, 0x0b]);
    leaves(0, 0, 1, &[0x02, 0x40, 0x00, 0x0b, 0x41, 0x00, 0x0f]);
}

#[test]
fn branches_keep_what_they_bring() {
    leaves(0, 0, 1, &[0x02, 0x40, 0x41, 0x00, 0x0d, 0x00, 0x41, 0x00, 0x0f, 0x0b]);
    leaves(0, 0, 1, &[0x02, 0x7f, 0x41, 0x05, 0x41, 0x00, 0x0d, 0x00, 0x0f, 0x0b, 0x1a]);
    leaves(0, 0, 1, &[0x02, 0x7f, 0x02, 0x40, 0x41, 0x05, 0x41, 0x00, 0x0d, 0x01, 0x0f, 0x0b, 0x00, 0x0b, 0x1a]);
    // Where control does not get, the value that is brought comes out of nowhere.
    leaves(0, 0, 1, &[0x02, 0x7f, 0x00, 0x0d, 0x00, 0x02, 0x40, 0x0f, 0x0b, 0x0b, 0x1a]);
    leaves(0, 0, 0, &[0x02, 0x40, 0x00, 0x0d, 0x00, 0x02, 0x40, 0x0f, 0x0b, 0x0b]);
    // A branch to a loop goes to its beginning, and brings nothing.
    leaves(0, 0, 0, &[0x03, 0x7f, 0x00, 0x0d, 0x00, 0x02, 0x40, 0x0f, 0x0b, 0x41, 0x00, 0x0b, 0x1a]);
}

#[test]
fn calls_take_and_give_what_the_type_says() {
    // The imported function comes first.
    leaves(0, 0, 1, &[0x41, 0x00, 0x42, 0x00, 0x10, 0x00, 0x0f]);
    leaves(0, 0, 1, &[0x41, 0x00, 0x10, 0x01, 0x0f]);
    leaves(1, 0, 1, &[0x10, 0x01, 0x10, 0x01, 0x0f]);
    leaves(0, 0, 0, &[0x41, 0x01, 0x41, 0x00, 0x11, 0x03, 0x00, 0x0f]);
    leaves(0, 0, 1, &[0x41, 0x00, 0x11, 0x01, 0x00, 0x0f]);
    leaves(0, 0, 1, &[0x41, 0x00, 0x42, 0x00, 0x41, 0x00, 0x11, 0x02, 0x00, 0x0f]);
}

#[test]
fn variables_and_memory_take_and_give() {
    leaves(0, 0, 1, &[0x20, 0x00, 0x0f]);
    leaves(0, 0, 0, &[0x41, 0x00, 0x21, 0x00, 0x0f]);
    leaves(0, 0, 1, &[0x41, 0x00, 0x22, 0x00, 0x0f]);
    leaves(0, 0, 1, &[0x23, 0x00, 0x0f]);
    leaves(0, 0, 0, &[0x41, 0x00, 0x24, 0x01, 0x0f]);
    leaves(0, 0, 1, &[0x3f, 0x00, 0x0f]);
    leaves(0, 0, 1, &[0x41, 0x00, 0x40, 0x00, 0x0f]);
    leaves(0, 0, 1, &[0x41, 0x00, 0x41, 0x01, 0x41, 0x02, 0x1b, 0x0f]);
    for load in 0x28..=0x35 {
        leaves(0, 0, 1, &[0x41, 0x00, load, 0x00, 0x8f, 0x0f, 0x0f]);
        leaves(0, 0, 0, &[0x41, 0x00, load, 0x00, 0x00, 0x1a]);
    }
    for (store, kind) in (0x36..=0x3e).zip([0, 1, 2, 3, 0, 0, 1, 1, 1]) {
        leaves(0, 0, 0, &join(&[&[0x41, 0x00], CONSTS[kind], &[store, 0x00, 0x8f, 0x0f, 0x0f]]));
        leaves(0, 0, 1, &join(&[&[0x41, 0x00, 0x41, 0x00], CONSTS[kind], &[store, 0x00, 0x00, 0x0f]]));
    }
}

/// Constants of the types `i32`, `i64`, `f32` and `f64`. Their bytes look like ways out.
const CONSTS: [&[u8]; 4] = [
    &[0x41, 0x8f, 0x0f],
    &[0x42, 0x8f, 0x8f, 0x0f],
    &[0x43, 0x0f, 0x0f, 0x0f, 0x0f],
    &[0x44, 0x0f, 0x0f, 0x0f, 0x0f, 0x0f, 0x0f, 0x0f, 0x0f],
];

#[test]
fn constants_are_read_to_their_end() {
    for constant in CONSTS {
        leaves(0, 0, 1, &join(&[constant, &[0x0f]]));
    }
    leaves(0, 0, 1, &[0x41, 0xff, 0xff, 0xff, 0xff, 0x07, 0x0f]);
    leaves(
        0,
        0,
        1,
        &[0x42, 0xff, 0xff, 0xff, 0xff, 0xff, 0xff, 0xff, 0xff, 0xff, 0x00, 0x0f],
    );
}

/// The types of the values that a numeric instruction takes.
fn operands(opcode: u8) -> Vec<usize> {
    match opcode {
        0x45 | 0x67..=0x69 => vec![0],
        0x46..=0x4f | 0x6a..=0x78 => vec![0, 0],
        0x50 | 0x79..=0x7b => vec![1],
        0x51..=0x5a | 0x7c..=0x8a => vec![1, 1],
        0x8b..=0x91 => vec![2],
        0x5b..=0x60 | 0x92..=0x98 => vec![2, 2],
        0x99..=0x9f => vec![3],
        0x61..=0x66 | 0xa0..=0xa6 => vec![3, 3],
        0xac | 0xad | 0xb2 | 0xb3 | 0xb7 | 0xb8 | 0xbe => vec![0],
        0xa7 | 0xb4 | 0xb5 | 0xb9 | 0xba | 0xbf => vec![1],
        0xa8 | 0xa9 | 0xae | 0xaf | 0xbb | 0xbc => vec![2],
        _ => vec![3],
    }
}

#[test]
fn numeric_instructions_take_one_value_or_two_and_give_one() {
    for opcode in 0x45..=0xbf {
        let mut instructions = Vec::new();
        for kind in operands(opcode) {
            instructions.extend_from_slice(CONSTS[kind]);
        }
        instructions.push(opcode);
        leaves(0, 0, 1, &join(&[&instructions, &[0x0f]]));
        // Nothing but the one value is there.
        leaves(0, 0, 0, &join(&[&instructions, &[0x1a]]));
    }
}

#[test]
fn one_function_among_many_decides() {
    let few = |locals: u32| {
        let mut bodies = vec![0x0a, 0x10, 0x02, 0x02, 0x00, 0x0b, 0x0b, 0x01];
        bodies.extend_from_slice(&number(locals));
        bodies.extend_from_slice(&[0x7f, 0x41, 0x00, 0x0f, 0x0b]);
        let code = join(&[
            &HEADER,
            &[0x01, 0x04, 0x01, 0x60, 0x00, 0x00],
            &[0x03, 0x03, 0x02, 0x00, 0x00],
            &bodies,
        ]);
        has_few_locals(&code)
    };
    assert!(few(u32::MAX - 1));
    assert!(!few(u32::MAX));
}

#[test]
fn imports_of_all_kinds_are_read() {
    let import = |external: &[u8]| {
        let mut entry = vec![0x01, 0x01, 0x6d, 0x01, 0x6e];
        entry.extend_from_slice(external);
        join(&[&HEADER, &TYPES, &[0x02, entry.len() as u8], &entry])
    };
    let kinds: [&[u8]; 6] = [
        &[0x00, 0x03],
        &[0x01, 0x70, 0x00, 0x05],
        &[0x01, 0x70, 0x01, 0x05, 0x06],
        &[0x02, 0x00, 0x01],
        &[0x02, 0x01, 0x01, 0x02],
        &[0x03, 0x7e, 0x00],
    ];
    for kind in kinds {
        assert!(has_few_locals(&import(kind)));
        assert!(Module::from_buffer(import(kind)).is_ok());
        assert!(!has_few_locals(&import(&kind[..kind.len() - 1])));
    }
    assert!(!has_few_locals(&import(&[0x04, 0x00])));
    assert!(!has_few_locals(&import(&[0x02, 0x02, 0x01])));
}

#[test]
fn what_cannot_be_read_has_not_few_locals() {
    assert!(!has_few_locals(b""));
    assert!(!has_few_locals(&HEADER[..7]));
    // A section without a size, with a size beyond the end, and with a size that is no number.
    assert!(!has_few_locals(&join(&[&HEADER, &[0x01]])));
    assert!(!has_few_locals(&join(&[&HEADER, &[0x01, 0x05, 0x00]])));
    assert!(!has_few_locals(&join(&[&HEADER, &[0x00, 0x80, 0x80, 0x80, 0x80, 0x10]])));
    assert!(!has_few_locals(&join(&[&HEADER, &[0x00, 0x80, 0x80, 0x80, 0x80, 0x80, 0x00]])));
    // A body without a function, a function without a type, and a list that ends too early.
    let plain_type: &[u8] = &[0x01, 0x04, 0x01, 0x60, 0x00, 0x00];
    let one_function: &[u8] = &[0x03, 0x02, 0x01, 0x00];
    let body: &[u8] = &[0x0a, 0x04, 0x01, 0x02, 0x00, 0x0b];
    assert!(has_few_locals(&join(&[&HEADER, plain_type, one_function, body])));
    assert!(!has_few_locals(&join(&[&HEADER, plain_type, body])));
    assert!(!has_few_locals(&join(&[&HEADER, one_function, body])));
    assert!(!has_few_locals(&join(&[&HEADER, &[0x01, 0x01, 0x01]])));
    assert!(!has_few_locals(&join(&[&HEADER, &[0x02, 0x01, 0x01]])));
    assert!(!has_few_locals(&join(&[&HEADER, &[0x03, 0x01, 0x01]])));
    assert!(!has_few_locals(&join(&[&HEADER, &[0x0a, 0x01, 0x01]])));
    // A group of locals without its type, and results beyond the end.
    let cut = [0x0a, 0x04, 0x01, 0x02, 0x01, 0x05];
    assert!(!has_few_locals(&join(&[&HEADER, plain_type, one_function, &cut])));
    assert!(!has_few_locals(&join(&[&HEADER, &[0x01, 0x05, 0x01, 0x60, 0x00, 0x02, 0x7f]])));
}

#[test]
fn instructions_that_cannot_be_read_leave_no_room() {
    let cases: [&[u8]; 9] = [
        // No such instruction.
        &[0xc0],
        &[0x06],
        // No such function, type or block.
        &[0x10, 0x02],
        &[0x41, 0x00, 0x11, 0x04, 0x00],
        &[0x41, 0x00, 0x0d, 0x01],
        // A constant without an end.
        &[0x41, 0x80, 0x80, 0x80, 0x80, 0x80, 0x00],
        &[0x43, 0x00],
        &[0x42],
        // A block without an end.
        &[0x02, 0x40],
    ];
    for instructions in cases {
        let code = module_of(0, &[u32::MAX], instructions);
        assert!(!has_few_locals(&code), "{:x?}", instructions);
        assert!(Module::from_buffer(&code).is_err(), "{:x?}", instructions);
    }
}
