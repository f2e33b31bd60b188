//! Laws on how a WebAssembly module is read, and on which modules can be loaded.

use crate::native_executor;
use crate::wasm_exits;
use crate::wasm_exits::{Block, Op};
use crate::wasm_format;
use crate::wasm_format::Signature;
use vstd::prelude::*;

verus! {

/// A number ends with the first byte below 128, which must be one of its first `n` bytes. If there is no
/// such byte, no number is read.
pub proof fn law_number_ends_with_first_small_byte(bytes: Seq<u8>, at: int, n: nat)
    ensures
        wasm_format::leb(bytes, at, n) matches Some((_, end)) ==> {
            &&& 0 <= at < end <= bytes.len()
            &&& end <= at + n
            &&& bytes[end - 1] < 128
            &&& forall|i: int| at <= i < end - 1 ==> bytes[i] >= 128
        },
        forall|end: int|
            {
                &&& 0 <= at < end <= bytes.len()
                &&& end <= at + n
                &&& #[trigger] bytes[end - 1] < 128
                &&& forall|i: int| at <= i < end - 1 ==> bytes[i] >= 128
            } ==> (wasm_format::leb(bytes, at, n) matches Some((_, to)) && to == end),
    decreases n,
{
    if n > 0 && 0 <= at < bytes.len() && bytes[at] >= 128 {
        law_number_ends_with_first_small_byte(bytes, at + 1, (n - 1) as nat);
    }
}

/// A 32-bit number is the sum of the low seven bits of its bytes, each worth 128 times as much as the
/// one before, for every number of at most five bytes whose sum fits in 32 bits. Nothing else is a
/// number.
pub proof fn law_number_is_the_sum_of_its_bytes(bytes: Seq<u8>, at: int)
    ensures
        !(0 <= at < bytes.len()) ==> wasm_format::number(bytes, at) is None,
        0 <= at < bytes.len() && bytes[at] < 128 ==> wasm_format::number(bytes, at) == Some(
            (bytes[at] as nat, at + 1),
        ),
        0 <= at && at + 1 < bytes.len() && bytes[at] >= 128 && bytes[at + 1] < 128
            ==> wasm_format::number(bytes, at) == Some(
            ((bytes[at] - 128 + 128 * bytes[at + 1]) as nat, at + 2),
        ),
        0 <= at && at + 2 < bytes.len() && bytes[at] >= 128 && bytes[at + 1] >= 128 && bytes[at + 2]
            < 128 ==> wasm_format::number(bytes, at) == Some(
            (
                (bytes[at] - 128 + 128 * (bytes[at + 1] - 128) + 16384 * bytes[at + 2]) as nat,
                at + 3,
            ),
        ),
        0 <= at && at + 3 < bytes.len() && bytes[at] >= 128 && bytes[at + 1] >= 128 && bytes[at + 2]
            >= 128 && bytes[at + 3] < 128 ==> wasm_format::number(bytes, at) == Some(
            (
                (bytes[at] - 128 + 128 * (bytes[at + 1] - 128) + 16384 * (bytes[at + 2] - 128)
                    + 2097152 * bytes[at + 3]) as nat,
                at + 4,
            ),
        ),
        0 <= at && at + 4 < bytes.len() && bytes[at] >= 128 && bytes[at + 1] >= 128 && bytes[at + 2]
            >= 128 && bytes[at + 3] >= 128 && bytes[at + 4] < 16 ==> wasm_format::number(bytes, at)
            == Some(
            (
                (bytes[at] - 128 + 128 * (bytes[at + 1] - 128) + 16384 * (bytes[at + 2] - 128)
                    + 2097152 * (bytes[at + 3] - 128) + 268435456 * bytes[at + 4]) as nat,
                at + 5,
            ),
        ),
        0 <= at && at + 4 < bytes.len() && bytes[at] >= 128 && bytes[at + 1] >= 128 && bytes[at + 2]
            >= 128 && bytes[at + 3] >= 128 && bytes[at + 4] >= 16 ==> wasm_format::number(
            bytes,
            at,
        ) is None,
        0 <= at < bytes.len() <= at + 4 && (forall|i: int|
            at <= i < bytes.len() ==> #[trigger] bytes[i] >= 128) ==> wasm_format::number(
            bytes,
            at,
        ) is None,
{
    reveal_with_fuel(wasm_format::leb, 7);
}

/// Sections follow each other up to the end of a module: the sections before `k` are of other kinds. If
/// the section at `k` is of this kind, its payload is found; if the module ends at `k`, there is no such
/// section, which is as good as an empty list; and if no section can be read there, nothing is found.
pub proof fn law_first_section_of_its_kind_is_found(
    code: Seq<u8>,
    kind: u8,
    starts: Seq<int>,
    k: int,
)
    requires
        0 <= k < starts.len(),
        forall|i: int|
            0 <= i < k ==> {
                &&& 0 <= #[trigger] starts[i] < code.len()
                &&& code[starts[i]] != kind
                &&& wasm_format::number(code, starts[i] + 1) matches Some((size, start))
                &&& starts[i + 1] == start + size
                &&& starts[i + 1] <= code.len()
            },
        0 <= starts[k],
    ensures
        starts[k] == code.len() ==> wasm_format::section(code, starts[0], kind) == Some(
            seq![0u8],
        ),
        starts[k] > code.len() ==> wasm_format::section(code, starts[0], kind) is None,
        starts[k] < code.len() ==> (match wasm_format::number(code, starts[k] + 1) {
            Some((size, start)) => if start + size > code.len() {
                wasm_format::section(code, starts[0], kind) is None
            } else {
                code[starts[k]] == kind ==> wasm_format::section(code, starts[0], kind) == Some(
                    code.subrange(start, start + size),
                )
            },
            None => wasm_format::section(code, starts[0], kind) is None,
        }),
    decreases k,
{
    law_number_is_the_sum_of_its_bytes(code, starts[0] + 1);
    if starts[k] < code.len() {
        law_number_ends_with_first_small_byte(code, starts[k] + 1, 5);
    }
    if k > 0 {
        law_number_ends_with_first_small_byte(code, starts[0] + 1, 5);
        let rest = starts.drop_first();
        assert forall|i: int| 0 <= i < k - 1 implies {
            &&& 0 <= #[trigger] rest[i] < code.len()
            &&& code[rest[i]] != kind
            &&& wasm_format::number(code, rest[i] + 1) matches Some((size, start))
            &&& rest[i + 1] == start + size
            &&& rest[i + 1] <= code.len()
        } by {
            assert(rest[i] == starts[i + 1]);
        }
        law_first_section_of_its_kind_is_found(code, kind, rest, k - 1);
        assert(starts[0] == starts[0]);
    }
}

/// A type has as many parameters as it says, however many, and gives a value exactly if it has a result.
/// It can be read exactly if its two lists lie within the payload.
pub proof fn law_type_has_the_parameters_that_it_says(bytes: Seq<u8>, at: int)
    ensures
        match wasm_format::number(bytes, at + 1) {
            Some((params, start)) => match wasm_format::number(bytes, start + params) {
                Some((results, end)) => if end + results <= bytes.len() {
                    wasm_format::function_type(bytes, at) matches Some((signature, to)) && {
                        &&& signature.params == params
                        &&& signature.value == (results >= 1)
                        &&& to == end + results
                    }
                } else {
                    wasm_format::function_type(bytes, at) is None
                },
                None => wasm_format::function_type(bytes, at) is None,
            },
            None => wasm_format::function_type(bytes, at) is None,
        },
{
}

/// Types that follow each other are all read, however many there are, and each as it is by itself. If
/// what follows them is no type, no longer list can be read.
pub proof fn law_every_type_is_read(bytes: Seq<u8>, starts: Seq<int>, types: Seq<Signature>)
    requires
        starts.len() == types.len() + 1,
        forall|i: int|
            0 <= i < types.len() ==> wasm_format::function_type(bytes, #[trigger] starts[i]) == Some(
                (types[i], starts[i + 1]),
            ),
    ensures
        wasm_format::function_types(bytes, starts[0], types.len()) == Some(types),
        wasm_format::function_type(bytes, starts.last()) is None ==> forall|n: nat|
            n > types.len() ==> #[trigger] wasm_format::function_types(bytes, starts[0], n) is None,
    decreases types.len(),
{
    if types.len() > 0 {
        let rest = starts.drop_first();
        let others = types.drop_first();
        assert forall|i: int| 0 <= i < others.len() implies wasm_format::function_type(
            bytes,
            #[trigger] rest[i],
        ) == Some((others[i], rest[i + 1])) by {
            assert(rest[i] == starts[i + 1]);
        }
        law_every_type_is_read(bytes, rest, others);
        assert(seq![types[0]] + others =~= types);
        assert(wasm_format::function_type(bytes, starts[0]) == Some((types[0], starts[1])));
        assert forall|n: nat|
            n > types.len() && wasm_format::function_type(
                bytes,
                starts.last(),
            ) is None implies #[trigger] wasm_format::function_types(
            bytes,
            starts[0],
            n,
        ) is None by {
            assert(wasm_format::function_types(bytes, rest[0], (n - 1) as nat) is None);
        }
    } else {
        assert(types =~= Seq::empty());
    }
}

/// Numbers that follow each other are all read, however many there are. If what follows them is no
/// number, no longer list can be read.
pub proof fn law_every_number_is_read(bytes: Seq<u8>, starts: Seq<int>, values: Seq<nat>)
    requires
        starts.len() == values.len() + 1,
        forall|i: int|
            0 <= i < values.len() ==> wasm_format::number(bytes, #[trigger] starts[i]) == Some(
                (values[i], starts[i + 1]),
            ),
    ensures
        wasm_format::numbers(bytes, starts[0], values.len()) == Some(values),
        wasm_exits::numbers_end(bytes, starts[0], values.len()) == Some(starts.last()),
        wasm_format::number(bytes, starts.last()) is None ==> forall|n: nat|
            n > values.len() ==> {
                &&& #[trigger] wasm_format::numbers(bytes, starts[0], n) is None
                &&& wasm_exits::numbers_end(bytes, starts[0], n) is None
            },
    decreases values.len(),
{
    if values.len() > 0 {
        let rest = starts.drop_first();
        let others = values.drop_first();
        assert forall|i: int| 0 <= i < others.len() implies wasm_format::number(
            bytes,
            #[trigger] rest[i],
        ) == Some((others[i], rest[i + 1])) by {
            assert(rest[i] == starts[i + 1]);
        }
        law_every_number_is_read(bytes, rest, others);
        assert(seq![values[0]] + others =~= values);
        assert(wasm_format::number(bytes, starts[0]) == Some((values[0], starts[1])));
        assert forall|n: nat|
            n > values.len() && wasm_format::number(bytes, starts.last()) is None implies {
            &&& #[trigger] wasm_format::numbers(bytes, starts[0], n) is None
            &&& wasm_exits::numbers_end(bytes, starts[0], n) is None
        } by {
            assert(wasm_format::numbers(bytes, rest[0], (n - 1) as nat) is None);
        }
    } else {
        assert(values =~= Seq::empty());
    }
}

/// The limits of a table or a memory are one number or two, as the byte before them says.
pub proof fn law_limits_are_one_number_or_two(bytes: Seq<u8>, at: int)
    ensures
        match wasm_format::number(bytes, at + 1) {
            Some((_, end)) => {
                &&& bytes[at] == 0 ==> wasm_format::limits_end(bytes, at) == Some(end)
                &&& bytes[at] == 1 ==> wasm_format::limits_end(bytes, at) == (
                match wasm_format::number(bytes, end) {
                    Some((_, to)) => Some(to),
                    None => None,
                })
                &&& bytes[at] > 1 ==> wasm_format::limits_end(bytes, at) is None
            },
            None => wasm_format::limits_end(bytes, at) is None,
        },
{
}

/// An import is two names of any length and what is imported: a function, a table, a memory or a global
/// variable. Only a function has an index of a type, which is the number that follows.
pub proof fn law_import_is_two_names_and_a_thing(
    bytes: Seq<u8>,
    at: int,
    size: nat,
    start: int,
    size2: nat,
    start2: int,
)
    requires
        wasm_format::number(bytes, at) == Some((size, start)),
        start + size <= bytes.len(),
        wasm_format::number(bytes, start + size) == Some((size2, start2)),
        start2 + size2 < bytes.len(),
    ensures
        bytes[start2 + size2] == 0 ==> wasm_format::import(bytes, at) == (
        match wasm_format::number(bytes, start2 + size2 + 1) {
            Some((index, end)) => Some((Some(index), end)),
            None => None,
        }),
        bytes[start2 + size2] == 1 ==> wasm_format::import(bytes, at) == (
        match wasm_format::limits_end(bytes, start2 + size2 + 2) {
            Some(end) => Some((None::<nat>, end)),
            None => None,
        }),
        bytes[start2 + size2] == 2 ==> wasm_format::import(bytes, at) == (
        match wasm_format::limits_end(bytes, start2 + size2 + 1) {
            Some(end) => Some((None::<nat>, end)),
            None => None,
        }),
        bytes[start2 + size2] == 3 && start2 + size2 + 3 <= bytes.len() ==> wasm_format::import(
            bytes,
            at,
        ) == Some((None::<nat>, start2 + size2 + 3)),
        bytes[start2 + size2] == 3 && start2 + size2 + 3 > bytes.len() ==> wasm_format::import(
            bytes,
            at,
        ) is None,
        bytes[start2 + size2] > 3 ==> wasm_format::import(bytes, at) is None,
{
    law_number_ends_with_first_small_byte(bytes, at, 5);
    law_number_ends_with_first_small_byte(bytes, start + size, 5);
}

/// An import whose names do not lie within the payload, or behind which nothing follows, cannot be read.
pub proof fn law_import_needs_its_names(bytes: Seq<u8>, at: int)
    ensures
        wasm_format::number(bytes, at) is None ==> wasm_format::import(bytes, at) is None,
        wasm_format::number(bytes, at) matches Some((size, start)) ==> {
            &&& start + size > bytes.len() ==> wasm_format::import(bytes, at) is None
            &&& start + size <= bytes.len() ==> (match wasm_format::number(bytes, start + size) {
                Some((size2, start2)) => start2 + size2 >= bytes.len() ==> wasm_format::import(
                    bytes,
                    at,
                ) is None,
                None => wasm_format::import(bytes, at) is None,
            })
        },
{
}

/// Imports that follow each other are all read, however many there are and of whatever kind: the
/// functions among them are found, in their order, and nothing else. `before[i]` is how many of the
/// imports before `i` are functions.
pub proof fn law_every_imported_function_is_found(
    bytes: Seq<u8>,
    starts: Seq<int>,
    things: Seq<Option<nat>>,
    before: Seq<int>,
)
    requires
        starts.len() == things.len() + 1,
        before.len() == things.len() + 1,
        before[0] == 0,
        forall|i: int|
            0 <= i < things.len() ==> {
                &&& wasm_format::import(bytes, #[trigger] starts[i]) == Some(
                    (things[i], starts[i + 1]),
                )
                &&& before[i + 1] == before[i] + (if things[i] is Some {
                    1int
                } else {
                    0
                })
            },
    ensures
        wasm_format::imported_functions(bytes, starts[0], things.len()) matches Some(found) && {
            &&& found.len() == before.last()
            &&& forall|i: int|
                0 <= i < things.len() ==> (#[trigger] things[i] matches Some(index)
                    ==> 0 <= before[i] < found.len() && found[before[i]] == index)
        },
        wasm_format::import(bytes, starts.last()) is None ==> forall|n: nat|
            n > things.len() ==> #[trigger] wasm_format::imported_functions(
                bytes,
                starts[0],
                n,
            ) is None,
{
    lemma_imports(bytes, starts, things, before, 0);
    if wasm_format::import(bytes, starts.last()) is None {
        assert forall|n: nat| n > things.len() implies #[trigger] wasm_format::imported_functions(
            bytes,
            starts[0],
            n,
        ) is None by {
            lemma_no_more_imports(bytes, starts, things, n, 0);
        }
    }
}

proof fn lemma_imports(
    bytes: Seq<u8>,
    starts: Seq<int>,
    things: Seq<Option<nat>>,
    before: Seq<int>,
    k: int,
)
    requires
        0 <= k <= things.len(),
        starts.len() == things.len() + 1,
        before.len() == things.len() + 1,
        forall|i: int|
            0 <= i < things.len() ==> {
                &&& wasm_format::import(bytes, #[trigger] starts[i]) == Some(
                    (things[i], starts[i + 1]),
                )
                &&& before[i + 1] == before[i] + (if things[i] is Some {
                    1int
                } else {
                    0
                })
            },
    ensures
        wasm_format::imported_functions(bytes, starts[k], (things.len() - k) as nat) matches Some(
            found,
        ) && {
            &&& found.len() == before.last() - before[k]
            &&& forall|i: int|
                k <= i < things.len() ==> (#[trigger] things[i] matches Some(index) ==> 0
                    <= before[i] - before[k] < found.len() && found[before[i] - before[k]] == index)
        },
    decreases things.len() - k,
{
    if k < things.len() {
        lemma_imports(bytes, starts, things, before, k + 1);
        assert(wasm_format::import(bytes, starts[k]) == Some((things[k], starts[k + 1])));
        let tail = wasm_format::imported_functions(
            bytes,
            starts[k + 1],
            (things.len() - k - 1) as nat,
        )->0;
        let found = wasm_format::imported_functions(bytes, starts[k], (things.len() - k) as nat)->0;
        if things[k] is Some {
            assert(found == seq![things[k]->0] + tail);
        } else {
            assert(found == tail);
        }
    }
}

proof fn lemma_no_more_imports(
    bytes: Seq<u8>,
    starts: Seq<int>,
    things: Seq<Option<nat>>,
    n: nat,
    k: int,
)
    requires
        0 <= k <= things.len() < n,
        starts.len() == things.len() + 1,
        forall|i: int|
            0 <= i < things.len() ==> wasm_format::import(bytes, #[trigger] starts[i]) == Some(
                (things[i], starts[i + 1]),
            ),
        wasm_format::import(bytes, starts.last()) is None,
    ensures
        wasm_format::imported_functions(bytes, starts[k], (n - k) as nat) is None,
    decreases things.len() - k,
{
    if k < things.len() {
        lemma_no_more_imports(bytes, starts, things, n, k + 1);
        assert(wasm_format::import(bytes, starts[k]) == Some((things[k], starts[k + 1])));
    }
}

/// Bodies that follow each other are all read, however many there are, each with all of its bytes. If
/// what follows them is no body, no longer list can be read.
pub proof fn law_every_body_is_read(
    bytes: Seq<u8>,
    starts: Seq<int>,
    sizes: Seq<nat>,
    insides: Seq<int>,
)
    requires
        starts.len() == sizes.len() + 1,
        insides.len() == sizes.len(),
        forall|i: int|
            0 <= i < sizes.len() ==> {
                &&& wasm_format::number(bytes, #[trigger] starts[i]) == Some(
                    (sizes[i], insides[i]),
                )
                &&& starts[i + 1] == insides[i] + sizes[i]
                &&& starts[i + 1] <= bytes.len()
            },
    ensures
        wasm_format::bodies(bytes, starts[0], sizes.len()) == Some(
            Seq::new(sizes.len(), |i: int| bytes.subrange(insides[i], starts[i + 1])),
        ),
        (match wasm_format::number(bytes, starts.last()) {
            Some((size, inside)) => inside + size > bytes.len(),
            None => true,
        }) ==> forall|n: nat|
            n > sizes.len() ==> #[trigger] wasm_format::bodies(bytes, starts[0], n) is None,
    decreases sizes.len(),
{
    let all = Seq::new(sizes.len(), |i: int| bytes.subrange(insides[i], starts[i + 1]));
    if sizes.len() > 0 {
        let rest = starts.drop_first();
        let rest_sizes = sizes.drop_first();
        let rest_insides = insides.drop_first();
        assert forall|i: int| 0 <= i < rest_sizes.len() implies {
            &&& wasm_format::number(bytes, #[trigger] rest[i]) == Some(
                (rest_sizes[i], rest_insides[i]),
            )
            &&& rest[i + 1] == rest_insides[i] + rest_sizes[i]
            &&& rest[i + 1] <= bytes.len()
        } by {
            assert(rest[i] == starts[i + 1]);
        }
        law_every_body_is_read(bytes, rest, rest_sizes, rest_insides);
        let others = Seq::new(
            rest_sizes.len(),
            |i: int| bytes.subrange(rest_insides[i], rest[i + 1]),
        );
        assert(wasm_format::number(bytes, starts[0]) == Some((sizes[0], insides[0])));
        assert(seq![bytes.subrange(insides[0], starts[1])] + others =~= all);
        let nothing_more = match wasm_format::number(bytes, starts.last()) {
            Some((size, inside)) => inside + size > bytes.len(),
            None => true,
        };
        assert forall|n: nat|
            n > sizes.len() && nothing_more implies #[trigger] wasm_format::bodies(
            bytes,
            starts[0],
            n,
        ) is None by {
            assert(wasm_format::bodies(bytes, rest[0], (n - 1) as nat) is None);
        }
    } else {
        assert(all =~= Seq::empty());
    }
}

/// The groups of locals of a body are all counted, however many there are and however many locals each
/// has, and the instructions begin behind the last of them. `sums[i]` is how many locals the groups before
/// `i` have.
pub proof fn law_every_group_of_locals_is_counted(
    body: Seq<u8>,
    n: nat,
    starts: Seq<int>,
    sums: Seq<nat>,
)
    requires
        starts.len() == n + 1,
        sums.len() == n + 1,
        sums[0] == 0,
        wasm_format::number(body, 0) == Some((n, starts[0])),
        forall|i: int|
            0 <= i < n ==> {
                &&& wasm_format::number(body, #[trigger] starts[i]) matches Some((count, end))
                &&& end < body.len()
                &&& starts[i + 1] == end + 1
                &&& sums[i + 1] == sums[i] + count
            },
    ensures
        wasm_format::declared_locals(body) == Some((sums.last(), starts.last())),
{
    lemma_groups(body, n, starts, sums, 0);
}

proof fn lemma_groups(body: Seq<u8>, n: nat, starts: Seq<int>, sums: Seq<nat>, k: int)
    requires
        0 <= k <= n,
        starts.len() == n + 1,
        sums.len() == n + 1,
        forall|i: int|
            0 <= i < n ==> {
                &&& wasm_format::number(body, #[trigger] starts[i]) matches Some((count, end))
                &&& end < body.len()
                &&& starts[i + 1] == end + 1
                &&& sums[i + 1] == sums[i] + count
            },
    ensures
        wasm_format::group_sum(body, starts[k], (n - k) as nat) matches Some((sum, end)) && sums[k]
            + sum == sums.last() && end == starts.last(),
    decreases n - k,
{
    if k < n {
        lemma_groups(body, n, starts, sums, k + 1);
        assert(wasm_format::number(body, starts[k]) is Some);
    }
}

/// A body whose groups of locals cannot all be read, with their types, tells no number of locals.
pub proof fn law_cut_groups_of_locals_are_not_counted(
    body: Seq<u8>,
    n: nat,
    starts: Seq<int>,
    k: int,
)
    requires
        0 <= k < n,
        starts.len() == k + 1,
        wasm_format::number(body, 0) == Some((n, starts[0])),
        forall|i: int|
            0 <= i < k ==> {
                &&& wasm_format::number(body, #[trigger] starts[i]) matches Some((_, end))
                &&& end < body.len()
                &&& starts[i + 1] == end + 1
            },
        match wasm_format::number(body, starts[k]) {
            Some((_, end)) => end >= body.len(),
            None => true,
        },
    ensures
        wasm_format::declared_locals(body) is None,
{
    lemma_cut_groups(body, n, starts, k, 0);
}

proof fn lemma_cut_groups(body: Seq<u8>, n: nat, starts: Seq<int>, k: int, j: int)
    requires
        0 <= j <= k < n,
        starts.len() == k + 1,
        forall|i: int|
            0 <= i < k ==> {
                &&& wasm_format::number(body, #[trigger] starts[i]) matches Some((_, end))
                &&& end < body.len()
                &&& starts[i + 1] == end + 1
            },
        match wasm_format::number(body, starts[k]) {
            Some((_, end)) => end >= body.len(),
            None => true,
        },
    ensures
        wasm_format::group_sum(body, starts[j], (n - j) as nat) is None,
    decreases k - j,
{
    if j < k {
        lemma_cut_groups(body, n, starts, k, j + 1);
        assert(wasm_format::number(body, starts[j]) is Some);
    }
}

/// The types, the imports, the functions and the bodies of a module are the lists in the sections of
/// the kinds 1, 2, 3 and 10, the first section beginning behind the header of eight bytes. A module tells
/// them exactly if the section is found, begins with the length of its list, and the list can be read.
pub proof fn law_module_tells_its_lists(code: Seq<u8>)
    ensures
        wasm_format::module_types(code) == (match wasm_format::section(code, 8, 1) {
            Some(payload) => match wasm_format::number(payload, 0) {
                Some((n, at)) => wasm_format::function_types(payload, at, n),
                None => None,
            },
            None => None,
        }),
        wasm_format::module_imports(code) == (match wasm_format::section(code, 8, 2) {
            Some(payload) => match wasm_format::number(payload, 0) {
                Some((n, at)) => wasm_format::imported_functions(payload, at, n),
                None => None,
            },
            None => None,
        }),
        wasm_format::module_functions(code) == (match wasm_format::section(code, 8, 3) {
            Some(payload) => match wasm_format::number(payload, 0) {
                Some((n, at)) => wasm_format::numbers(payload, at, n),
                None => None,
            },
            None => None,
        }),
        wasm_format::module_bodies(code) == (match wasm_format::section(code, 8, 10) {
            Some(payload) => match wasm_format::number(payload, 0) {
                Some((n, at)) => wasm_format::bodies(payload, at, n),
                None => None,
            },
            None => None,
        }),
{
}

/// Each numeric instruction takes the operands of its kind, two or one, and gives one value. `drop` takes
/// a value, `select` takes three and gives one, `nop` does nothing. There are no instructions besides
/// those of the format.
pub proof fn law_numeric_instructions_take_their_operands(
    types: Seq<Signature>,
    functions: Seq<nat>,
    body: Seq<u8>,
    at: int,
)
    requires
        0 <= at < body.len(),
    ensures
        (0x46 <= body[at] <= 0x4f || 0x51 <= body[at] <= 0x66 || 0x6a <= body[at] <= 0x78 || 0x7c <= body[at] <= 0x8a || 0x92 <= body[at] <= 0x98 || 0xa0 <= body[at] <= 0xa6) ==> wasm_exits::instruction(types, functions, body, at) == Some(
            (Op::Plain { takes: 2, gives: true }, at + 1),
        ),
        (body[at] == 0x45 || body[at] == 0x50 || 0x67 <= body[at] <= 0x69 || 0x79 <= body[at] <= 0x7b || 0x8b <= body[at] <= 0x91 || 0x99 <= body[at] <= 0x9f || 0xa7 <= body[at] <= 0xbf) ==> wasm_exits::instruction(types, functions, body, at) == Some(
            (Op::Plain { takes: 1, gives: true }, at + 1),
        ),
        body[at] == 0x1a ==> wasm_exits::instruction(types, functions, body, at) == Some(
            (Op::Plain { takes: 1, gives: false }, at + 1),
        ),
        body[at] == 0x1b ==> wasm_exits::instruction(types, functions, body, at) == Some(
            (Op::Plain { takes: 3, gives: true }, at + 1),
        ),
        body[at] == 0x01 ==> wasm_exits::instruction(types, functions, body, at) == Some(
            (Op::Plain { takes: 0, gives: false }, at + 1),
        ),
        (0x06 <= body[at] <= 0x0a || 0x12 <= body[at] <= 0x19 || 0x1c <= body[at] <= 0x1f || 0x25 <= body[at] <= 0x27 || 0xc0 <= body[at] <= 0xff) ==> wasm_exits::instruction(types, functions, body, at) is None,
{
}

/// Constants give a value, however long they are written. Variables are read and written by their
/// number, and the memory at an offset: reading gives a value, writing takes what is written, and an
/// address is taken.
pub proof fn law_constants_variables_and_memory(
    types: Seq<Signature>,
    functions: Seq<nat>,
    body: Seq<u8>,
    at: int,
)
    requires
        0 <= at < body.len(),
    ensures
        body[at] == 0x41 ==> wasm_exits::instruction(types, functions, body, at) == (match wasm_format::leb(body, at + 1, 5) {
            Some((_, end)) => Some(((Op::Plain { takes: 0, gives: true }), end)),
            None => None,
        }),
        body[at] == 0x42 ==> wasm_exits::instruction(types, functions, body, at) == (match wasm_format::leb(body, at + 1, 10) {
            Some((_, end)) => Some(((Op::Plain { takes: 0, gives: true }), end)),
            None => None,
        }),
        body[at] == 0x43 ==> wasm_exits::instruction(types, functions, body, at) == (if at + 5 <= body.len() {
            Some(((Op::Plain { takes: 0, gives: true }), at + 5))
        } else {
            None
        }),
        body[at] == 0x44 ==> wasm_exits::instruction(types, functions, body, at) == (if at + 9 <= body.len() {
            Some(((Op::Plain { takes: 0, gives: true }), at + 9))
        } else {
            None
        }),
        (body[at] == 0x20 || body[at] == 0x23) ==> wasm_exits::instruction(types, functions, body, at) == (match wasm_format::number(body, at + 1) {
            Some((_, end)) => Some(((Op::Plain { takes: 0, gives: true }), end)),
            None => None,
        }),
        (body[at] == 0x21 || body[at] == 0x24) ==> wasm_exits::instruction(types, functions, body, at) == (match wasm_format::number(body, at + 1) {
            Some((_, end)) => Some(((Op::Plain { takes: 1, gives: false }), end)),
            None => None,
        }),
        body[at] == 0x22 ==> wasm_exits::instruction(types, functions, body, at) == (match wasm_format::number(body, at + 1) {
            Some((_, end)) => Some(((Op::Plain { takes: 1, gives: true }), end)),
            None => None,
        }),
        0x28 <= body[at] <= 0x35 ==> wasm_exits::instruction(types, functions, body, at) == (match wasm_format::number(body, at + 1) {
            Some((_, next)) => match wasm_format::number(body, next) {
                Some((_, end)) => Some(((Op::Plain { takes: 1, gives: true }), end)),
                None => None,
            },
            None => None,
        }),
        0x36 <= body[at] <= 0x3e ==> wasm_exits::instruction(types, functions, body, at) == (match wasm_format::number(body, at + 1) {
            Some((_, next)) => match wasm_format::number(body, next) {
                Some((_, end)) => Some(((Op::Plain { takes: 2, gives: false }), end)),
                None => None,
            },
            None => None,
        }),
        body[at] == 0x3f ==> wasm_exits::instruction(types, functions, body, at) == (if at + 2 <= body.len() {
            Some(((Op::Plain { takes: 0, gives: true }), at + 2))
        } else {
            None
        }),
        body[at] == 0x40 ==> wasm_exits::instruction(types, functions, body, at) == (if at + 2 <= body.len() {
            Some(((Op::Plain { takes: 1, gives: true }), at + 2))
        } else {
            None
        }),
{
    reveal_with_fuel(wasm_exits::numbers_end, 3);
}

/// A call takes as many values as the called function has parameters, however many, and gives its
/// value, if it has one. A call through a table takes the index of the function besides.
pub proof fn law_calls_take_the_parameters(
    types: Seq<Signature>,
    functions: Seq<nat>,
    body: Seq<u8>,
    at: int,
)
    requires
        0 <= at < body.len(),
        forall|i: int| 0 <= i < types.len() ==> (#[trigger] types[i]).params <= u32::MAX,
    ensures
        body[at] == 0x10 ==> (match wasm_format::number(body, at + 1) {
            Some((function, end)) => if function < functions.len() && functions[function as int]
                < types.len() {
                wasm_exits::instruction(types, functions, body, at) matches Some((op, to)) && {
                    &&& to == end
                    &&& op matches Op::Plain { takes, gives }
                    &&& takes == types[functions[function as int] as int].params
                    &&& gives == types[functions[function as int] as int].value
                }
            } else {
                wasm_exits::instruction(types, functions, body, at) is None
            },
            None => wasm_exits::instruction(types, functions, body, at) is None,
        }),
        body[at] == 0x11 ==> (match wasm_format::number(body, at + 1) {
            Some((index, end)) => if index < types.len() && end + 1 <= body.len() {
                wasm_exits::instruction(types, functions, body, at) matches Some((op, to)) && {
                    &&& to == end + 1
                    &&& op matches Op::Plain { takes, gives }
                    &&& takes == types[index as int].params + 1
                    &&& gives == types[index as int].value
                }
            } else {
                wasm_exits::instruction(types, functions, body, at) is None
            },
            None => wasm_exits::instruction(types, functions, body, at) is None,
        }),
{
}

/// The instructions of control: `block`, `loop` and `if` open a block, which gives a value unless its type
/// is the empty one, whose low seven bits are 64; `else` and `end` stand by themselves; `br`, `br_table`
/// and `unreachable` never pass control on; `br_if` may; `return` leaves the function.
pub proof fn law_instructions_of_control(
    types: Seq<Signature>,
    functions: Seq<nat>,
    body: Seq<u8>,
    at: int,
)
    requires
        0 <= at < body.len(),
    ensures
        body[at] == 0x00 ==> wasm_exits::instruction(types, functions, body, at) == Some((Op::Leave, at + 1)),
        body[at] == 0x05 ==> wasm_exits::instruction(types, functions, body, at) == Some((Op::Else, at + 1)),
        body[at] == 0x0b ==> wasm_exits::instruction(types, functions, body, at) == Some((Op::End, at + 1)),
        body[at] == 0x0f ==> wasm_exits::instruction(types, functions, body, at) == Some((Op::Return, at + 1)),
        0x02 <= body[at] <= 0x04 ==> (match wasm_format::leb(body, at + 1, 5) {
            Some((_, end)) => wasm_exits::instruction(types, functions, body, at) matches Some((op, to)) && {
                &&& to == end
                &&& op matches Op::Open { takes, is_loop, gives }
                &&& takes == (if body[at] == 0x04 {
                    1int
                } else {
                    0
                })
                &&& is_loop == (body[at] == 0x03)
                &&& gives == (body[at + 1] % 128 != 64)
            },
            None => wasm_exits::instruction(types, functions, body, at) is None,
        }),
        body[at] == 0x0c ==> wasm_exits::instruction(types, functions, body, at) == (match wasm_format::number(body, at + 1) {
            Some((_, end)) => Some((Op::Leave, end)),
            None => None,
        }),
        body[at] == 0x0d ==> (match wasm_format::number(body, at + 1) {
            Some((depth, end)) => wasm_exits::instruction(types, functions, body, at) matches Some((op, to)) && {
                &&& to == end
                &&& op matches Op::BranchIf { depth: d }
                &&& d == depth
            },
            None => wasm_exits::instruction(types, functions, body, at) is None,
        }),
        body[at] == 0x0e ==> wasm_exits::instruction(types, functions, body, at) == (match wasm_format::number(body, at + 1) {
            Some((n, next)) => match wasm_exits::numbers_end(body, next, n + 1) {
                Some(end) => Some((Op::Leave, end)),
                None => None,
            },
            None => None,
        }),
{
    reveal_with_fuel(wasm_exits::numbers_end, 3);
}

/// How an instruction changes the height of the stack. What it takes is taken from the values of the
/// innermost block: never from below what was there when the block was opened. A branch that brings a
/// value leaves that value where it was.
pub proof fn law_height_after_an_instruction(op: Op, height: nat, blocks: Seq<Block>)
    requires
        blocks.len() > 0,
    ensures
        op matches Op::Plain { takes, gives } ==> (wasm_exits::step(op, height, blocks) matches Some(
            (after, open),
        ) && {
            &&& open == blocks
            &&& height - takes >= blocks.last().floor ==> after == height - takes + (if gives {
                1int
            } else {
                0
            })
            &&& height - takes < blocks.last().floor ==> after == blocks.last().floor + (if gives {
                1int
            } else {
                0
            })
        }),
        op matches Op::Open { takes, is_loop, gives } ==> (wasm_exits::step(
            op,
            height,
            blocks,
        ) matches Some((after, open)) && {
            &&& height - takes >= blocks.last().floor ==> after == height - takes
            &&& height - takes < blocks.last().floor ==> after == blocks.last().floor
            &&& open.len() == blocks.len() + 1
            &&& open.drop_last() == blocks
            &&& open.last().floor == after
            &&& open.last().gives == gives
            &&& open.last().brings == (gives && !is_loop)
            &&& !open.last().dead
        }),
        op is Else ==> (wasm_exits::step(op, height, blocks) matches Some((after, open)) && {
            &&& after == blocks.last().floor
            &&& open.len() == blocks.len()
            &&& open.drop_last() == blocks.drop_last()
            &&& open.last().floor == blocks.last().floor
            &&& open.last().gives == blocks.last().gives
            &&& open.last().brings == blocks.last().brings
            &&& !open.last().dead
        }),
        op is End ==> (wasm_exits::step(op, height, blocks) matches Some((after, open)) && {
            &&& after == blocks.last().floor + (if blocks.last().gives {
                1int
            } else {
                0
            })
            &&& open == blocks.drop_last()
        }),
        op is Leave || op is Return ==> (wasm_exits::step(op, height, blocks) matches Some(
            (after, open),
        ) && {
            &&& after == blocks.last().floor
            &&& open.len() == blocks.len()
            &&& open.drop_last() == blocks.drop_last()
            &&& open.last().floor == blocks.last().floor
            &&& open.last().gives == blocks.last().gives
            &&& open.last().brings == blocks.last().brings
            &&& open.last().dead
        }),
        op matches Op::BranchIf { depth } ==> {
            &&& depth >= blocks.len() ==> wasm_exits::step(op, height, blocks) is None
            &&& depth < blocks.len() ==> (wasm_exits::step(op, height, blocks) matches Some(
                (after, open),
            ) && {
                &&& open == blocks
                &&& !blocks[blocks.len() - 1 - depth].brings && height > blocks.last().floor ==> after
                    == height - 1
                &&& !blocks[blocks.len() - 1 - depth].brings && height <= blocks.last().floor
                    ==> after == blocks.last().floor
                &&& blocks[blocks.len() - 1 - depth].brings && height >= blocks.last().floor + 2
                    ==> after == height - 1
                &&& blocks[blocks.len() - 1 - depth].brings && height < blocks.last().floor + 2
                    ==> after == blocks.last().floor + 1
            })
        },
{
    match op {
        Op::Open { takes, is_loop, gives } => {
            let (_, open) = wasm_exits::step(op, height, blocks)->0;
            assert(open.drop_last() =~= blocks);
        },
        Op::Else | Op::Leave | Op::Return => {
            let (_, open) = wasm_exits::step(op, height, blocks)->0;
            assert(open.drop_last() =~= blocks.drop_last());
        },
        _ => {},
    }
}

/// The states of a function from its instruction at `positions[0]` on, up to its end: before the
/// instruction `ops[i]`, which stands at `positions[i]`, so many values are on the stack and these blocks
/// are open.
pub open spec fn is_trace(
    types: Seq<Signature>,
    functions: Seq<nat>,
    body: Seq<u8>,
    ops: Seq<Op>,
    positions: Seq<int>,
    heights: Seq<nat>,
    blocks: Seq<Seq<Block>>,
) -> bool {
    &&& ops.len() > 0
    &&& positions.len() == ops.len() + 1
    &&& heights.len() == ops.len()
    &&& blocks.len() == ops.len()
    &&& forall|i: int|
        0 <= i < ops.len() ==> {
            &&& wasm_exits::instruction(types, functions, body, #[trigger] positions[i]) == Some(
                (ops[i], positions[i + 1]),
            )
            &&& positions[i] < positions[i + 1] <= body.len()
        }
    &&& forall|i: int|
        0 <= i < ops.len() - 1 ==> {
            &&& !(ops[i] is End && blocks[i].len() == 1)
            &&& #[trigger] wasm_exits::step(ops[i], heights[i], blocks[i]) == Some(
                (heights[i + 1], blocks[i + 1]),
            )
        }
    &&& ops.last() is End
    &&& blocks.last().len() == 1
}

/// The ways out of a function are its returns and its end. All of them are looked at, however long the
/// function is: it fits exactly if at each of them that control gets to, no more values than there is
/// room for are left behind besides the one that is returned.
pub proof fn law_every_way_out_is_looked_at(
    types: Seq<Signature>,
    functions: Seq<nat>,
    body: Seq<u8>,
    room: nat,
    ops: Seq<Op>,
    positions: Seq<int>,
    heights: Seq<nat>,
    blocks: Seq<Seq<Block>>,
)
    requires
        is_trace(types, functions, body, ops, positions, heights, blocks),
    ensures
        wasm_exits::exits_fit(types, functions, body, positions[0], room, heights[0], blocks[0])
            <==> (forall|i: int|
            0 <= i < ops.len() && (#[trigger] ops[i] is Return || i == ops.len() - 1) ==> (
            blocks[i].last().dead || heights[i] <= room + (if blocks[i][0].gives {
                1int
            } else {
                0
            }))),
{
    lemma_ways_out(types, functions, body, room, ops, positions, heights, blocks, 0);
}

proof fn lemma_ways_out(
    types: Seq<Signature>,
    functions: Seq<nat>,
    body: Seq<u8>,
    room: nat,
    ops: Seq<Op>,
    positions: Seq<int>,
    heights: Seq<nat>,
    blocks: Seq<Seq<Block>>,
    k: int,
)
    requires
        is_trace(types, functions, body, ops, positions, heights, blocks),
        0 <= k < ops.len(),
    ensures
        wasm_exits::exits_fit(types, functions, body, positions[k], room, heights[k], blocks[k])
            <==> (forall|i: int|
            k <= i < ops.len() && (#[trigger] ops[i] is Return || i == ops.len() - 1) ==> (
            blocks[i].last().dead || heights[i] <= room + (if blocks[i][0].gives {
                1int
            } else {
                0
            }))),
    decreases ops.len() - k,
{
    let op = ops[k];
    assert(wasm_exits::instruction(types, functions, body, positions[k]) == Some(
        (op, positions[k + 1]),
    ));
    if k < ops.len() - 1 {
        lemma_ways_out(types, functions, body, room, ops, positions, heights, blocks, k + 1);
        assert(wasm_exits::step(ops[k], heights[k], blocks[k]) == Some(
            (heights[k + 1], blocks[k + 1]),
        ));
    }
}

/// A function whose instructions cannot be read, or are not possible, up to its end does not fit into any
/// room: the instructions before `k` can be read, and the one at `k` cannot, or names a block that is not
/// open.
pub proof fn law_unreadable_function_does_not_fit(
    types: Seq<Signature>,
    functions: Seq<nat>,
    body: Seq<u8>,
    room: nat,
    ops: Seq<Op>,
    positions: Seq<int>,
    heights: Seq<nat>,
    blocks: Seq<Seq<Block>>,
    k: int,
)
    requires
        0 <= k,
        ops.len() == k,
        positions.len() == k + 1,
        heights.len() == k + 1,
        blocks.len() == k + 1,
        blocks[k].len() > 0,
        forall|i: int|
            0 <= i < k ==> {
                &&& wasm_exits::instruction(types, functions, body, #[trigger] positions[i]) == Some(
                    (ops[i], positions[i + 1]),
                )
                &&& !(ops[i] is End && blocks[i].len() == 1)
                &&& wasm_exits::step(ops[i], heights[i], blocks[i]) == Some(
                    (heights[i + 1], blocks[i + 1]),
                )
            },
        match wasm_exits::instruction(types, functions, body, positions[k]) {
            Some((op, _)) => op matches Op::BranchIf { depth } && depth >= blocks[k].len(),
            None => true,
        },
    ensures
        !wasm_exits::exits_fit(types, functions, body, positions[0], room, heights[0], blocks[0]),
    decreases k,
{
    if k > 0 {
        assert(wasm_exits::instruction(types, functions, body, positions[0]) == Some(
            (ops[0], positions[1]),
        ));
        let rest_ops = ops.drop_first();
        let rest = positions.drop_first();
        let rest_heights = heights.drop_first();
        let rest_blocks = blocks.drop_first();
        assert forall|i: int| 0 <= i < k - 1 implies {
            &&& wasm_exits::instruction(types, functions, body, #[trigger] rest[i]) == Some(
                (rest_ops[i], rest[i + 1]),
            )
            &&& !(rest_ops[i] is End && rest_blocks[i].len() == 1)
            &&& wasm_exits::step(rest_ops[i], rest_heights[i], rest_blocks[i]) == Some(
                (rest_heights[i + 1], rest_blocks[i + 1]),
            )
        } by {
            assert(rest[i] == positions[i + 1]);
        }
        law_unreadable_function_does_not_fit(
            types,
            functions,
            body,
            room,
            rest_ops,
            rest,
            rest_heights,
            rest_blocks,
            k - 1,
        );
    }
}

/// A function that fits into some room fits into more.
pub proof fn law_more_room_is_enough(
    types: Seq<Signature>,
    functions: Seq<nat>,
    body: Seq<u8>,
    at: int,
    room: nat,
    more: nat,
    height: nat,
    blocks: Seq<Block>,
)
    requires
        room <= more,
        wasm_exits::exits_fit(types, functions, body, at, room, height, blocks),
    ensures
        wasm_exits::exits_fit(types, functions, body, at, more, height, blocks),
    decreases body.len() - at,
{
    let (op, end) = wasm_exits::instruction(types, functions, body, at)->0;
    if !(op is End && blocks.len() == 1) {
        let (next, open) = wasm_exits::step(op, height, blocks)->0;
        law_more_room_is_enough(types, functions, body, end, room, more, next, open);
    }
}

/// A function that puts `n` constants on its stack and then returns leaves behind `n` values, or one less
/// if it returns one of them. So it fits exactly if there is room for so many, for every `n`.
pub proof fn law_constants_on_the_stack_are_counted(
    types: Seq<Signature>,
    functions: Seq<nat>,
    body: Seq<u8>,
    at: int,
    n: nat,
    value: bool,
    room: nat,
)
    requires
        0 <= at,
        at + 2 * n + 2 <= body.len(),
        forall|i: int|
            0 <= i < n ==> {
                &&& #[trigger] body[at + 2 * i] == 0x41
                &&& body[at + 2 * i + 1] < 128
            },
        body[at + 2 * n] == 0x0f,
        body[at + 2 * n + 1] == 0x0b,
    ensures
        wasm_exits::exits_fit(
            types,
            functions,
            body,
            at,
            room,
            0,
            seq![Block { floor: 0, gives: value, brings: value, dead: false }],
        ) <==> n <= room + (if value {
            1int
        } else {
            0
        }),
{
    lemma_constants(types, functions, body, at, n, value, room, 0);
}

proof fn lemma_constants(
    types: Seq<Signature>,
    functions: Seq<nat>,
    body: Seq<u8>,
    at: int,
    n: nat,
    value: bool,
    room: nat,
    k: nat,
)
    requires
        0 <= at,
        k <= n,
        at + 2 * n + 2 <= body.len(),
        forall|i: int|
            0 <= i < n ==> {
                &&& #[trigger] body[at + 2 * i] == 0x41
                &&& body[at + 2 * i + 1] < 128
            },
        body[at + 2 * n] == 0x0f,
        body[at + 2 * n + 1] == 0x0b,
    ensures
        wasm_exits::exits_fit(
            types,
            functions,
            body,
            at + 2 * k,
            room,
            k,
            seq![Block { floor: 0, gives: value, brings: value, dead: false }],
        ) <==> n <= room + (if value {
            1int
        } else {
            0
        }),
    decreases n - k,
{
    let blocks = seq![Block { floor: 0, gives: value, brings: value, dead: false }];
    let here = at + 2 * k;
    law_instructions_of_control(types, functions, body, here);
    law_constants_variables_and_memory(types, functions, body, here);
    if k < n {
        lemma_constants(types, functions, body, at, n, value, room, k + 1);
        assert(body[at + 2 * k] == 0x41);
        assert(wasm_format::leb(body, here + 1, 5) == Some((body[here + 1] as nat, here + 2)));
        assert(wasm_exits::step(Op::Plain { takes: 0, gives: true }, k, blocks) == Some(
            ((k + 1) as nat, blocks),
        ));
    } else {
        law_instructions_of_control(types, functions, body, here + 1);
        let left = wasm_exits::left_off(blocks);
        assert(left.len() == 1 && left.last().dead);
        assert(wasm_exits::exits_fit(types, functions, body, here + 1, room, 0, left));
        assert(wasm_exits::step(Op::Return, k, blocks) == Some((0nat, left)));
    }
}

/// Whether a function can be left: where its parameters, its locals and a full stack of 16384 values can
/// be counted in 32 bits, whatever its instructions are; where its parameters and locals alone cannot be
/// counted, never; and in between as its ways out say, with the room that the parameters and locals
/// leave.
pub proof fn law_parameters_and_locals_leave_the_room(
    types: Seq<Signature>,
    functions: Seq<nat>,
    signature: Signature,
    body: Seq<u8>,
)
    ensures
        wasm_format::number(body, 0) is None ==> wasm_format::declared_locals(body) is None,
        wasm_format::declared_locals(body) is None ==> !wasm_exits::body_fits(
            types,
            functions,
            signature,
            body,
        ),
        wasm_format::declared_locals(body) matches Some((declared, at)) ==> {
            &&& signature.params + declared <= 4294950911 ==> wasm_exits::body_fits(
                types,
                functions,
                signature,
                body,
            )
            &&& signature.params + declared > 4294967295 ==> !wasm_exits::body_fits(
                types,
                functions,
                signature,
                body,
            )
            &&& 4294950911 < signature.params + declared <= 4294967295 ==> (
            wasm_exits::body_fits(types, functions, signature, body) <==> wasm_exits::exits_fit(
                types,
                functions,
                body,
                at,
                (4294967295 - signature.params - declared) as nat,
                0,
                seq![
                    Block {
                        floor: 0,
                        gives: signature.value,
                        brings: signature.value,
                        dead: false,
                    },
                ],
            ))
        },
{
}

/// A module is refused only for a function that cannot be left, one that has no type, or lists that
/// cannot be read: how many functions there are does not matter. The functions that can be called are
/// the imported ones and then the module's own.
pub proof fn law_each_function_is_taken_by_itself(
    code: Seq<u8>,
    types: Seq<Signature>,
    imports: Seq<nat>,
    own: Seq<nat>,
    bodies: Seq<Seq<u8>>,
    i: int,
)
    requires
        wasm_format::module_types(code) == Some(types),
        wasm_format::module_imports(code) == Some(imports),
        wasm_format::module_functions(code) == Some(own),
        wasm_format::module_bodies(code) == Some(bodies),
    ensures
        wasm_exits::few_locals(code) && 0 <= i < bodies.len() ==> {
            &&& i < own.len()
            &&& own[i] < types.len()
            &&& wasm_exits::body_fits(types, imports + own, types[own[i] as int], bodies[i])
        },
        !wasm_exits::few_locals(code) ==> exists|j: int|
            0 <= j < bodies.len() && (j >= own.len() || own[j] >= types.len()
                || !wasm_exits::body_fits(
                types,
                imports + own,
                types[own[j] as int],
                #[trigger] bodies[j],
            )),
{
    assert(wasm_format::module_types(code)->0 == types);
    assert(wasm_format::module_imports(code)->0 == imports);
    assert(wasm_format::module_functions(code)->0 == own);
    assert(wasm_format::module_bodies(code)->0 == bodies);
    if wasm_exits::few_locals(code) && 0 <= i < bodies.len() {
        assert(wasm_exits::function_fits(types, imports, own, bodies, i));
    }
    if !wasm_exits::few_locals(code) {
        let j = choose|j: int|
            0 <= j < bodies.len() && !#[trigger] wasm_exits::function_fits(
                types,
                imports,
                own,
                bodies,
                j,
            );
        assert(!wasm_exits::function_fits(types, imports, own, bodies, j));
        assert(bodies[j] == bodies[j]);
    }
}

/// A valid module is taken, whatever the number of its functions, if its lists can be read, each body
/// belongs to a function with a type, and the parameters and the locals of each function leave room for
/// a full stack of 16384 values in 32 bits.
pub proof fn law_valid_module_is_taken<V>(
    cache: Map<u64, native_executor::RunWith<V>>,
    code: Seq<u8>,
    types: Seq<Signature>,
    imports: Seq<nat>,
    own: Seq<nat>,
    bodies: Seq<Seq<u8>>,
)
    requires
        wasm_format::module_types(code) == Some(types),
        wasm_format::module_imports(code) == Some(imports),
        wasm_format::module_functions(code) == Some(own),
        wasm_format::module_bodies(code) == Some(bodies),
        forall|i: int|
            0 <= i < bodies.len() ==> {
                &&& i < own.len()
                &&& own[i] < types.len()
                &&& wasm_format::declared_locals(#[trigger] bodies[i]) matches Some((declared, _))
                &&& types[own[i] as int].params + declared + 16384 <= u32::MAX
            },
    ensures
        wasm_exits::few_locals(code),
        crate::wasm::wasm_module(code) is Some ==> native_executor::can_run(cache, code),
{
    assert(wasm_format::module_types(code)->0 == types);
    assert(wasm_format::module_imports(code)->0 == imports);
    assert(wasm_format::module_functions(code)->0 == own);
    assert(wasm_format::module_bodies(code)->0 == bodies);
    assert forall|i: int| 0 <= i < bodies.len() implies #[trigger] wasm_exits::function_fits(
        types,
        imports,
        own,
        bodies,
        i,
    ) by {
        assert(wasm_format::declared_locals(bodies[i]) is Some);
        law_parameters_and_locals_leave_the_room(
            types,
            imports + own,
            types[own[i] as int],
            bodies[i],
        );
    }
}

/// A valid module is taken, however many sections, types, functions and bytes it has: its sections follow
/// each other from the eighth byte to its end, among them one with the types, one with the functions and
/// one with the bodies, and none with imports; each of the three is a list whose length comes first; each
/// body belongs to a function with a type; and the parameters and the locals of each function leave room
/// for a full stack in 32 bits.
pub proof fn law_module_laid_out_in_sections_is_taken<V>(
    cache: Map<u64, native_executor::RunWith<V>>,
    code: Seq<u8>,
    starts: Seq<int>,
    insides: Seq<int>,
    t: int,
    f: int,
    b: int,
    type_starts: Seq<int>,
    types: Seq<Signature>,
    own_starts: Seq<int>,
    own: Seq<nat>,
    body_starts: Seq<int>,
    sizes: Seq<nat>,
    body_insides: Seq<int>,
)
    requires
        starts.len() == insides.len() + 1,
        starts[0] == 8,
        starts.last() == code.len(),
        forall|i: int|
            0 <= i < insides.len() ==> {
                &&& 0 <= #[trigger] insides[i]
                &&& 0 <= starts[i] < code.len()
                &&& wasm_format::number(code, starts[i] + 1) matches Some((size, inside))
                &&& inside == insides[i]
                &&& starts[i + 1] == inside + size
                &&& starts[i + 1] <= code.len()
                &&& code[starts[i]] == 1 <==> i == t
                &&& code[starts[i]] != 2
                &&& code[starts[i]] == 3 <==> i == f
                &&& code[starts[i]] == 10 <==> i == b
            },
        0 <= t < insides.len(),
        0 <= f < insides.len(),
        0 <= b < insides.len(),
        type_starts.len() == types.len() + 1,
        wasm_format::number(code.subrange(insides[t], starts[t + 1]), 0) == Some(
            (types.len(), type_starts[0]),
        ),
        forall|i: int|
            0 <= i < types.len() ==> wasm_format::function_type(
                code.subrange(insides[t], starts[t + 1]),
                type_starts[i],
            ) == Some((#[trigger] types[i], type_starts[i + 1])),
        own_starts.len() == own.len() + 1,
        wasm_format::number(code.subrange(insides[f], starts[f + 1]), 0) == Some(
            (own.len(), own_starts[0]),
        ),
        forall|i: int|
            0 <= i < own.len() ==> wasm_format::number(
                code.subrange(insides[f], starts[f + 1]),
                own_starts[i],
            ) == Some((#[trigger] own[i], own_starts[i + 1])),
        body_starts.len() == sizes.len() + 1,
        body_insides.len() == sizes.len(),
        wasm_format::number(code.subrange(insides[b], starts[b + 1]), 0) == Some(
            (sizes.len(), body_starts[0]),
        ),
        forall|i: int|
            0 <= i < sizes.len() ==> {
                &&& wasm_format::number(
                    code.subrange(insides[b], starts[b + 1]),
                    body_starts[i],
                ) == Some((#[trigger] sizes[i], body_insides[i]))
                &&& body_starts[i + 1] == body_insides[i] + sizes[i]
                &&& body_starts[i + 1] <= starts[b + 1] - insides[b]
                &&& i < own.len()
                &&& own[i] < types.len()
                &&& wasm_format::declared_locals(
                    code.subrange(insides[b], starts[b + 1]).subrange(
                        body_insides[i],
                        body_starts[i + 1],
                    ),
                ) matches Some((declared, _))
                &&& types[own[i] as int].params + declared + 16384 <= 4294967295
            },
    ensures
        wasm_exits::few_locals(code),
        crate::wasm::wasm_module(code) is Some ==> native_executor::can_run(cache, code),
{
    let type_payload = code.subrange(insides[t], starts[t + 1]);
    let own_payload = code.subrange(insides[f], starts[f + 1]);
    let body_payload = code.subrange(insides[b], starts[b + 1]);
    let imports = Seq::<nat>::empty();
    let bodies = Seq::new(
        sizes.len(),
        |i: int| body_payload.subrange(body_insides[i], body_starts[i + 1]),
    );
    assert(wasm_format::module_types(code) == Some(types)) by {
        lemma_section(code, starts, insides, 1, t);
        law_module_tells_its_lists(code);
        law_every_type_is_read(type_payload, type_starts, types);
    }
    assert(wasm_format::module_imports(code) == Some(imports)) by {
        lemma_no_section(code, starts, insides, 2);
        law_module_tells_its_lists(code);
        law_number_is_the_sum_of_its_bytes(seq![0u8], 0);
        assert(wasm_format::imported_functions(seq![0u8], 1, 0) == Some(imports));
    }
    assert(wasm_format::module_functions(code) == Some(own)) by {
        lemma_section(code, starts, insides, 3, f);
        law_module_tells_its_lists(code);
        law_every_number_is_read(own_payload, own_starts, own);
    }
    assert(wasm_format::module_bodies(code) == Some(bodies)) by {
        lemma_section(code, starts, insides, 10, b);
        law_module_tells_its_lists(code);
        assert forall|i: int| 0 <= i < sizes.len() implies {
            &&& wasm_format::number(body_payload, #[trigger] body_starts[i]) == Some(
                (sizes[i], body_insides[i]),
            )
            &&& body_starts[i + 1] == body_insides[i] + sizes[i]
            &&& body_starts[i + 1] <= body_payload.len()
        } by {}
        law_every_body_is_read(body_payload, body_starts, sizes, body_insides);
    }
    assert forall|i: int| 0 <= i < bodies.len() implies {
        &&& i < own.len()
        &&& own[i] < types.len()
        &&& wasm_format::declared_locals(#[trigger] bodies[i]) matches Some((declared, _))
        &&& types[own[i] as int].params + declared + 16384 <= u32::MAX
    } by {
        assert(sizes[i] >= 0);
    }
    law_valid_module_is_taken(cache, code, types, imports, own, bodies);
}

proof fn lemma_section(code: Seq<u8>, starts: Seq<int>, insides: Seq<int>, kind: u8, k: int)
    requires
        starts.len() == insides.len() + 1,
        starts[0] == 8,
        forall|i: int|
            0 <= i < insides.len() ==> {
                &&& 0 <= #[trigger] insides[i]
                &&& 0 <= starts[i] < code.len()
                &&& wasm_format::number(code, starts[i] + 1) matches Some((size, inside))
                &&& inside == insides[i]
                &&& starts[i + 1] == inside + size
                &&& starts[i + 1] <= code.len()
                &&& code[starts[i]] == kind <==> i == k
            },
        0 <= k < insides.len(),
    ensures
        wasm_format::section(code, 8, kind) == Some(code.subrange(insides[k], starts[k + 1])),
        0 <= insides[k] <= starts[k + 1] <= code.len(),
{
    assert(0 <= insides[k]);
    assert forall|i: int| 0 <= i < k implies {
        &&& 0 <= #[trigger] starts[i] < code.len()
        &&& code[starts[i]] != kind
        &&& wasm_format::number(code, starts[i] + 1) matches Some((size, start))
        &&& starts[i + 1] == start + size
        &&& starts[i + 1] <= code.len()
    } by {
        assert(0 <= insides[i]);
    }
    law_number_ends_with_first_small_byte(code, starts[k] + 1, 5);
    law_first_section_of_its_kind_is_found(code, kind, starts, k);
}

proof fn lemma_no_section(code: Seq<u8>, starts: Seq<int>, insides: Seq<int>, kind: u8)
    requires
        starts.len() == insides.len() + 1,
        starts[0] == 8,
        starts.last() == code.len(),
        forall|i: int|
            0 <= i < insides.len() ==> {
                &&& 0 <= #[trigger] insides[i]
                &&& 0 <= starts[i] < code.len()
                &&& wasm_format::number(code, starts[i] + 1) matches Some((size, inside))
                &&& inside == insides[i]
                &&& starts[i + 1] == inside + size
                &&& starts[i + 1] <= code.len()
                &&& code[starts[i]] != kind
            },
    ensures
        wasm_format::section(code, 8, kind) == Some(seq![0u8]),
{
    let k = insides.len() as int;
    assert(starts[k] == starts.last());
    assert forall|i: int| 0 <= i < k implies {
        &&& 0 <= #[trigger] starts[i] < code.len()
        &&& code[starts[i]] != kind
        &&& wasm_format::number(code, starts[i] + 1) matches Some((size, start))
        &&& starts[i + 1] == start + size
        &&& starts[i + 1] <= code.len()
    } by {
        assert(0 <= insides[i]);
    }
    law_first_section_of_its_kind_is_found(code, kind, starts, k);
}

/// A module whose lists cannot be read is refused.
pub proof fn law_module_without_its_lists_is_refused(code: Seq<u8>)
    ensures
        wasm_format::module_types(code) is None ==> !wasm_exits::few_locals(code),
        wasm_format::module_imports(code) is None ==> !wasm_exits::few_locals(code),
        wasm_format::module_functions(code) is None ==> !wasm_exits::few_locals(code),
        wasm_format::module_bodies(code) is None ==> !wasm_exits::few_locals(code),
{
}

} // verus!
