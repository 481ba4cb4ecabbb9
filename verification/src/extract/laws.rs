//! What holds of every extraction.
use super::model::{
    assembled, call_effect, decode_at, depth_after, discovered, enqueue, lemma_patched, padded,
    patched, queued, relocated, resolved, run_subroutine, run_worklist, seeded, step, string_at,
    string_bytes, strings_effect, visit, walk_from, with_pointer, Found, Pool, Walk,
    WORKLIST_LIMIT,
};
use super::{Pointer, PointerType};
use crate::data::btks::BtksType;
use crate::data::{matching_def, OperationTable, RawOp};
use crate::endian::{
    lemma_u32_bytes_round_trip, lemma_u32_of_bytes_round_trip, u16_le_bytes, u16_of_bytes,
    u32_bytes, u32_of_bytes, words_bytes, ByteOrder,
};
use crate::stream::Image;
use vstd::prelude::*;
use vstd::set_lib::{lemma_int_range, lemma_len_subset, set_int_range};

verus! {

/// No address stands twice on the worklist.
pub open spec fn distinct_addresses(queue: Seq<(u32, i32)>) -> bool {
    forall|i: int, j: int|
        0 <= i < j < queue.len() ==> (#[trigger] queue[i]).0 != (#[trigger] queue[j]).0
}

/// Putting an address on a worklist that holds none twice leaves every
/// entry in place, holds the address afterwards, and still holds none twice.
pub proof fn lemma_enqueue(queue: Seq<(u32, i32)>, addr: u32, scene: i32)
    requires
        distinct_addresses(queue),
    ensures
        distinct_addresses(enqueue(queue, addr, scene)),
        queue.is_prefix_of(enqueue(queue, addr, scene)),
        queued(enqueue(queue, addr, scene), addr),
{
    let after = enqueue(queue, addr, scene);
    if !queued(queue, addr) {
        assert(after[queue.len() as int].0 == addr);
        assert forall|i: int, j: int| 0 <= i < j < after.len() implies (#[trigger] after[i]).0 != (
        #[trigger] after[j]).0 by {
            if j == queue.len() {
                assert(queue[i].0 != addr);
            }
        }
    }
}

/// A worklist that holds no address twice has at most one entry for each
/// 32-bit address.
#[verifier::rlimit(50)]
pub proof fn lemma_distinct_bound(queue: Seq<(u32, i32)>)
    requires
        distinct_addresses(queue),
    ensures
        queue.len() <= WORKLIST_LIMIT,
{
    let addrs = Seq::new(queue.len(), |i: int| queue[i].0 as int);
    assert(addrs.no_duplicates()) by {
        assert forall|i: int, j: int|
            0 <= i < addrs.len() && 0 <= j < addrs.len() && i != j implies addrs[i] != addrs[j] by {
            if i < j {
                assert(queue[i].0 != queue[j].0);
            } else {
                assert(queue[j].0 != queue[i].0);
            }
        }
    }
    addrs.unique_seq_to_set();
    lemma_int_range(0, WORKLIST_LIMIT as int);
    assert(addrs.to_set().subset_of(set_int_range(0, WORKLIST_LIMIT as int))) by {
        assert forall|a: int| addrs.to_set().contains(a) implies set_int_range(
            0,
            WORKLIST_LIMIT as int,
        ).contains(a) by {
            let i = choose|i: int| 0 <= i < addrs.len() && addrs[i] == a;
        }
    }
    lemma_len_subset(addrs.to_set(), set_int_range(0, WORKLIST_LIMIT as int));
}

/// The worklist that entry points make holds no address twice.
pub proof fn lemma_seeded_distinct(entries: Seq<u32>)
    ensures
        distinct_addresses(seeded(entries)),
    decreases entries.len(),
{
    if entries.len() > 0 {
        lemma_seeded_distinct(entries.drop_last());
        lemma_enqueue(seeded(entries.drop_last()), entries.last(), crate::data::NO_SCENE);
    }
}

/// An instruction leaves every entry of the worklist in place, and adds no
/// address that is on it.
#[verifier::rlimit(50)]
pub proof fn lemma_step_queue(
    table: OperationTable,
    image: Image,
    base: u32,
    order: ByteOrder,
    walk: Walk,
)
    requires
        distinct_addresses(walk.queue),
    ensures
        step(table, image, base, order, walk) matches Ok(next) ==> distinct_addresses(next.queue)
            && walk.queue.is_prefix_of(next.queue),
{
    reveal(step);
    reveal(call_effect);
    if let Ok(next) = step(table, image, base, order, walk) {
        if next.queue != walk.queue {
            let addr = next.queue.last().0;
            let scene = next.queue.last().1;
            assert(next.queue == enqueue(walk.queue, addr, scene));
            lemma_enqueue(walk.queue, addr, scene);
        }
    }
}

/// A subroutine leaves every entry of the worklist in place, and adds no
/// address that is on it.
pub proof fn lemma_subroutine_queue(
    table: OperationTable,
    image: Image,
    base: u32,
    order: ByteOrder,
    walk: Walk,
)
    requires
        distinct_addresses(walk.queue),
    ensures
        run_subroutine(table, image, base, order, walk) matches Ok(end) ==> distinct_addresses(
            end.queue,
        ) && walk.queue.is_prefix_of(end.queue),
    decreases image.bytes.len() - walk.pos,
{
    lemma_step_queue(table, image, base, order, walk);
    super::model::lemma_step_advances(table, image, base, order, walk);
    if let Ok(next) = step(table, image, base, order, walk) {
        if !next.done {
            lemma_subroutine_queue(table, image, base, order, next);
        }
    }
}

/// A pointer is in order while `code_len` bytes of code are laid out and
/// `queue` is the worklist: its four bytes lie within the code, at a
/// multiple of four, and the target of a code pointer is on the worklist.
pub open spec fn pointer_in_order(
    pointer: Pointer,
    base: u32,
    queue: Seq<(u32, i32)>,
    code_len: int,
) -> bool {
    &&& pointer.at % 4 == 0
    &&& pointer.at + 4 <= code_len
    &&& pointer.ptype == PointerType::Tickflow ==> pointer.points_to + base <= u32::MAX && queued(
        queue,
        (pointer.points_to + base) as u32,
    )
}

/// Every pointer of a list is in order.
pub open spec fn pointers_in_order(
    pointers: Seq<Pointer>,
    base: u32,
    queue: Seq<(u32, i32)>,
    code_len: int,
) -> bool {
    forall|k: int|
        0 <= k < pointers.len() ==> pointer_in_order(#[trigger] pointers[k], base, queue, code_len)
}

/// A walk is in order: the worklist holds no address twice, the code is a
/// whole number of words that 32-bit offsets reach, and every pointer is in
/// order.
pub open spec fn walk_in_order(walk: Walk, base: u32) -> bool {
    &&& distinct_addresses(walk.queue)
    &&& walk.code.len() % 4 == 0
    &&& walk.code.len() <= u32::MAX
    &&& pointers_in_order(walk.pointers, base, walk.queue, walk.code.len() as int)
}

/// A pointer that is in order stays in order when the worklist and the code
/// grow.
pub proof fn lemma_pointer_stays_in_order(
    pointer: Pointer,
    base: u32,
    queue: Seq<(u32, i32)>,
    code_len: int,
    longer: Seq<(u32, i32)>,
    more: int,
)
    requires
        pointer_in_order(pointer, base, queue, code_len),
        queue.is_prefix_of(longer),
        code_len <= more,
    ensures
        pointer_in_order(pointer, base, longer, more),
{
    if pointer.ptype == PointerType::Tickflow {
        let addr = (pointer.points_to + base) as u32;
        let i = choose|i: int| 0 <= i < queue.len() && (#[trigger] queue[i]).0 == addr;
        assert(longer[i] == queue[i]);
    }
}

/// The strings of an instruction add data pointers that are in order, and
/// leave the pointers and the data before them in place.
#[verifier::rlimit(50)]
pub proof fn lemma_strings_effect(
    image: Image,
    base: u32,
    order: ByteOrder,
    slots: Seq<(i8, bool)>,
    from: int,
    args: Seq<u32>,
    code_len: int,
    return_pos: int,
    pool: Pool,
    queue: Seq<(u32, i32)>,
)
    requires
        0 <= from,
        code_len % 4 == 0,
        0 <= code_len,
        code_len + 4 + 4 * args.len() <= u32::MAX,
        pointers_in_order(pool.pointers, base, queue, code_len + 4 + 4 * args.len()),
    ensures
        strings_effect(image, base, order, slots, from, args, code_len, return_pos, pool) matches Ok(
            after,
        ) ==> {
            &&& pointers_in_order(after.pointers, base, queue, code_len + 4 + 4 * args.len())
            &&& pool.pointers.is_prefix_of(after.pointers)
            &&& pool.data.is_prefix_of(after.data)
        },
    decreases slots.len() - from,
{
    if from < slots.len() {
        let (slot, wide) = slots[from];
        if 0 <= slot < args.len() && pool.data.len() <= u32::MAX {
            if let Ok(bytes) = string_bytes(image, base, order, args[slot as int], wide, return_pos) {
                let pointer = Pointer {
                    at: (code_len + 4 * (slot + 1)) as usize,
                    points_to: pool.data.len() as u32,
                    ptype: PointerType::Data,
                };
                let next = Pool { data: pool.data + bytes, pointers: pool.pointers.push(pointer) };
                assert(pointers_in_order(next.pointers, base, queue, code_len + 4 + 4 * args.len()))
                    by {
                    assert forall|k: int| 0 <= k < next.pointers.len() implies pointer_in_order(
                        #[trigger] next.pointers[k],
                        base,
                        queue,
                        code_len + 4 + 4 * args.len(),
                    ) by {
                        if k < pool.pointers.len() {
                            assert(next.pointers[k] == pool.pointers[k]);
                        }
                    }
                }
                lemma_strings_effect(
                    image,
                    base,
                    order,
                    slots,
                    from + 1,
                    args,
                    code_len,
                    return_pos,
                    next,
                    queue,
                );
            }
        }
    }
}

/// A call keeps the worklist without an address twice and leaves its
/// entries in place, changes no more than one argument, and records a
/// pointer that is in order once the instruction is laid out.
#[verifier::rlimit(50)]
pub proof fn lemma_call_effect(
    table: OperationTable,
    base: u32,
    op: RawOp,
    scene: i32,
    queue: Seq<(u32, i32)>,
    code_len: int,
)
    requires
        distinct_addresses(queue),
        code_len % 4 == 0,
        0 <= code_len,
        code_len + 4 + 4 * op.args.len() <= u32::MAX,
    ensures
        call_effect(table, base, op, scene, queue, code_len) matches Ok(call) ==> {
            &&& distinct_addresses(call.queue)
            &&& queue.is_prefix_of(call.queue)
            &&& call.args.len() == op.args.len()
            &&& call.pointer matches Some(pointer) ==> pointer_in_order(
                pointer,
                base,
                call.queue,
                code_len + 4 + 4 * op.args.len(),
            )
        },
{
    reveal(call_effect);
    if let Ok(call) = call_effect(table, base, op, scene, queue, code_len) {
        if let Some(pointer) = call.pointer {
            let target = (pointer.points_to + base) as u32;
            lemma_enqueue(queue, target, scene);
        }
    }
}

/// An instruction keeps a walk in order. It leaves the worklist, the
/// pointers, the data and the code before it in place, and adds at least
/// one word of code.
#[verifier::rlimit(50)]
pub proof fn lemma_step_in_order(
    table: OperationTable,
    image: Image,
    base: u32,
    order: ByteOrder,
    walk: Walk,
)
    requires
        walk_in_order(walk, base),
    ensures
        step(table, image, base, order, walk) matches Ok(next) ==> {
            &&& walk_in_order(next, base)
            &&& walk.queue.is_prefix_of(next.queue)
            &&& walk.pointers.is_prefix_of(next.pointers)
            &&& walk.data.is_prefix_of(next.data)
            &&& walk.code.is_prefix_of(next.code)
            &&& next.code.len() >= walk.code.len() + 4
        },
{
    reveal(step);
    if let Ok(next) = step(table, image, base, order, walk) {
        let decoded = decode_at(image, walk.pos, walk.scene, order)->0;
        let op = decoded.op;
        let scene = next.scene;
        let code_len = walk.code.len() as int;
        let after = code_len + 4 + 4 * op.args.len();
        lemma_call_effect(table, base, op, scene, walk.queue, code_len);
        let call = call_effect(table, base, op, scene, walk.queue, code_len)->Ok_0;
        let before = with_pointer(walk.pointers, call.pointer);
        assert(next.code.len() == after);
        assert(pointers_in_order(before, base, next.queue, after)) by {
            assert forall|k: int| 0 <= k < before.len() implies pointer_in_order(
                #[trigger] before[k],
                base,
                next.queue,
                after,
            ) by {
                if k < walk.pointers.len() {
                    assert(before[k] == walk.pointers[k]);
                    lemma_pointer_stays_in_order(
                        walk.pointers[k],
                        base,
                        walk.queue,
                        code_len,
                        next.queue,
                        after,
                    );
                }
            }
        }
        lemma_strings_effect(
            image,
            base,
            order,
            super::model::string_slots(table, op, scene),
            0,
            op.args,
            code_len,
            walk.pos + decoded.size(),
            Pool { data: walk.data, pointers: before },
            next.queue,
        );
    }
}

/// A subroutine keeps a walk in order. It leaves the worklist, the
/// pointers, the data and the code before it in place, and adds at least
/// one word of code.
#[verifier::rlimit(50)]
pub proof fn lemma_subroutine_in_order(
    table: OperationTable,
    image: Image,
    base: u32,
    order: ByteOrder,
    walk: Walk,
)
    requires
        walk_in_order(walk, base),
    ensures
        run_subroutine(table, image, base, order, walk) matches Ok(end) ==> {
            &&& walk_in_order(end, base)
            &&& walk.queue.is_prefix_of(end.queue)
            &&& walk.pointers.is_prefix_of(end.pointers)
            &&& walk.data.is_prefix_of(end.data)
            &&& walk.code.is_prefix_of(end.code)
            &&& end.code.len() >= walk.code.len() + 4
        },
    decreases image.bytes.len() - walk.pos,
{
    lemma_step_in_order(table, image, base, order, walk);
    super::model::lemma_step_advances(table, image, base, order, walk);
    if let Ok(next) = step(table, image, base, order, walk) {
        if !next.done {
            lemma_subroutine_in_order(table, image, base, order, next);
        }
    }
}

/// The key of entry `i` of the worklist in the function start table: its
/// address less the base.
pub open spec fn key_of(queue: Seq<(u32, i32)>, base: u32, i: int) -> u32 {
    (queue[i].0 - base) as u32
}

/// What holds of what was found once the first `cursor` entries of the
/// worklist were walked through.
pub open spec fn in_order_upto(found: Found, base: u32, cursor: int) -> bool {
    &&& 0 <= cursor <= found.queue.len()
    &&& distinct_addresses(found.queue)
    &&& found.code.len() % 4 == 0
    &&& found.code.len() <= u32::MAX
    &&& pointers_in_order(found.pointers, base, found.queue, found.code.len() as int)
    // each entry walked through has its start in the table, within the code
    &&& forall|i: int|
        0 <= i < cursor ==> {
            &&& (#[trigger] found.queue[i]).0 >= base
            &&& found.functions.contains_key(key_of(found.queue, base, i))
            &&& found.functions[key_of(found.queue, base, i)] < found.code.len()
        }
    // the table holds nothing else
    &&& forall|key: u32| #[trigger]
        found.functions.contains_key(key) ==> exists|i: int|
            0 <= i < cursor && key_of(found.queue, base, i) == key
    // the subroutines are laid out in worklist order, from the start of the code
    &&& forall|i: int, j: int|
        0 <= i < j < cursor ==> found.functions[#[trigger] key_of(found.queue, base, i)]
            < found.functions[#[trigger] key_of(found.queue, base, j)]
    &&& cursor == 0 ==> found.code.len() == 0
    &&& cursor > 0 ==> found.functions[key_of(found.queue, base, 0)] == 0
}

/// Walking through one more entry of the worklist keeps what was found in
/// order, and leaves the worklist before it in place.
#[verifier::rlimit(50)]
pub proof fn lemma_visit_in_order(
    table: OperationTable,
    image: Image,
    base: u32,
    order: ByteOrder,
    found: Found,
    cursor: int,
)
    requires
        in_order_upto(found, base, cursor),
        cursor < found.queue.len(),
    ensures
        visit(table, image, base, order, found, cursor) matches Ok(next) ==> {
            &&& in_order_upto(next, base, cursor + 1)
            &&& found.queue.is_prefix_of(next.queue)
            &&& found.data.is_prefix_of(next.data)
            &&& found.code.is_prefix_of(next.code)
            &&& found.pointers.is_prefix_of(next.pointers)
        },
{
    if let Ok(next) = visit(table, image, base, order, found, cursor) {
        let (addr, scene) = found.queue[cursor];
        let start = walk_from(addr - base, scene, found.queue, found.code, found.data);
        assert(walk_in_order(start, base));
        lemma_subroutine_in_order(table, image, base, order, start);
        let end = run_subroutine(table, image, base, order, start)->Ok_0;
        let key = key_of(found.queue, base, cursor);
        assert(next.pointers == found.pointers + end.pointers);
        assert(pointers_in_order(next.pointers, base, next.queue, next.code.len() as int)) by {
            assert forall|k: int| 0 <= k < next.pointers.len() implies pointer_in_order(
                #[trigger] next.pointers[k],
                base,
                next.queue,
                next.code.len() as int,
            ) by {
                if k < found.pointers.len() {
                    assert(next.pointers[k] == found.pointers[k]);
                    lemma_pointer_stays_in_order(
                        found.pointers[k],
                        base,
                        found.queue,
                        found.code.len() as int,
                        next.queue,
                        next.code.len() as int,
                    );
                } else {
                    assert(next.pointers[k] == end.pointers[k - found.pointers.len()]);
                }
            }
        }
        // keys of earlier entries differ from the new key
        assert forall|i: int| 0 <= i < cursor implies key_of(found.queue, base, i) != key by {
            assert(found.queue[i].0 != found.queue[cursor].0);
        }
        assert forall|i: int| 0 <= i < cursor + 1 implies key_of(next.queue, base, i) == key_of(
            found.queue,
            base,
            i,
        ) by {
            assert(next.queue[i] == found.queue[i]);
        }
        assert forall|i: int| 0 <= i < cursor + 1 implies {
            &&& (#[trigger] next.queue[i]).0 >= base
            &&& next.functions.contains_key(key_of(next.queue, base, i))
            &&& next.functions[key_of(next.queue, base, i)] < next.code.len()
        } by {
            assert(next.queue[i] == found.queue[i]);
            if i < cursor {
                assert(found.queue[i].0 >= base);
            }
        }
        assert forall|k: u32| #[trigger] next.functions.contains_key(k) implies exists|i: int|
            0 <= i < cursor + 1 && key_of(next.queue, base, i) == k by {
            if k == key {
                assert(key_of(next.queue, base, cursor) == k);
            } else {
                assert(found.functions.contains_key(k));
                let i = choose|i: int| 0 <= i < cursor && key_of(found.queue, base, i) == k;
                assert(key_of(next.queue, base, i) == k);
            }
        }
        assert forall|i: int, j: int| 0 <= i < j < cursor + 1 implies next.functions[#[trigger] key_of(
            next.queue,
            base,
            i,
        )] < next.functions[#[trigger] key_of(next.queue, base, j)] by {
            assert(next.queue[i] == found.queue[i]);
            assert(next.queue[j] == found.queue[j]);
            assert(key_of(next.queue, base, i) == key_of(found.queue, base, i));
            assert(key_of(next.queue, base, j) == key_of(found.queue, base, j));
            if j < cursor {
                assert(found.functions[key_of(found.queue, base, i)] < found.functions[key_of(
                    found.queue,
                    base,
                    j,
                )]);
            } else {
                assert(found.queue[i].0 >= base);
                assert(found.functions[key_of(found.queue, base, i)] < found.code.len());
            }
        }
    }
}

/// Going through the worklist keeps what was found in order, and ends with
/// every entry walked through.
#[verifier::rlimit(50)]
pub proof fn lemma_worklist_in_order(
    table: OperationTable,
    image: Image,
    base: u32,
    order: ByteOrder,
    found: Found,
    cursor: int,
)
    requires
        in_order_upto(found, base, cursor),
    ensures
        run_worklist(table, image, base, order, found, cursor) matches Ok(end) ==> {
            &&& in_order_upto(end, base, end.queue.len() as int)
            &&& found.queue.is_prefix_of(end.queue)
            &&& found.data.is_prefix_of(end.data)
            &&& found.code.is_prefix_of(end.code)
            &&& found.pointers.is_prefix_of(end.pointers)
        },
    decreases WORKLIST_LIMIT - cursor,
{
    lemma_distinct_bound(found.queue);
    if cursor < found.queue.len() {
        lemma_visit_in_order(table, image, base, order, found, cursor);
        if let Ok(next) = visit(table, image, base, order, found, cursor) {
            lemma_distinct_bound(next.queue);
            lemma_worklist_in_order(table, image, base, order, next, cursor + 1);
        }
    }
}

/// Every entry point is on the worklist that the entry points make.
pub proof fn lemma_seeded_holds_entries(entries: Seq<u32>, i: int)
    requires
        0 <= i < entries.len(),
    ensures
        queued(seeded(entries), entries[i]),
    decreases entries.len(),
{
    let rest = entries.drop_last();
    lemma_seeded_distinct(rest);
    lemma_enqueue(seeded(rest), entries.last(), crate::data::NO_SCENE);
    if i < entries.len() - 1 {
        lemma_seeded_holds_entries(rest, i);
        let k = choose|k: int| 0 <= k < seeded(rest).len() && (#[trigger] seeded(rest)[k]).0 == rest[i];
        assert(seeded(entries)[k].0 == entries[i]);
    }
}

/// No duplicate visits: when an extraction has found everything, no
/// address stands twice on its worklist, every entry point is on it, and
/// the function start table holds one start for each entry of the worklist
/// and nothing else. So every subroutine that is reached is walked through
/// once.
#[verifier::rlimit(50)]
pub proof fn lemma_each_address_visited_once(
    table: OperationTable,
    image: Image,
    base: u32,
    order: ByteOrder,
    entries: Seq<u32>,
)
    ensures
        discovered(table, image, base, order, entries) matches Ok(found) ==> {
            &&& distinct_addresses(found.queue)
            &&& forall|i: int| 0 <= i < entries.len() ==> queued(found.queue, #[trigger] entries[i])
            &&& forall|i: int|
                0 <= i < found.queue.len() ==> (#[trigger] found.queue[i]).0 >= base
                    && found.functions.contains_key(key_of(found.queue, base, i))
            &&& forall|key: u32| #[trigger]
                found.functions.contains_key(key) ==> exists|i: int|
                    0 <= i < found.queue.len() && key_of(found.queue, base, i) == key
        },
{
    if let Ok(found) = discovered(table, image, base, order, entries) {
        let start = Found {
            queue: seeded(entries),
            functions: Map::empty(),
            code: Seq::empty(),
            data: Seq::empty(),
            pointers: Seq::empty(),
        };
        lemma_seeded_distinct(entries);
        assert(in_order_upto(start, base, 0));
        lemma_worklist_in_order(table, image, base, order, start, 0);
        assert forall|i: int| 0 <= i < entries.len() implies queued(
            found.queue,
            #[trigger] entries[i],
        ) by {
            lemma_seeded_holds_entries(entries, i);
            let k = choose|k: int|
                0 <= k < seeded(entries).len() && (#[trigger] seeded(entries)[k]).0 == entries[i];
            assert(found.queue[k] == seeded(entries)[k]);
        }
    }
}

/// The pointers from `from` on can be relocated: each has a value, and its
/// four bytes lie within the code, at a multiple of four.
pub open spec fn relocatable(
    code_len: int,
    pointers: Seq<Pointer>,
    functions: Map<u32, u32>,
    from: int,
) -> bool {
    forall|k: int|
        from <= k < pointers.len() ==> {
            &&& resolved(#[trigger] pointers[k], functions) is Some
            &&& pointers[k].at % 4 == 0
            &&& pointers[k].at + 4 <= code_len
        }
}

/// Pointer `k` is the last of the list at its place.
pub open spec fn last_at_its_place(pointers: Seq<Pointer>, k: int) -> bool {
    forall|j: int| k < j < pointers.len() ==> (#[trigger] pointers[j]).at != pointers[k].at
}

/// Relocation of pointers that can be relocated succeeds. It keeps the
/// length of the code, the number of the pointers and their places, and
/// gives each pointer its value.
#[verifier::rlimit(50)]
pub proof fn lemma_relocated(
    code: Seq<u8>,
    pointers: Seq<Pointer>,
    functions: Map<u32, u32>,
    order: ByteOrder,
    from: int,
)
    requires
        0 <= from,
        relocatable(code.len() as int, pointers, functions, from),
    ensures
        relocated(code, pointers, functions, order, from) matches Ok(done) && {
            &&& done.code.len() == code.len()
            &&& done.pointers.len() == pointers.len()
            &&& forall|k: int|
                0 <= k < from && k < pointers.len() ==> #[trigger] done.pointers[k] == pointers[k]
            &&& forall|k: int|
                from <= k < pointers.len() ==> #[trigger] done.pointers[k] == (Pointer {
                    at: pointers[k].at,
                    points_to: resolved(pointers[k], functions)->0,
                    ptype: pointers[k].ptype,
                })
        },
    decreases pointers.len() - from,
{
    if from < pointers.len() {
        let pointer = pointers[from];
        let value = resolved(pointer, functions)->0;
        let code1 = patched(code, pointer.at as int, value, order);
        let pointers1 = pointers.update(
            from,
            Pointer { at: pointer.at, points_to: value, ptype: pointer.ptype },
        );
        lemma_patched(code, pointer.at as int, value, order);
        lemma_next_relocatable(code, pointers, functions, order, from);
        lemma_relocated(code1, pointers1, functions, order, from + 1);
        let done = relocated(code1, pointers1, functions, order, from + 1)->Ok_0;
        assert forall|k: int| from <= k < pointers.len() implies #[trigger] done.pointers[k] == (
        Pointer {
            at: pointers[k].at,
            points_to: resolved(pointers[k], functions)->0,
            ptype: pointers[k].ptype,
        }) by {
            if k > from {
                assert(pointers1[k] == pointers[k]);
            } else {
                assert(done.pointers[from] == pointers1[from]);
            }
        }
        assert forall|k: int| 0 <= k < from && k < pointers.len() implies #[trigger] done.pointers[k]
            == pointers[k] by {
            assert(pointers1[k] == pointers[k]);
        }
    }
}

/// Once a pointer is relocated, the pointers behind it can still be
/// relocated, and are as they were.
#[verifier::rlimit(50)]
pub proof fn lemma_next_relocatable(
    code: Seq<u8>,
    pointers: Seq<Pointer>,
    functions: Map<u32, u32>,
    order: ByteOrder,
    from: int,
)
    requires
        0 <= from < pointers.len(),
        relocatable(code.len() as int, pointers, functions, from),
    ensures
        ({
            let pointer = pointers[from];
            let value = resolved(pointer, functions)->0;
            let code1 = patched(code, pointer.at as int, value, order);
            let pointers1 = pointers.update(
                from,
                Pointer { at: pointer.at, points_to: value, ptype: pointer.ptype },
            );
            &&& code1.len() == code.len()
            &&& pointers1.len() == pointers.len()
            &&& relocatable(code1.len() as int, pointers1, functions, from + 1)
            &&& forall|k: int|
                0 <= k < pointers.len() && k != from ==> #[trigger] pointers1[k] == pointers[k]
        }),
{
    let pointer = pointers[from];
    let value = resolved(pointer, functions)->0;
    lemma_patched(code, pointer.at as int, value, order);
    let pointers1 = pointers.update(
        from,
        Pointer { at: pointer.at, points_to: value, ptype: pointer.ptype },
    );
    assert forall|k: int| from + 1 <= k < pointers1.len() implies {
        &&& resolved(#[trigger] pointers1[k], functions) is Some
        &&& pointers1[k].at % 4 == 0
        &&& pointers1[k].at + 4 <= code.len()
    } by {
        assert(pointers1[k] == pointers[k]);
    }
}

/// Relocation leaves every byte of the code that lies at no pointer's
/// place as it was.
#[verifier::rlimit(50)]
pub proof fn lemma_relocated_elsewhere(
    code: Seq<u8>,
    pointers: Seq<Pointer>,
    functions: Map<u32, u32>,
    order: ByteOrder,
    from: int,
    i: int,
)
    requires
        0 <= from,
        relocatable(code.len() as int, pointers, functions, from),
        0 <= i < code.len(),
        forall|k: int|
            from <= k < pointers.len() ==> !((#[trigger] pointers[k]).at <= i < pointers[k].at + 4),
    ensures
        relocated(code, pointers, functions, order, from) matches Ok(done) && done.code.len()
            == code.len() && done.code[i] == code[i],
    decreases pointers.len() - from,
{
    lemma_relocated(code, pointers, functions, order, from);
    if from < pointers.len() {
        let pointer = pointers[from];
        let value = resolved(pointer, functions)->0;
        let code1 = patched(code, pointer.at as int, value, order);
        let pointers1 = pointers.update(
            from,
            Pointer { at: pointer.at, points_to: value, ptype: pointer.ptype },
        );
        lemma_patched(code, pointer.at as int, value, order);
        lemma_next_relocatable(code, pointers, functions, order, from);
        assert(!(pointers[from].at <= i < pointers[from].at + 4));
        assert forall|k: int| from + 1 <= k < pointers1.len() implies !((
        #[trigger] pointers1[k]).at <= i < pointers1[k].at + 4) by {
            assert(pointers1[k] == pointers[k]);
        }
        lemma_relocated_elsewhere(code1, pointers1, functions, order, from + 1, i);
    }
}

/// After relocation the place of a pointer, the last pointer at its place,
/// holds the pointer's value.
#[verifier::rlimit(50)]
pub proof fn lemma_relocated_place(
    code: Seq<u8>,
    pointers: Seq<Pointer>,
    functions: Map<u32, u32>,
    order: ByteOrder,
    from: int,
    k: int,
)
    requires
        0 <= from <= k < pointers.len(),
        relocatable(code.len() as int, pointers, functions, from),
        last_at_its_place(pointers, k),
    ensures
        relocated(code, pointers, functions, order, from) matches Ok(done) && done.code.len()
            == code.len() && done.code.subrange(pointers[k].at as int, pointers[k].at + 4)
            == u32_bytes(resolved(pointers[k], functions)->0, order),
    decreases pointers.len() - from,
{
    lemma_relocated(code, pointers, functions, order, from);
    let pointer = pointers[from];
    let value = resolved(pointer, functions)->0;
    let at = pointer.at as int;
    let code1 = patched(code, at, value, order);
    let pointers1 = pointers.update(
        from,
        Pointer { at: pointer.at, points_to: value, ptype: pointer.ptype },
    );
    lemma_patched(code, at, value, order);
    lemma_next_relocatable(code, pointers, functions, order, from);
    lemma_relocated(code1, pointers1, functions, order, from + 1);
    let done = relocated(code1, pointers1, functions, order, from + 1)->Ok_0;
    if k > from {
        assert(pointers1[k] == pointers[k]);
        assert(last_at_its_place(pointers1, k)) by {
            assert forall|j: int| k < j < pointers1.len() implies (#[trigger] pointers1[j]).at
                != pointers1[k].at by {
                assert(pointers1[j] == pointers[j]);
            }
        }
        lemma_relocated_place(code1, pointers1, functions, order, from + 1, k);
    } else {
        lemma_u32_bytes_round_trip(value, order);
        assert forall|i: int| at <= i < at + 4 implies done.code[i] == code1[i] by {
            assert forall|j: int| from + 1 <= j < pointers1.len() implies !((
            #[trigger] pointers1[j]).at <= i < pointers1[j].at + 4) by {
                assert(pointers1[j] == pointers[j]);
                assert(pointers[j].at != pointers[from].at);
            }
            lemma_relocated_elsewhere(code1, pointers1, functions, order, from + 1, i);
        }
        assert(done.code.subrange(at, at + 4) =~= code1.subrange(at, at + 4));
    }
}

/// Pointer round trip: when an extraction has found everything, its
/// pointers can all be relocated. After that the four bytes at the place of
/// a code pointer, the last pointer at its place, hold the start of the
/// pointer's target, and the target is the one subroutine in the function
/// start table with that start: looking the bytes up in the table's
/// inverse gives the call's target less the base.
#[verifier::rlimit(50)]
pub proof fn lemma_pointer_round_trip(
    table: OperationTable,
    image: Image,
    base: u32,
    order: ByteOrder,
    entries: Seq<u32>,
    k: int,
)
    requires
        discovered(table, image, base, order, entries) is Ok,
        0 <= k < discovered(table, image, base, order, entries)->Ok_0.pointers.len(),
        discovered(table, image, base, order, entries)->Ok_0.pointers[k].ptype
            == PointerType::Tickflow,
        last_at_its_place(discovered(table, image, base, order, entries)->Ok_0.pointers, k),
    ensures
        ({
            let found = discovered(table, image, base, order, entries)->Ok_0;
            let pointer = found.pointers[k];
            &&& relocated(found.code, found.pointers, found.functions, order, 0) matches Ok(done)
                && {
                let value = u32_of_bytes(
                    done.code.subrange(pointer.at as int, pointer.at + 4),
                    order,
                );
                &&& found.functions.contains_key(pointer.points_to)
                &&& value == found.functions[pointer.points_to]
                &&& done.pointers[k].points_to == value
                &&& forall|key: u32|
                    found.functions.contains_key(key) && found.functions[key] == value ==> key
                        == pointer.points_to
            }
        }),
{
    let found = discovered(table, image, base, order, entries)->Ok_0;
    lemma_discovered_in_order(table, image, base, order, entries);
    lemma_found_relocatable(found, base);
    lemma_relocated(found.code, found.pointers, found.functions, order, 0);
    lemma_relocated_place(found.code, found.pointers, found.functions, order, 0, k);
    let done = relocated(found.code, found.pointers, found.functions, order, 0)->Ok_0;
    let pointer = found.pointers[k];
    let start = found.functions[pointer.points_to];
    lemma_u32_bytes_round_trip(start, order);
    assert(resolved(pointer, found.functions) == Some(start));
    assert forall|key: u32|
        found.functions.contains_key(key) && found.functions[key] == start implies key
        == pointer.points_to by {
        lemma_starts_differ(found, base, key, pointer.points_to);
    }
}

/// What an extraction finds is in order, with every entry of the worklist
/// walked through.
#[verifier::rlimit(50)]
pub proof fn lemma_discovered_in_order(
    table: OperationTable,
    image: Image,
    base: u32,
    order: ByteOrder,
    entries: Seq<u32>,
)
    ensures
        discovered(table, image, base, order, entries) matches Ok(found) ==> in_order_upto(
            found,
            base,
            found.queue.len() as int,
        ),
{
    if let Ok(found) = discovered(table, image, base, order, entries) {
        let start = Found {
            queue: seeded(entries),
            functions: Map::empty(),
            code: Seq::empty(),
            data: Seq::empty(),
            pointers: Seq::empty(),
        };
        lemma_seeded_distinct(entries);
        assert(in_order_upto(start, base, 0));
        lemma_worklist_in_order(table, image, base, order, start, 0);
    }
}

/// Once every entry of the worklist was walked through, every pointer can
/// be relocated.
#[verifier::rlimit(50)]
pub proof fn lemma_found_relocatable(found: Found, base: u32)
    requires
        in_order_upto(found, base, found.queue.len() as int),
    ensures
        relocatable(found.code.len() as int, found.pointers, found.functions, 0),
{
    assert forall|k: int| 0 <= k < found.pointers.len() implies {
        &&& resolved(#[trigger] found.pointers[k], found.functions) is Some
        &&& found.pointers[k].at % 4 == 0
        &&& found.pointers[k].at + 4 <= found.code.len()
    } by {
        let pointer = found.pointers[k];
        assert(pointer_in_order(pointer, base, found.queue, found.code.len() as int));
        if pointer.ptype == PointerType::Tickflow {
            let addr = (pointer.points_to + base) as u32;
            let i = choose|i: int| 0 <= i < found.queue.len() && (#[trigger] found.queue[i]).0 == addr;
            assert(key_of(found.queue, base, i) == pointer.points_to);
        }
    }
}

/// Two subroutines in the function start table do not start at one offset.
#[verifier::rlimit(50)]
pub proof fn lemma_starts_differ(found: Found, base: u32, key1: u32, key2: u32)
    requires
        in_order_upto(found, base, found.queue.len() as int),
        found.functions.contains_key(key1),
        found.functions.contains_key(key2),
        found.functions[key1] == found.functions[key2],
    ensures
        key1 == key2,
{
    let i = choose|i: int| 0 <= i < found.queue.len() && key_of(found.queue, base, i) == key1;
    let j = choose|j: int| 0 <= j < found.queue.len() && key_of(found.queue, base, j) == key2;
    if i < j {
        assert(found.functions[key_of(found.queue, base, i)] < found.functions[key_of(
            found.queue,
            base,
            j,
        )]);
    } else if j < i {
        assert(found.functions[key_of(found.queue, base, j)] < found.functions[key_of(
            found.queue,
            base,
            i,
        )]);
    }
}

/// The layout follows the worklist: when an extraction has found
/// everything, the first subroutine of the worklist starts at offset zero,
/// and each subroutine starts behind the one before it on the worklist. So
/// the order in which the entry points are given and the calls are met
/// decides where each subroutine comes to lie, and nothing else does.
#[verifier::rlimit(50)]
pub proof fn lemma_layout_follows_worklist(
    table: OperationTable,
    image: Image,
    base: u32,
    order: ByteOrder,
    entries: Seq<u32>,
)
    ensures
        discovered(table, image, base, order, entries) matches Ok(found) ==> {
            &&& found.queue.len() > 0
            &&& found.functions[key_of(found.queue, base, 0)] == 0
            &&& forall|i: int, j: int|
                0 <= i < j < found.queue.len() ==> found.functions[#[trigger] key_of(
                    found.queue,
                    base,
                    i,
                )] < found.functions[#[trigger] key_of(found.queue, base, j)]
        },
{
    if let Ok(found) = discovered(table, image, base, order, entries) {
        lemma_discovered_in_order(table, image, base, order, entries);
        lemma_seeded_holds_entries(entries, 0);
        let start = Found {
            queue: seeded(entries),
            functions: Map::empty(),
            code: Seq::empty(),
            data: Seq::empty(),
            pointers: Seq::empty(),
        };
        lemma_seeded_distinct(entries);
        assert(in_order_upto(start, base, 0));
        lemma_worklist_in_order(table, image, base, order, start, 0);
    }
}

/// Depth monotonicity: the nesting counter is a natural number, so it
/// never goes below zero. An instruction moves it by one at most, and an
/// undepth operation that is met while it is zero leaves it at zero.
pub proof fn lemma_depth_moves_by_one(table: OperationTable, op: RawOp, scene: i32, depth: nat)
    ensures
        depth_after(table, op, scene, depth) >= 0,
        depth_after(table, op, scene, depth) <= depth + 1,
        depth_after(table, op, scene, depth) + 1 >= depth,
        matching_def(table.depths, op, scene) is None && depth == 0 ==> depth_after(
            table,
            op,
            scene,
            depth,
        ) == 0,
{
}

/// Padding brings a string to a multiple of four bytes, by one to four
/// zero bytes behind it.
pub proof fn lemma_padded_length(bytes: Seq<u8>)
    ensures
        padded(bytes).len() % 4 == 0,
        bytes.len() < padded(bytes).len() <= bytes.len() + 4,
        bytes.is_prefix_of(padded(bytes)),
        forall|i: int| bytes.len() <= i < padded(bytes).len() ==> padded(bytes)[i] == 0,
{
}

/// The units of the string at `pos` up to its terminator: bytes, or, for a
/// wide string, 16-bit units read in the given order.
#[verifier::rlimit(50)]
pub open spec fn units_at(image: Image, pos: int, wide: bool, order: ByteOrder) -> Option<
    Seq<u16>,
>
    decreases image.bytes.len() - pos,
{
    let width: int = if wide {
        2
    } else {
        1
    };
    if !image.readable(pos, width) {
        None
    } else {
        let unit = if wide {
            u16_of_bytes(image.read(pos, 2), order)
        } else {
            image.read(pos, 1)[0] as u16
        };
        if unit == 0 {
            Some(Seq::empty())
        } else {
            match units_at(image, pos + width, wide, order) {
                None => None,
                Some(rest) => Some(seq![unit] + rest),
            }
        }
    }
}

/// Reading the two bytes of a unit back, least significant first, gives
/// the unit.
pub proof fn lemma_u16_le_round_trip(unit: u16)
    ensures
        u16_le_bytes(unit).len() == 2,
        u16_of_bytes(u16_le_bytes(unit), ByteOrder::LittleEndian) == unit,
{
}

/// String round trip: the bytes that a string of the input adds to the
/// data pool read back as the string. Wherever the bytes lie in a pool, the
/// units from their first byte up to the first zero unit are the units of
/// the string in the input; in the pool a wide unit stands least
/// significant byte first.
#[verifier::rlimit(50)]
pub proof fn lemma_string_round_trip(
    image: Image,
    pos: int,
    wide: bool,
    order: ByteOrder,
    pool: Seq<u8>,
    offset: int,
)
    requires
        string_at(image, pos, wide, order) is Some,
        0 <= offset,
        offset + string_at(image, pos, wide, order)->0.len() <= pool.len(),
        pool.subrange(offset, offset + string_at(image, pos, wide, order)->0.len()) == string_at(
            image,
            pos,
            wide,
            order,
        )->0,
    ensures
        units_at(image, pos, wide, order) is Some,
        units_at(Image::flat(pool), offset, wide, ByteOrder::LittleEndian) == units_at(
            image,
            pos,
            wide,
            order,
        ),
    decreases image.bytes.len() - pos,
{
    let bytes = string_at(image, pos, wide, order)->0;
    let stored = Image::flat(pool);
    let here = pool.subrange(offset, offset + bytes.len());
    if wide {
        let unit = u16_of_bytes(image.read(pos, 2), order);
        lemma_u16_le_round_trip(unit);
        assert(bytes.len() >= 2);
        assert(here[0] == bytes[0] && here[1] == bytes[1]);
        assert(stored.readable(offset, 2));
        assert(stored.read(offset, 2) =~= u16_le_bytes(unit));
        if unit != 0 {
            let rest = string_at(image, pos + 2, wide, order)->0;
            assert(bytes == u16_le_bytes(unit) + rest);
            assert(pool.subrange(offset + 2, offset + 2 + rest.len()) =~= rest) by {
                assert forall|i: int| 0 <= i < rest.len() implies pool[offset + 2 + i] == rest[i] by {
                    assert(here[i + 2] == bytes[i + 2]);
                }
            }
            lemma_string_round_trip(image, pos + 2, wide, order, pool, offset + 2);
        }
    } else {
        let byte = image.read(pos, 1)[0];
        assert(bytes.len() >= 1);
        assert(here[0] == bytes[0]);
        assert(stored.readable(offset, 1));
        assert(stored.read(offset, 1)[0] == byte);
        if byte != 0 {
            let rest = string_at(image, pos + 1, wide, order)->0;
            assert(bytes == seq![byte] + rest);
            assert(pool.subrange(offset + 1, offset + 1 + rest.len()) =~= rest) by {
                assert forall|i: int| 0 <= i < rest.len() implies pool[offset + 1 + i] == rest[i] by {
                    assert(here[i + 1] == bytes[i + 1]);
                }
            }
            lemma_string_round_trip(image, pos + 1, wide, order, pool, offset + 1);
        }
    }
}

/// String padding: a string that is read from the input, its address not
/// below the base, adds a multiple of four bytes to the data pool: the
/// string with its terminator, and zero bytes behind it.
pub proof fn lemma_string_bytes_padded(
    image: Image,
    base: u32,
    order: ByteOrder,
    addr: u32,
    wide: bool,
    return_pos: int,
)
    requires
        addr >= base,
    ensures
        string_bytes(image, base, order, addr, wide, return_pos) matches Ok(bytes) ==> {
            &&& bytes.len() % 4 == 0
            &&& string_at(image, addr - base, wide, order) matches Some(text) && text.is_prefix_of(
                bytes,
            )
        },
{
    reveal(string_bytes);
    if let Some(text) = string_at(image, addr - base, wide, order) {
        lemma_padded_length(text);
    }
}

/// The data pointer that the string of slot `i` of a string operation
/// leaves behind points to where the bytes of that string lie in the data
/// pool.
#[verifier::rlimit(50)]
pub proof fn lemma_strings_recorded(
    image: Image,
    base: u32,
    order: ByteOrder,
    slots: Seq<(i8, bool)>,
    from: int,
    args: Seq<u32>,
    code_len: int,
    return_pos: int,
    pool: Pool,
    i: int,
)
    requires
        0 <= from <= i < slots.len(),
        0 <= code_len,
        code_len + 4 + 4 * args.len() <= u32::MAX,
        strings_effect(image, base, order, slots, from, args, code_len, return_pos, pool) is Ok,
    ensures
        ({
            let after = strings_effect(
                image,
                base,
                order,
                slots,
                from,
                args,
                code_len,
                return_pos,
                pool,
            )->Ok_0;
            let (slot, wide) = slots[i];
            let k = pool.pointers.len() + (i - from);
            &&& 0 <= slot < args.len()
            &&& k < after.pointers.len()
            &&& after.pointers[k].ptype == PointerType::Data
            &&& after.pointers[k].at == code_len + 4 * (slot + 1)
            &&& string_bytes(image, base, order, args[slot as int], wide, return_pos) matches Ok(
                bytes,
            ) && after.pointers[k].points_to + bytes.len() <= after.data.len()
                && after.data.subrange(
                after.pointers[k].points_to as int,
                after.pointers[k].points_to + bytes.len(),
            ) == bytes
        }),
    decreases slots.len() - from,
{
    let (slot, wide) = slots[from];
    let bytes = string_bytes(image, base, order, args[slot as int], wide, return_pos)->Ok_0;
    let pointer = Pointer {
        at: (code_len + 4 * (slot + 1)) as usize,
        points_to: pool.data.len() as u32,
        ptype: PointerType::Data,
    };
    let next = Pool { data: pool.data + bytes, pointers: pool.pointers.push(pointer) };
    let after = strings_effect(image, base, order, slots, from, args, code_len, return_pos, pool)->Ok_0;
    lemma_strings_prefix(image, base, order, slots, from + 1, args, code_len, return_pos, next);
    if i == from {
        assert(after.pointers[pool.pointers.len() as int] == next.pointers[pool.pointers.len() as int]);
        assert(after.data.subrange(pool.data.len() as int, (pool.data.len() + bytes.len()) as int) =~= bytes)
            by {
            assert forall|j: int| 0 <= j < bytes.len() implies after.data[pool.data.len() + j]
                == bytes[j] by {
                assert(next.data[pool.data.len() + j] == bytes[j]);
            }
        }
    } else {
        lemma_strings_recorded(
            image,
            base,
            order,
            slots,
            from + 1,
            args,
            code_len,
            return_pos,
            next,
            i,
        );
    }
}

/// The strings of an instruction leave the pointers and the data before
/// them in place.
#[verifier::rlimit(50)]
pub proof fn lemma_strings_prefix(
    image: Image,
    base: u32,
    order: ByteOrder,
    slots: Seq<(i8, bool)>,
    from: int,
    args: Seq<u32>,
    code_len: int,
    return_pos: int,
    pool: Pool,
)
    requires
        0 <= from,
    ensures
        strings_effect(image, base, order, slots, from, args, code_len, return_pos, pool) matches Ok(
            after,
        ) ==> pool.pointers.is_prefix_of(after.pointers) && pool.data.is_prefix_of(after.data),
    decreases slots.len() - from,
{
    if from < slots.len() {
        let (slot, wide) = slots[from];
        if 0 <= slot < args.len() && pool.data.len() <= u32::MAX {
            if let Ok(bytes) = string_bytes(image, base, order, args[slot as int], wide, return_pos) {
                let pointer = Pointer {
                    at: (code_len + 4 * (slot + 1)) as usize,
                    points_to: pool.data.len() as u32,
                    ptype: PointerType::Data,
                };
                let next = Pool { data: pool.data + bytes, pointers: pool.pointers.push(pointer) };
                lemma_strings_prefix(
                    image,
                    base,
                    order,
                    slots,
                    from + 1,
                    args,
                    code_len,
                    return_pos,
                    next,
                );
            }
        }
    }
}

/// The code of a subroutine depends on where it stands and on the scene it
/// is met in, and on nothing else that was found before: two walks that
/// start at one place, in one scene, lay out the same code, whatever the
/// worklist, the data pool and the code before them hold.
#[verifier::rlimit(50)]
pub proof fn lemma_subroutine_code_is_its_own(
    table: OperationTable,
    image: Image,
    base: u32,
    order: ByteOrder,
    one: Walk,
    other: Walk,
)
    requires
        one.pos == other.pos,
        one.scene == other.scene,
        one.depth == other.depth,
        run_subroutine(table, image, base, order, one) is Ok,
        run_subroutine(table, image, base, order, other) is Ok,
    ensures
        ({
            let end1 = run_subroutine(table, image, base, order, one)->Ok_0;
            let end2 = run_subroutine(table, image, base, order, other)->Ok_0;
            &&& end1.pos == end2.pos
            &&& end1.scene == end2.scene
            &&& one.code.is_prefix_of(end1.code)
            &&& other.code.is_prefix_of(end2.code)
            &&& end1.code.skip(one.code.len() as int) == end2.code.skip(other.code.len() as int)
        }),
    decreases image.bytes.len() - one.pos,
{
    lemma_step_code(table, image, base, order, one, other);
    super::model::lemma_step_advances(table, image, base, order, one);
    let next1 = step(table, image, base, order, one)->Ok_0;
    let next2 = step(table, image, base, order, other)->Ok_0;
    if !next1.done {
        lemma_subroutine_code_is_its_own(table, image, base, order, next1, next2);
        let end1 = run_subroutine(table, image, base, order, one)->Ok_0;
        let end2 = run_subroutine(table, image, base, order, other)->Ok_0;
        assert(end1.code.skip(one.code.len() as int) =~= next1.code.skip(one.code.len() as int)
            + end1.code.skip(next1.code.len() as int));
        assert(end2.code.skip(other.code.len() as int) =~= next2.code.skip(
            other.code.len() as int,
        ) + end2.code.skip(next2.code.len() as int));
    }
}

/// An instruction lays out the same code from two states that stand at one
/// place in one scene, with the nesting counter at one value.
#[verifier::rlimit(50)]
pub proof fn lemma_step_code(
    table: OperationTable,
    image: Image,
    base: u32,
    order: ByteOrder,
    one: Walk,
    other: Walk,
)
    requires
        one.pos == other.pos,
        one.scene == other.scene,
        one.depth == other.depth,
        step(table, image, base, order, one) is Ok,
        step(table, image, base, order, other) is Ok,
    ensures
        ({
            let next1 = step(table, image, base, order, one)->Ok_0;
            let next2 = step(table, image, base, order, other)->Ok_0;
            &&& next1.pos == next2.pos
            &&& next1.scene == next2.scene
            &&& next1.depth == next2.depth
            &&& next1.done == next2.done
            &&& one.code.is_prefix_of(next1.code)
            &&& other.code.is_prefix_of(next2.code)
            &&& next1.code.skip(one.code.len() as int) == next2.code.skip(other.code.len() as int)
        }),
{
    reveal(step);
    reveal(call_effect);
    let next1 = step(table, image, base, order, one)->Ok_0;
    let next2 = step(table, image, base, order, other)->Ok_0;
    let decoded = decode_at(image, one.pos, one.scene, order)->0;
    let scene = next1.scene;
    let call1 = call_effect(table, base, decoded.op, scene, one.queue, one.code.len() as int)->Ok_0;
    let call2 = call_effect(
        table,
        base,
        decoded.op,
        scene,
        other.queue,
        other.code.len() as int,
    )->Ok_0;
    assert(call1.args == call2.args);
    let laid = u32_bytes(decoded.word, order) + crate::endian::words_bytes(call1.args, order);
    assert(next1.code.skip(one.code.len() as int) =~= laid);
    assert(next2.code.skip(other.code.len() as int) =~= laid);
}

/// What an extraction finds can always be relocated and assembled: no
/// pointer is left without its target, and none lies outside the code. So
/// an extraction fails only where its input does.
pub proof fn lemma_relocation_succeeds(
    table: OperationTable,
    image: Image,
    base: u32,
    order: ByteOrder,
    btks_type: BtksType,
    entries: Seq<u32>,
)
    ensures
        discovered(table, image, base, order, entries) matches Ok(found) ==> assembled(
            found,
            btks_type,
            order,
        ) is Ok,
{
    if let Ok(found) = discovered(table, image, base, order, entries) {
        lemma_discovered_in_order(table, image, base, order, entries);
        lemma_found_relocatable(found, base);
        lemma_relocated(found.code, found.pointers, found.functions, order, 0);
    }
}

/// An instruction is written as it was read: its first word and its
/// argument words, laid out in the byte order that they were read in, are
/// the bytes of the input that the instruction was decoded from.
#[verifier::rlimit(50)]
pub proof fn lemma_decoded_bytes(image: Image, pos: int, scene: i32, order: ByteOrder)
    ensures
        decode_at(image, pos, scene, order) matches Some(decoded) ==> u32_bytes(
            decoded.word,
            order,
        ) + words_bytes(decoded.op.args, order) == image.read(pos, decoded.size()),
{
    reveal(decode_at);
    if let Some(decoded) = decode_at(image, pos, scene, order) {
        let args = decoded.op.args;
        let laid = u32_bytes(decoded.word, order) + words_bytes(args, order);
        let read = image.read(pos, decoded.size());
        lemma_u32_of_bytes_round_trip(image.read(pos, 4), order);
        assert forall|i: int| 0 <= i < args.len() implies u32_bytes(#[trigger] args[i], order)
            == image.read(pos + 4 + 4 * i, 4) by {
            lemma_u32_of_bytes_round_trip(image.read(pos + 4 + 4 * i, 4), order);
        }
        assert(laid.len() == read.len());
        assert forall|k: int| 0 <= k < laid.len() implies laid[k] == read[k] by {
            if k < 4 {
                assert(image.read(pos, 4)[k] == read[k]);
            } else {
                let i = (k - 4) / 4;
                let j = (k - 4) % 4;
                assert(laid[k] == u32_bytes(args[i], order)[j]);
                assert(image.read(pos + 4 + 4 * i, 4)[j] == read[k]);
            }
        }
        assert(laid =~= read);
    }
}

/// String round trip in the pool: the data pointer that the string of slot
/// `i` of a string operation leaves behind leads to the string. In the
/// data pool, and in every pool that it grows into, the units from the
/// pointer's offset up to the first zero unit are the units of the string
/// in the input, provided that the string's address does not lie below the
/// base.
#[verifier::rlimit(50)]
pub proof fn lemma_recorded_string_reads_back(
    image: Image,
    base: u32,
    order: ByteOrder,
    slots: Seq<(i8, bool)>,
    from: int,
    args: Seq<u32>,
    code_len: int,
    return_pos: int,
    pool: Pool,
    i: int,
    later: Seq<u8>,
)
    requires
        0 <= from <= i < slots.len(),
        0 <= code_len,
        code_len + 4 + 4 * args.len() <= u32::MAX,
        strings_effect(image, base, order, slots, from, args, code_len, return_pos, pool) is Ok,
        strings_effect(
            image,
            base,
            order,
            slots,
            from,
            args,
            code_len,
            return_pos,
            pool,
        )->Ok_0.data.is_prefix_of(later),
        0 <= slots[i].0 < args.len() ==> args[slots[i].0 as int] >= base,
    ensures
        ({
            let after = strings_effect(
                image,
                base,
                order,
                slots,
                from,
                args,
                code_len,
                return_pos,
                pool,
            )->Ok_0;
            let (slot, wide) = slots[i];
            let pointer = after.pointers[pool.pointers.len() + (i - from)];
            let text = units_at(image, args[slot as int] - base, wide, order);
            &&& pointer.ptype == PointerType::Data
            &&& text is Some
            &&& units_at(Image::flat(later), pointer.points_to as int, wide, ByteOrder::LittleEndian)
                == text
        }),
{
    let after = strings_effect(image, base, order, slots, from, args, code_len, return_pos, pool)->Ok_0;
    let (slot, wide) = slots[i];
    lemma_strings_recorded(image, base, order, slots, from, args, code_len, return_pos, pool, i);
    let pointer = after.pointers[pool.pointers.len() + (i - from)];
    let addr = args[slot as int];
    let bytes = string_bytes(image, base, order, addr, wide, return_pos)->Ok_0;
    lemma_string_bytes_padded(image, base, order, addr, wide, return_pos);
    let text = string_at(image, addr - base, wide, order)->0;
    let offset = pointer.points_to as int;
    assert(later.subrange(offset, offset + text.len()) =~= text) by {
        assert forall|k: int| 0 <= k < text.len() implies later[offset + k] == text[k] by {
            assert(after.data.subrange(offset, offset + bytes.len())[k] == bytes[k]);
            assert(later[offset + k] == after.data[offset + k]);
        }
    }
    lemma_string_round_trip(image, addr - base, wide, order, later, offset);
}

} // verus!
