//! What the extraction engine computes, stated over the image of its input.
use super::{ExtractError, Pointer, PointerType};
use crate::data::btks::{BtksType, Container};
use crate::data::{matching_args_def, matching_def, scene_slot, OperationTable, RawOp, NO_SCENE};
use crate::endian::{
    u16_le_bytes, u16_of_bytes, u32_as_signed, u32_bytes, u32_of_bytes, words_bytes, ByteOrder,
};
use crate::stream::{word_at, Image, StreamError};
use vstd::prelude::*;

verus! {

/// The opcode of an instruction: the low ten bits of its first word.
pub open spec fn opcode_of(word: u32) -> u16 {
    (word % 0x400) as u16
}

/// The number of argument words that follow an instruction's first word:
/// the four bits above the opcode.
pub open spec fn arg_count_of(word: u32) -> int {
    ((word / 0x400) % 0x10) as int
}

/// The discriminator of an instruction: the bits above the argument count.
pub open spec fn arg0_of(word: u32) -> u32 {
    word / 0x4000
}

/// An instruction as read: its first word as it stood in the input, and
/// what the word and the argument words after it hold.
pub ghost struct Decoded {
    pub word: u32,
    pub op: RawOp,
}

impl Decoded {
    /// The number of bytes that the instruction takes up.
    pub open spec fn size(self) -> int {
        4 + 4 * (self.op.args.len() as int)
    }
}

/// The instruction at `pos`, if all its words can be read.
#[verifier::opaque]
pub open spec fn decode_at(image: Image, pos: int, scene: i32, order: ByteOrder) -> Option<
    Decoded,
> {
    match word_at(image, pos, order) {
        None => None,
        Some(word) => {
            let count = arg_count_of(word);
            if image.readable(pos, 4 + 4 * count) {
                Some(
                    Decoded {
                        word,
                        op: RawOp {
                            op: opcode_of(word),
                            arg0: arg0_of(word),
                            args: Seq::new(
                                count as nat,
                                |i: int| u32_of_bytes(image.read(pos + 4 + 4 * i, 4), order),
                            ),
                            scene,
                        },
                    },
                )
            } else {
                None
            }
        },
    }
}

/// An instruction that can be read lies within the image, and takes up at
/// least one word.
pub proof fn lemma_decode_bounds(image: Image, pos: int, scene: i32, order: ByteOrder)
    ensures
        decode_at(image, pos, scene, order) matches Some(decoded) ==> 0 <= pos && 4
            <= decoded.size() <= 64 && pos + decoded.size() <= image.bytes.len(),
{
    reveal(decode_at);
}

/// The scene after an instruction: the scene before, unless the
/// instruction is the scene operation, which takes the new scene from its
/// discriminator (slot `-1`) or from one of its arguments.
#[verifier::opaque]
pub open spec fn scene_after(table: OperationTable, op: RawOp, scene: i32) -> Result<
    i32,
    ExtractError,
> {
    match scene_slot(table.scene, op) {
        None => Ok(scene),
        Some(slot) => if slot == -1 {
            Ok(u32_as_signed(op.arg0))
        } else if 0 <= slot < op.args.len() {
            Ok(u32_as_signed(op.args[slot as int]))
        } else {
            Err(ExtractError::MissingArgument)
        },
    }
}

/// Whether `addr` is on the worklist, visited or not.
pub open spec fn queued(queue: Seq<(u32, i32)>, addr: u32) -> bool {
    exists|i: int| 0 <= i < queue.len() && (#[trigger] queue[i]).0 == addr
}

/// The worklist after `addr` was met with `scene` current: an address that
/// is on the list already is never added again.
pub open spec fn enqueue(queue: Seq<(u32, i32)>, addr: u32, scene: i32) -> Seq<(u32, i32)> {
    if queued(queue, addr) {
        queue
    } else {
        queue.push((addr, scene))
    }
}

/// What a call operation does to the worklist, to the instruction's
/// arguments and to the pointers.
pub ghost struct CallEffect {
    pub queue: Seq<(u32, i32)>,
    pub args: Seq<u32>,
    pub pointer: Option<Pointer>,
}

/// The effect of the instruction as a call, where `code_len` bytes of code
/// were laid out before it. An instruction that is no call, or whose target
/// is zero, changes nothing. Otherwise the target joins the worklist with
/// the current scene, the target argument becomes the target less the base,
/// and a code pointer is recorded at the argument's place.
#[verifier::opaque]
pub open spec fn call_effect(
    table: OperationTable,
    base: u32,
    op: RawOp,
    scene: i32,
    queue: Seq<(u32, i32)>,
    code_len: int,
) -> Result<CallEffect, ExtractError> {
    let unchanged = CallEffect { queue, args: op.args, pointer: None };
    match matching_args_def(table.calls, op, scene) {
        None => Ok(unchanged),
        Some(def) => if def.args.len() == 0 {
            Err(ExtractError::MissingArgument)
        } else {
            let slot = def.args[0].0;
            if !(0 <= slot < op.args.len()) {
                Err(ExtractError::MissingArgument)
            } else {
                let target = op.args[slot as int];
                if target == 0 {
                    Ok(unchanged)
                } else if target < base {
                    Err(ExtractError::BelowBase)
                } else {
                    Ok(
                        CallEffect {
                            queue: enqueue(queue, target, scene),
                            args: op.args.update(slot as int, (target - base) as u32),
                            pointer: Some(
                                Pointer {
                                    at: (code_len + 4 * (slot + 1)) as usize,
                                    points_to: (target - base) as u32,
                                    ptype: PointerType::Tickflow,
                                },
                            ),
                        },
                    )
                }
            }
        },
    }
}

/// The bytes of the string at `pos`, terminator included: bytes up to the
/// first zero byte, or, for a wide string, 16-bit units read in the given
/// order up to the first zero unit, each stored least significant byte
/// first. `None` where the image ends before the terminator.
#[verifier::rlimit(50)]
pub open spec fn string_at(image: Image, pos: int, wide: bool, order: ByteOrder) -> Option<
    Seq<u8>,
>
    decreases image.bytes.len() - pos,
{
    if wide {
        if !image.readable(pos, 2) {
            None
        } else {
            let unit = u16_of_bytes(image.read(pos, 2), order);
            if unit == 0 {
                Some(u16_le_bytes(unit))
            } else {
                match string_at(image, pos + 2, wide, order) {
                    None => None,
                    Some(rest) => Some(u16_le_bytes(unit) + rest),
                }
            }
        }
    } else {
        if !image.readable(pos, 1) {
            None
        } else {
            let byte = image.read(pos, 1)[0];
            if byte == 0 {
                Some(seq![byte])
            } else {
                match string_at(image, pos + 1, wide, order) {
                    None => None,
                    Some(rest) => Some(seq![byte] + rest),
                }
            }
        }
    }
}

/// `bytes` followed by zero bytes up to the next multiple of four: one to
/// four of them, so that a length that is a multiple already gains four.
pub open spec fn padded(bytes: Seq<u8>) -> Seq<u8> {
    bytes + Seq::new((4 - bytes.len() % 4) as nat, |i: int| 0u8)
}

/// What stands for a string whose address lies below the base offset.
pub open spec fn placeholder() -> Seq<u8> {
    seq![0u8, 0u8]
}

/// The bytes that a string argument adds to the data pool. An address below
/// the base gives the placeholder, and the source is left alone. Otherwise
/// the source seeks to the address less the base, the string there is read
/// and padded, and the source seeks back to `return_pos`.
#[verifier::opaque]
pub open spec fn string_bytes(
    image: Image,
    base: u32,
    order: ByteOrder,
    addr: u32,
    wide: bool,
    return_pos: int,
) -> Result<Seq<u8>, ExtractError> {
    if addr < base {
        Ok(placeholder())
    } else if !image.seekable.contains(addr - base) {
        Err(ExtractError::Io(StreamError::NotAvailable))
    } else {
        match string_at(image, addr - base, wide, order) {
            None => Err(ExtractError::Io(StreamError::UnexpectedEof)),
            Some(bytes) => if !image.seekable.contains(return_pos) {
                Err(ExtractError::Io(StreamError::NotAvailable))
            } else {
                Ok(padded(bytes))
            },
        }
    }
}

/// The data pool and the pointers that a string operation leaves behind.
pub ghost struct Pool {
    pub data: Seq<u8>,
    pub pointers: Seq<Pointer>,
}

/// The effect of the argument slots `slots[from..]` of a string operation:
/// for each slot in turn, a data pointer at the argument's place that points
/// to the end of the data pool, and the string's bytes added to the pool.
#[verifier::rlimit(50)]
pub open spec fn strings_effect(
    image: Image,
    base: u32,
    order: ByteOrder,
    slots: Seq<(i8, bool)>,
    from: int,
    args: Seq<u32>,
    code_len: int,
    return_pos: int,
    pool: Pool,
) -> Result<Pool, ExtractError>
    decreases slots.len() - from,
{
    if from < 0 || from >= slots.len() {
        Ok(pool)
    } else {
        let (slot, wide) = slots[from];
        if !(0 <= slot < args.len()) {
            Err(ExtractError::MissingArgument)
        } else if pool.data.len() > u32::MAX {
            Err(ExtractError::TooLarge)
        } else {
            match string_bytes(image, base, order, args[slot as int], wide, return_pos) {
                Err(e) => Err(e),
                Ok(bytes) => strings_effect(
                    image,
                    base,
                    order,
                    slots,
                    from + 1,
                    args,
                    code_len,
                    return_pos,
                    Pool {
                        data: pool.data + bytes,
                        pointers: pool.pointers.push(
                            Pointer {
                                at: (code_len + 4 * (slot + 1)) as usize,
                                points_to: pool.data.len() as u32,
                                ptype: PointerType::Data,
                            },
                        ),
                    },
                ),
            }
        }
    }
}

/// The argument slots that the instruction refers to strings with: those of
/// the string definition that classifies it, none if there is no such
/// definition.
pub open spec fn string_slots(table: OperationTable, op: RawOp, scene: i32) -> Seq<(i8, bool)> {
    match matching_args_def(table.strings, op, scene) {
        None => Seq::empty(),
        Some(def) => def.args,
    }
}

/// The nesting counter after an instruction: one more after a depth
/// operation, then one less after an undepth operation, but never below
/// zero.
pub open spec fn depth_after(table: OperationTable, op: RawOp, scene: i32, depth: nat) -> nat {
    let opened = if matching_def(table.depths, op, scene) is Some {
        depth + 1
    } else {
        depth
    };
    if matching_def(table.undepths, op, scene) is Some && opened > 0 {
        (opened - 1) as nat
    } else {
        opened
    }
}

/// Whether the instruction ends its subroutine: a return operation met
/// while the nesting counter is zero.
pub open spec fn ends_subroutine(table: OperationTable, op: RawOp, scene: i32, depth: nat) -> bool {
    matching_def(table.returns, op, scene) is Some && depth == 0
}

/// The state of the engine while it walks through one subroutine.
pub ghost struct Walk {
    /// Where in the input the next instruction stands.
    pub pos: int,
    /// The current scene.
    pub scene: i32,
    /// The nesting counter.
    pub depth: nat,
    /// Whether the subroutine's last instruction was met.
    pub done: bool,
    /// The worklist.
    pub queue: Seq<(u32, i32)>,
    /// The code laid out so far.
    pub code: Seq<u8>,
    /// The data pool so far.
    pub data: Seq<u8>,
    /// The pointers recorded in this subroutine so far.
    pub pointers: Seq<Pointer>,
}

/// The pointers with the one that a call recorded, if any, added.
pub open spec fn with_pointer(pointers: Seq<Pointer>, pointer: Option<Pointer>) -> Seq<Pointer> {
    match pointer {
        Some(p) => pointers.push(p),
        None => pointers,
    }
}

/// The state after the instruction at `walk.pos`. The roles are tried in a
/// fixed order, and an instruction that fits several plays each of them:
/// scene, call, string, depth, undepth, return. Whatever the roles, the
/// instruction's first word goes to the code as it was read, followed by its
/// argument words, a call's target rewritten.
#[verifier::opaque]
pub open spec fn step(
    table: OperationTable,
    image: Image,
    base: u32,
    order: ByteOrder,
    walk: Walk,
) -> Result<Walk, ExtractError> {
    match decode_at(image, walk.pos, walk.scene, order) {
        None => Err(ExtractError::Io(StreamError::UnexpectedEof)),
        Some(decoded) => {
            let op = decoded.op;
            let next_pos = walk.pos + decoded.size();
            if walk.code.len() + decoded.size() > u32::MAX {
                Err(ExtractError::TooLarge)
            } else {
                match scene_after(table, op, walk.scene) {
                    Err(e) => Err(e),
                    Ok(scene) => match call_effect(
                        table,
                        base,
                        op,
                        scene,
                        walk.queue,
                        walk.code.len() as int,
                    ) {
                        Err(e) => Err(e),
                        Ok(call) => match strings_effect(
                            image,
                            base,
                            order,
                            string_slots(table, op, scene),
                            0,
                            op.args,
                            walk.code.len() as int,
                            next_pos,
                            Pool {
                                data: walk.data,
                                pointers: with_pointer(walk.pointers, call.pointer),
                            },
                        ) {
                            Err(e) => Err(e),
                            Ok(pool) => {
                                let depth = depth_after(table, op, scene, walk.depth);
                                Ok(
                                    Walk {
                                        pos: next_pos,
                                        scene,
                                        depth,
                                        done: ends_subroutine(table, op, scene, depth),
                                        queue: call.queue,
                                        code: walk.code + u32_bytes(decoded.word, order)
                                            + words_bytes(call.args, order),
                                        data: pool.data,
                                        pointers: pool.pointers,
                                    },
                                )
                            },
                        },
                    },
                }
            }
        },
    }
}

/// A step moves on in the image, and stays within it.
pub proof fn lemma_step_advances(
    table: OperationTable,
    image: Image,
    base: u32,
    order: ByteOrder,
    walk: Walk,
)
    ensures
        step(table, image, base, order, walk) matches Ok(next) ==> 0 <= walk.pos < next.pos
            <= image.bytes.len(),
{
    reveal(step);
    reveal(decode_at);
}

/// The state at the end of the subroutine that `walk` stands in: the
/// instructions are stepped through until one ends the subroutine.
pub open spec fn run_subroutine(
    table: OperationTable,
    image: Image,
    base: u32,
    order: ByteOrder,
    walk: Walk,
) -> Result<Walk, ExtractError>
    decreases image.bytes.len() - walk.pos,
{
    match step(table, image, base, order, walk) {
        Err(e) => Err(e),
        Ok(next) => if next.done {
            Ok(next)
        } else {
            proof {
                lemma_step_advances(table, image, base, order, walk);
            }
            run_subroutine(table, image, base, order, next)
        },
    }
}

/// The state in which the walk through a subroutine starts: at the
/// subroutine's first instruction, with the scene it was met in and no
/// open block.
pub open spec fn walk_from(
    pos: int,
    scene: i32,
    queue: Seq<(u32, i32)>,
    code: Seq<u8>,
    data: Seq<u8>,
) -> Walk {
    Walk { pos, scene, depth: 0, done: false, queue, code, data, pointers: Seq::empty() }
}

/// The state at the end of the subroutine that entry `cursor` of the
/// worklist names. Its address must not lie below the base, and the source
/// must be able to seek to it.
pub open spec fn subroutine_at(
    table: OperationTable,
    image: Image,
    base: u32,
    order: ByteOrder,
    queue: Seq<(u32, i32)>,
    cursor: int,
    code: Seq<u8>,
    data: Seq<u8>,
) -> Result<Walk, ExtractError> {
    let (addr, scene) = queue[cursor];
    if addr < base {
        Err(ExtractError::BelowBase)
    } else if !image.seekable.contains(addr - base) {
        Err(ExtractError::Io(StreamError::NotAvailable))
    } else {
        run_subroutine(table, image, base, order, walk_from(addr - base, scene, queue, code, data))
    }
}

/// The most entries that a worklist holds: one for each 32-bit address.
pub const WORKLIST_LIMIT: u64 = 0x1_0000_0000;

/// What an extraction has found so far.
pub ghost struct Found {
    /// The worklist: each subroutine's address, and the scene it was met in.
    pub queue: Seq<(u32, i32)>,
    /// The function start table: for each subroutine that was walked
    /// through, its address less the base, and the offset of its first
    /// instruction in the code.
    pub functions: Map<u32, u32>,
    /// The code of the subroutines walked through, in worklist order.
    pub code: Seq<u8>,
    /// The data pool.
    pub data: Seq<u8>,
    /// The pointers recorded, in the order in which they were met.
    pub pointers: Seq<Pointer>,
}

/// What is found after the subroutine of entry `cursor` of the worklist was
/// walked through: its start is entered in the function start table, and
/// its code, strings, pointers and callees are added.
pub open spec fn visit(
    table: OperationTable,
    image: Image,
    base: u32,
    order: ByteOrder,
    found: Found,
    cursor: int,
) -> Result<Found, ExtractError> {
    match subroutine_at(table, image, base, order, found.queue, cursor, found.code, found.data) {
        Err(e) => Err(e),
        Ok(end) => Ok(
            Found {
                queue: end.queue,
                functions: found.functions.insert(
                    (found.queue[cursor].0 - base) as u32,
                    found.code.len() as u32,
                ),
                code: end.code,
                data: end.data,
                pointers: found.pointers + end.pointers,
            },
        ),
    }
}

/// What is found when the worklist has been gone through from entry
/// `cursor` on, entries added on the way included. (The limit on the cursor
/// never cuts a worklist short: its addresses are distinct.)
pub open spec fn run_worklist(
    table: OperationTable,
    image: Image,
    base: u32,
    order: ByteOrder,
    found: Found,
    cursor: int,
) -> Result<Found, ExtractError>
    decreases WORKLIST_LIMIT - cursor,
{
    if 0 <= cursor < found.queue.len() && cursor < WORKLIST_LIMIT {
        match visit(table, image, base, order, found, cursor) {
            Err(e) => Err(e),
            Ok(next) => run_worklist(table, image, base, order, next, cursor + 1),
        }
    } else {
        Ok(found)
    }
}

/// The worklist that the entry points make: each in turn, with no scene,
/// unless it is on the list already.
pub open spec fn seeded(entries: Seq<u32>) -> Seq<(u32, i32)>
    decreases entries.len(),
{
    if entries.len() == 0 {
        Seq::empty()
    } else {
        enqueue(seeded(entries.drop_last()), entries.last(), NO_SCENE)
    }
}

/// What the entry points lead to: everything that is found when the
/// worklist they make has been gone through. An empty list of entry points
/// is refused.
pub open spec fn discovered(
    table: OperationTable,
    image: Image,
    base: u32,
    order: ByteOrder,
    entries: Seq<u32>,
) -> Result<Found, ExtractError> {
    if entries.len() == 0 {
        Err(ExtractError::NoEntryPoints)
    } else {
        run_worklist(
            table,
            image,
            base,
            order,
            Found {
                queue: seeded(entries),
                functions: Map::empty(),
                code: Seq::empty(),
                data: Seq::empty(),
                pointers: Seq::empty(),
            },
            0,
        )
    }
}

/// The value that relocation gives a pointer: for a code pointer, the start
/// of its target in the code, looked up in the function start table; for a
/// data pointer, the offset in the data pool that it holds already.
pub open spec fn resolved(pointer: Pointer, functions: Map<u32, u32>) -> Option<u32> {
    match pointer.ptype {
        PointerType::Tickflow => if functions.contains_key(pointer.points_to) {
            Some(functions[pointer.points_to])
        } else {
            None
        },
        PointerType::Data => Some(pointer.points_to),
    }
}

/// `code` with the four bytes at `at` replaced by the bytes of `value`.
#[verifier::opaque]
pub open spec fn patched(code: Seq<u8>, at: int, value: u32, order: ByteOrder) -> Seq<u8>
    recommends
        0 <= at,
        at + 4 <= code.len(),
{
    code.subrange(0, at) + u32_bytes(value, order) + code.subrange(at + 4, code.len() as int)
}

/// Patching changes the four bytes at its place, and nothing else.
#[verifier::rlimit(50)]
pub proof fn lemma_patched(code: Seq<u8>, at: int, value: u32, order: ByteOrder)
    requires
        0 <= at,
        at + 4 <= code.len(),
    ensures
        patched(code, at, value, order).len() == code.len(),
        patched(code, at, value, order).subrange(at, at + 4) == u32_bytes(value, order),
        forall|i: int|
            0 <= i < code.len() && !(at <= i < at + 4) ==> #[trigger] patched(
                code,
                at,
                value,
                order,
            )[i] == code[i],
{
    reveal(patched);
    crate::endian::lemma_u32_bytes_round_trip(value, order);
    assert(patched(code, at, value, order).subrange(at, at + 4) =~= u32_bytes(value, order));
}

/// Code and pointers after relocation.
pub ghost struct Relocated {
    pub code: Seq<u8>,
    pub pointers: Seq<Pointer>,
}

/// The code and the pointers after the pointers from `from` on were
/// relocated, each in turn: the pointer's value is patched into the code at
/// the pointer's place, and the pointer holds that value from then on.
#[verifier::rlimit(50)]
pub open spec fn relocated(
    code: Seq<u8>,
    pointers: Seq<Pointer>,
    functions: Map<u32, u32>,
    order: ByteOrder,
    from: int,
) -> Result<Relocated, ExtractError>
    decreases pointers.len() - from,
{
    if from < 0 || from >= pointers.len() {
        Ok(Relocated { code, pointers })
    } else {
        let pointer = pointers[from];
        match resolved(pointer, functions) {
            None => Err(ExtractError::UnknownFunction),
            Some(value) => if pointer.at + 4 > code.len() {
                Err(ExtractError::OutOfBounds)
            } else {
                relocated(
                    patched(code, pointer.at as int, value, order),
                    pointers.update(
                        from,
                        Pointer { at: pointer.at, points_to: value, ptype: pointer.ptype },
                    ),
                    functions,
                    order,
                    from + 1,
                )
            },
        }
    }
}

/// The container that what was found makes once its pointers are
/// relocated: the code starts at offset zero, there are no tempos, and the
/// pointer table is left out when there is no pointer.
pub open spec fn assembled(found: Found, btks_type: BtksType, order: ByteOrder) -> Result<
    Container,
    ExtractError,
> {
    match relocated(found.code, found.pointers, found.functions, order, 0) {
        Err(e) => Err(e),
        Ok(done) => Ok(
            Container {
                btks_type,
                start_offset: 0,
                code: done.code,
                ptro: if done.pointers.len() == 0 {
                    None
                } else {
                    Some(done.pointers)
                },
                tmpo: None,
                strd: found.data,
            },
        ),
    }
}

/// The container that an extraction gives: what the entry points lead to,
/// relocated and assembled.
pub open spec fn extracted(
    table: OperationTable,
    image: Image,
    base: u32,
    order: ByteOrder,
    btks_type: BtksType,
    entries: Seq<u32>,
) -> Result<Container, ExtractError> {
    match discovered(table, image, base, order, entries) {
        Err(e) => Err(e),
        Ok(found) => assembled(found, btks_type, order),
    }
}

/// The roles that an instruction plays.
pub ghost struct RolesOf {
    /// The argument slot that the scene is taken from, if the instruction
    /// is the scene operation.
    pub scene: Option<i8>,
    pub call: bool,
    pub string: bool,
    pub depth: bool,
    pub undepth: bool,
    pub returns: bool,
}

impl RolesOf {
    /// The number of roles.
    pub open spec fn count(self) -> int {
        (if self.scene is Some {
            1int
        } else {
            0int
        }) + (if self.call {
            1int
        } else {
            0int
        }) + (if self.string {
            1int
        } else {
            0int
        }) + (if self.depth {
            1int
        } else {
            0int
        }) + (if self.undepth {
            1int
        } else {
            0int
        }) + (if self.returns {
            1int
        } else {
            0int
        })
    }
}

/// The roles that an instruction plays while `scene` is the scene after
/// it: whether it is the scene operation is a matter of the instruction
/// alone, every other role one of the scene as well.
pub open spec fn roles_of(table: OperationTable, op: RawOp, scene: i32) -> RolesOf {
    RolesOf {
        scene: scene_slot(table.scene, op),
        call: matching_args_def(table.calls, op, scene) is Some,
        string: matching_args_def(table.strings, op, scene) is Some,
        depth: matching_def(table.depths, op, scene) is Some,
        undepth: matching_def(table.undepths, op, scene) is Some,
        returns: matching_def(table.returns, op, scene) is Some,
    }
}

} // verus!
