//! The extraction engine: finds the subroutines that a set of entry points
//! reaches, lays their code out in one buffer, collects the strings they
//! refer to, and relocates every pointer to where its target ended up.
use crate::data::btks::{FlowSection, BTKS};
use crate::data::{table_of, OperationSet, RawTickflowOp, NO_SCENE};
use crate::endian::{
    lemma_words_bytes_push, read_u16, read_u8, u32_bytes, words_bytes, write_u32, ByteOrder,
};
use crate::stream::{read_word, ByteSource, StreamError};
use std::collections::HashMap;
use vstd::prelude::*;
use vstd::slice::slice_to_vec;

pub mod dol;
pub mod gold;
pub mod laws;
pub mod megamix;
pub mod model;

use laws::{distinct_addresses, lemma_distinct_bound, lemma_subroutine_queue};
use model::{
    call_effect, decode_at, depth_after, discovered, extracted, padded, patched, placeholder,
    queued, relocated, resolved, roles_of, run_subroutine, run_worklist, scene_after, seeded,
    step, string_at, string_bytes, string_slots, strings_effect, subroutine_at, walk_from,
    with_pointer, Decoded, Found, Pool, Relocated, RolesOf, Walk, WORKLIST_LIMIT,
};

verus! {

/// What a relocated pointer points into.
#[derive(Debug, Clone, Copy, PartialEq, Eq, Structural)]
pub enum PointerType {
    /// Into the data pool.
    Data,
    /// Into the code, at the start of a subroutine.
    Tickflow,
}

impl PointerType {
    /// The byte that stands for the kind in a container.
    pub open spec fn tag_spec(self) -> u8 {
        match self {
            PointerType::Data => 0,
            PointerType::Tickflow => 1,
        }
    }

    /// The byte that stands for the kind in a container.
    pub fn tag(self) -> (tag: u8)
        ensures
            tag == self.tag_spec(),
    {
        match self {
            PointerType::Data => 0,
            PointerType::Tickflow => 1,
        }
    }
}

/// A place in the code where a four-byte value must be patched.
#[derive(Debug, Clone, Copy, PartialEq, Eq, Structural)]
pub struct Pointer {
    /// The offset in the code of the four bytes to patch.
    pub at: usize,
    /// Before relocation, the target: for code, its address less the base;
    /// for data, its offset in the data pool. After relocation, the value
    /// that was patched in.
    pub points_to: u32,
    pub ptype: PointerType,
}

/// Why an extraction failed. There is no partial result: an extraction
/// either gives a complete container or one of these.
#[derive(Debug, Clone, Copy, PartialEq, Eq, Structural)]
pub enum ExtractError {
    /// The list of entry points was empty.
    NoEntryPoints,
    /// A seek or a read on the input failed.
    Io(StreamError),
    /// A code address lies below the base offset.
    BelowBase,
    /// A definition refers to an argument that the instruction does not have.
    MissingArgument,
    /// The code or the data pool outgrew what a 32-bit offset can reach.
    TooLarge,
    /// A code pointer's target has no entry in the function start table.
    UnknownFunction,
    /// A pointer's four bytes do not lie within the code.
    OutOfBounds,
}

/// Reads one instruction: its first word, and as many argument words as the
/// word's count field says. The word is handed back as it was read, beside
/// what it holds, so that it can be written out again unchanged.
#[verifier::loop_isolation(false)]
#[verifier::rlimit(50)]
pub fn binary_to_raw_tf_op<S: ByteSource>(data: &mut S, scene: i32, endian: ByteOrder) -> (read:
    Result<(u32, RawTickflowOp), StreamError>)
    requires
        old(data).inv(),
    ensures
        final(data).inv(),
        final(data).image() == old(data).image(),
        match read {
            Ok((word, op)) => {
                &&& decode_at(old(data).image(), old(data).position(), scene, endian) == Some(
                    Decoded { word, op: op@ },
                )
                &&& final(data).position() == old(data).position() + 4 + 4 * op.args.len()
                &&& op.args.len() < 0x10
            },
            Err(e) => {
                &&& decode_at(old(data).image(), old(data).position(), scene, endian) is None
                &&& e == StreamError::UnexpectedEof
            },
        },
{
    reveal(decode_at);
    let ghost image = data.image();
    let ghost start = data.position();
    let op_int = match read_word(data, endian) {
        Ok(word) => word,
        Err(e) => {
            return Err(e);
        },
    };
    assert(op_int & 0x3FF == op_int % 0x400) by (bit_vector);
    assert(op_int >> 14 == op_int / 0x4000) by (bit_vector);
    assert((op_int & 0x3C00) >> 10 == (op_int / 0x400) % 0x10) by (bit_vector);
    let op = (op_int & 0x3FF) as u16;
    let arg0 = op_int >> 14;
    let arg_count = ((op_int & 0x3C00) >> 10) as u8;
    let mut args: Vec<u32> = Vec::new();
    let mut i: u8 = 0;
    while i < arg_count
        invariant
            data.inv(),
            data.image() == image,
            i <= arg_count < 0x10,
            data.position() == start + 4 + 4 * i,
            image.readable(start, 4 + 4 * i),
            args@.len() == i,
            forall|k: int|
                0 <= k < i ==> #[trigger] args@[k] == crate::endian::u32_of_bytes(
                    image.read(start + 4 + 4 * k, 4),
                    endian,
                ),
        decreases arg_count - i,
    {
        let word = match read_word(data, endian) {
            Ok(word) => word,
            Err(e) => {
                assert(!image.readable(start, 4 + 4 * arg_count)) by {
                    if image.readable(start, 4 + 4 * arg_count) {
                        assert(image.readable(start + 4 + 4 * i, 4));
                    }
                }
                return Err(e);
            },
        };
        args.push(word);
        i += 1;
    }
    let raw = RawTickflowOp { op, arg0, args, scene };
    proof {
        let decoded = decode_at(image, start, scene, endian);
        assert(decoded is Some);
        assert(decoded->0.op.args =~= raw@.args);
    }
    Ok((op_int, raw))
}

/// `rest` with `prefix` before it, where there is a `rest`.
pub open spec fn prepend(prefix: Seq<u8>, rest: Option<Seq<u8>>) -> Option<Seq<u8>> {
    match rest {
        None => None,
        Some(rest) => Some(prefix + rest),
    }
}

/// Reads the string that an argument refers to, and comes back to where the
/// source stood. An address below the base is not looked up: it gives two
/// zero bytes.
#[verifier::loop_isolation(false)]
#[verifier::rlimit(50)]
pub fn read_string<S: ByteSource>(
    base_offset: u32,
    file: &mut S,
    pos: u32,
    is_unicode: bool,
    endian: ByteOrder,
) -> (read: Result<Vec<u8>, StreamError>)
    requires
        old(file).inv(),
    ensures
        final(file).inv(),
        final(file).image() == old(file).image(),
        match read {
            Ok(bytes) => {
                &&& string_bytes(
                    old(file).image(),
                    base_offset,
                    endian,
                    pos,
                    is_unicode,
                    old(file).position(),
                ) == Ok::<Seq<u8>, ExtractError>(bytes@)
                &&& final(file).position() == old(file).position()
            },
            Err(e) => string_bytes(
                old(file).image(),
                base_offset,
                endian,
                pos,
                is_unicode,
                old(file).position(),
            ) == Err::<Seq<u8>, ExtractError>(ExtractError::Io(e)),
        },
{
    reveal(string_bytes);
    let ghost image = file.image();
    let og_pos = file.stream_position();
    if pos < base_offset {
        let mut empty: Vec<u8> = Vec::new();
        empty.push(0);
        empty.push(0);
        assert(empty@ =~= placeholder());
        return Ok(empty);
    }
    let start = (pos - base_offset) as u64;
    match file.seek(start) {
        Ok(()) => {},
        Err(e) => {
            return Err(e);
        },
    }
    let mut string_data: Vec<u8> = Vec::new();
    let mut finished = false;
    assert(Seq::<u8>::empty() + string_at(image, start as int, is_unicode, endian)->0
        =~= string_at(image, start as int, is_unicode, endian)->0);
    while !finished
        invariant
            file.inv(),
            file.image() == image,
            finished ==> string_at(image, start as int, is_unicode, endian) == Some(string_data@),
            !finished ==> string_at(image, start as int, is_unicode, endian) == prepend(
                string_data@,
                string_at(image, file.position(), is_unicode, endian),
            ),
        decreases image.bytes.len() - file.position(),
    {
        let ghost before = string_data@;
        let ghost here = file.position();
        if is_unicode {
            let unit = match file.read_exact(2) {
                Ok(bytes) => bytes,
                Err(e) => {
                    return Err(e);
                },
            };
            assert(unit@.subrange(0, 2) =~= unit@);
            let chr = match read_u16(unit.as_slice(), endian) {
                Some(chr) => chr,
                None => {
                    return Err(StreamError::UnexpectedEof);
                },
            };
            string_data.push((chr % 0x100) as u8);
            string_data.push((chr / 0x100) as u8);
            assert(string_data@ =~= before + crate::endian::u16_le_bytes(chr));
            if chr == 0 {
                finished = true;
            } else {
                let ghost rest = string_at(image, here + 2, is_unicode, endian);
                assert(rest matches Some(r) ==> before + (crate::endian::u16_le_bytes(chr) + r)
                    =~= string_data@ + r);
            }
        } else {
            let unit = match file.read_exact(1) {
                Ok(bytes) => bytes,
                Err(e) => {
                    return Err(e);
                },
            };
            let chr = match read_u8(unit.as_slice(), endian) {
                Some(chr) => chr,
                None => {
                    return Err(StreamError::UnexpectedEof);
                },
            };
            string_data.push(chr);
            assert(string_data@ =~= before + seq![chr]);
            if chr == 0 {
                finished = true;
            } else {
                let ghost rest = string_at(image, here + 1, is_unicode, endian);
                assert(rest matches Some(r) ==> before + (seq![chr] + r) =~= string_data@ + r);
            }
        }
    }
    let ghost units = string_data@;
    let padding = 4 - string_data.len() % 4;
    let mut added: usize = 0;
    while added < padding
        invariant
            added <= padding,
            padding == 4 - units.len() % 4,
            string_data@ == units + Seq::new(added as nat, |i: int| 0u8),
        decreases padding - added,
    {
        string_data.push(0);
        added += 1;
        assert(string_data@ =~= units + Seq::new(added as nat, |i: int| 0u8));
    }
    assert(string_data@ == padded(units));
    match file.seek(og_pos) {
        Ok(()) => {},
        Err(e) => {
            return Err(e);
        },
    }
    Ok(string_data)
}

/// The scene after an instruction: the instruction's own choice where it is
/// the scene operation, the scene before otherwise.
pub fn next_scene<T: OperationSet>(op: &RawTickflowOp, scene: i32) -> (next: Result<
    i32,
    ExtractError,
>)
    ensures
        next == scene_after(table_of::<T>(), op@, scene),
{
    reveal(scene_after);
    match T::is_scene_operation(op) {
        None => Ok(scene),
        Some(c) => {
            let chosen = if c == -1 {
                op.arg0
            } else if c >= 0 && (c as usize) < op.args.len() {
                op.args[c as usize]
            } else {
                return Err(ExtractError::MissingArgument);
            };
            if chosen >= 0x8000_0000 {
                Ok((chosen - 0x8000_0000) as i32 + i32::MIN)
            } else {
                Ok(chosen as i32)
            }
        },
    }
}

/// Whether an address is on the worklist.
pub fn is_queued(queue: &Vec<(u32, i32)>, addr: u32) -> (found: bool)
    ensures
        found == queued(queue@, addr),
{
    let mut i: usize = 0;
    while i < queue.len()
        invariant
            i <= queue.len(),
            forall|k: int| 0 <= k < i ==> (#[trigger] queue@[k]).0 != addr,
        decreases queue.len() - i,
    {
        if queue[i].0 == addr {
            return true;
        }
        i += 1;
    }
    false
}

/// Plays an instruction's part as a call: puts the target on the worklist
/// unless it is there, rewrites the target in `args` to the target less the
/// base, and records a code pointer at the argument's place. `code_len` is
/// the length of the code before the instruction.
#[verifier::rlimit(50)]
pub fn record_call<T: OperationSet>(
    base_offset: u32,
    op: &RawTickflowOp,
    scene: i32,
    queue: &mut Vec<(u32, i32)>,
    code_len: usize,
    args: &mut Vec<u32>,
    pointers: &mut Vec<Pointer>,
) -> (done: Result<(), ExtractError>)
    requires
        old(args)@ == op@.args,
        code_len + 4 + 4 * op.args.len() <= usize::MAX,
    ensures
        match done {
            Ok(()) => {
                &&& call_effect(
                    table_of::<T>(),
                    base_offset,
                    op@,
                    scene,
                    old(queue)@,
                    code_len as int,
                ) matches Ok(effect)
                &&& effect.queue == final(queue)@
                &&& effect.args == final(args)@
                &&& final(args)@.len() == old(args)@.len()
                &&& final(pointers)@ == with_pointer(old(pointers)@, effect.pointer)
            },
            Err(e) => call_effect(
                table_of::<T>(),
                base_offset,
                op@,
                scene,
                old(queue)@,
                code_len as int,
            ) == Err::<model::CallEffect, ExtractError>(e),
        },
{
    reveal(call_effect);
    match T::is_call_operation(op, scene) {
        None => Ok(()),
        Some(c) => {
            if c.args.len() == 0 {
                return Err(ExtractError::MissingArgument);
            }
            let slot = c.args[0].0;
            if slot < 0 || slot as usize >= op.args.len() {
                return Err(ExtractError::MissingArgument);
            }
            let pointer_pos = op.args[slot as usize];
            if pointer_pos != 0 {
                if pointer_pos < base_offset {
                    return Err(ExtractError::BelowBase);
                }
                if !is_queued(queue, pointer_pos) {
                    queue.push((pointer_pos, scene));
                }
                args[slot as usize] = pointer_pos - base_offset;
                pointers.push(
                    Pointer {
                        at: code_len + 4 * (slot as usize + 1),
                        points_to: pointer_pos - base_offset,
                        ptype: PointerType::Tickflow,
                    },
                );
            }
            Ok(())
        },
    }
}

/// Plays an instruction's part as a string operation: for each argument slot
/// of its definition, records a data pointer to the end of the data pool
/// and adds the string that the argument refers to. `code_len` is the length
/// of the code before the instruction; the source stands behind the
/// instruction, and is back there afterwards.
#[verifier::loop_isolation(false)]
#[verifier::rlimit(50)]
pub fn record_strings<T: OperationSet, S: ByteSource>(
    base_offset: u32,
    file: &mut S,
    op: &RawTickflowOp,
    scene: i32,
    code_len: usize,
    bindata: &mut Vec<u8>,
    pointers: &mut Vec<Pointer>,
) -> (done: Result<(), ExtractError>)
    requires
        old(file).inv(),
        code_len + 4 + 4 * op.args.len() <= usize::MAX,
    ensures
        final(file).inv(),
        final(file).image() == old(file).image(),
        match done {
            Ok(()) => {
                &&& strings_effect(
                    old(file).image(),
                    base_offset,
                    T::byte_order(),
                    string_slots(table_of::<T>(), op@, scene),
                    0,
                    op@.args,
                    code_len as int,
                    old(file).position(),
                    Pool { data: old(bindata)@, pointers: old(pointers)@ },
                ) == Ok::<Pool, ExtractError>(
                    Pool { data: final(bindata)@, pointers: final(pointers)@ },
                )
                &&& final(file).position() == old(file).position()
            },
            Err(e) => strings_effect(
                old(file).image(),
                base_offset,
                T::byte_order(),
                string_slots(table_of::<T>(), op@, scene),
                0,
                op@.args,
                code_len as int,
                old(file).position(),
                Pool { data: old(bindata)@, pointers: old(pointers)@ },
            ) == Err::<Pool, ExtractError>(e),
        },
{
    let ghost image = file.image();
    let ghost here = file.position();
    let ghost slots = string_slots(table_of::<T>(), op@, scene);
    let ghost goal = strings_effect(
        image,
        base_offset,
        T::byte_order(),
        slots,
        0,
        op@.args,
        code_len as int,
        here,
        Pool { data: bindata@, pointers: pointers@ },
    );
    match T::is_string_operation(op, scene) {
        None => Ok(()),
        Some(c) => {
            let mut k: usize = 0;
            while k < c.args.len()
                invariant
                    file.inv(),
                    file.image() == image,
                    file.position() == here,
                    k <= c.args.len(),
                    c.args@ == slots,
                    goal == strings_effect(
                        image,
                        base_offset,
                        T::byte_order(),
                        slots,
                        k as int,
                        op@.args,
                        code_len as int,
                        here,
                        Pool { data: bindata@, pointers: pointers@ },
                    ),
                decreases c.args.len() - k,
            {
                let (arg, is_special) = c.args[k];
                if arg < 0 || arg as usize >= op.args.len() {
                    return Err(ExtractError::MissingArgument);
                }
                if bindata.len() > u32::MAX as usize {
                    return Err(ExtractError::TooLarge);
                }
                pointers.push(
                    Pointer {
                        at: code_len + 4 * (arg as usize + 1),
                        points_to: bindata.len() as u32,
                        ptype: PointerType::Data,
                    },
                );
                let mut bytes = match read_string(
                    base_offset,
                    file,
                    op.args[arg as usize],
                    is_special,
                    T::endian(),
                ) {
                    Ok(bytes) => bytes,
                    Err(e) => {
                        return Err(ExtractError::Io(e));
                    },
                };
                bindata.append(&mut bytes);
                k += 1;
            }
            Ok(())
        },
    }
}

/// The nesting counter after an instruction.
pub fn next_depth<T: OperationSet>(op: &RawTickflowOp, scene: i32, depth: u64) -> (next: u64)
    requires
        depth < u64::MAX,
    ensures
        next == depth_after(table_of::<T>(), op@, scene, depth as nat),
{
    let mut depth = depth;
    if T::is_depth_operation(op, scene).is_some() {
        depth += 1;
    }
    if T::is_undepth_operation(op, scene).is_some() && depth > 0 {
        depth -= 1;
    }
    depth
}

/// Appends an instruction to the code: its first word, then its argument
/// words.
#[verifier::rlimit(50)]
pub fn emit(bincmds: &mut Vec<u8>, word: u32, args: &Vec<u32>, endian: ByteOrder)
    ensures
        final(bincmds)@ == old(bincmds)@ + u32_bytes(word, endian) + words_bytes(args@, endian),
{
    let ghost before = bincmds@;
    write_u32(bincmds, word, endian);
    let mut k: usize = 0;
    assert(words_bytes(args@.take(0), endian) =~= Seq::<u8>::empty());
    assert(bincmds@ =~= before + u32_bytes(word, endian) + words_bytes(args@.take(0), endian));
    while k < args.len()
        invariant
            k <= args.len(),
            bincmds@ == before + u32_bytes(word, endian) + words_bytes(args@.take(k as int), endian),
        decreases args.len() - k,
    {
        write_u32(bincmds, args[k], endian);
        proof {
            lemma_words_bytes_push(args@.take(k as int), args@[k as int], endian);
            assert(args@.take(k as int).push(args@[k as int]) =~= args@.take(k + 1));
            assert(bincmds@ =~= before + u32_bytes(word, endian) + words_bytes(
                args@.take(k + 1),
                endian,
            ));
        }
        k += 1;
    }
    assert(args@.take(args.len() as int) =~= args@);
}

/// Takes one instruction of a subroutine: reads it where the source
/// stands, plays its roles on the worklist, the data pool, the pointers, the
/// scene and the nesting counter, and lays it out at the end of the code.
/// Says whether the instruction ended the subroutine.
#[verifier::rlimit(50)]
pub fn extract_instruction<T: OperationSet, S: ByteSource>(
    base_offset: u32,
    file: &mut S,
    queue: &mut Vec<(u32, i32)>,
    bincmds: &mut Vec<u8>,
    bindata: &mut Vec<u8>,
    pointers: &mut Vec<Pointer>,
    scene: &mut i32,
    depth: &mut u64,
) -> (ended: Result<bool, ExtractError>)
    requires
        old(file).inv(),
        old(bincmds).len() <= u32::MAX,
        *old(depth) < u64::MAX,
    ensures
        final(file).inv(),
        final(file).image() == old(file).image(),
        match ended {
            Ok(done) => {
                &&& step(
                    table_of::<T>(),
                    old(file).image(),
                    base_offset,
                    T::byte_order(),
                    Walk {
                        pos: old(file).position(),
                        scene: *old(scene),
                        depth: *old(depth) as nat,
                        done: false,
                        queue: old(queue)@,
                        code: old(bincmds)@,
                        data: old(bindata)@,
                        pointers: old(pointers)@,
                    },
                ) == Ok::<Walk, ExtractError>(
                    Walk {
                        pos: final(file).position(),
                        scene: *final(scene),
                        depth: *final(depth) as nat,
                        done,
                        queue: final(queue)@,
                        code: final(bincmds)@,
                        data: final(bindata)@,
                        pointers: final(pointers)@,
                    },
                )
                &&& final(bincmds).len() <= u32::MAX
                &&& final(file).position() >= old(file).position() + 4
                &&& *final(depth) <= *old(depth) + 1
            },
            Err(e) => step(
                table_of::<T>(),
                old(file).image(),
                base_offset,
                T::byte_order(),
                Walk {
                    pos: old(file).position(),
                    scene: *old(scene),
                    depth: *old(depth) as nat,
                    done: false,
                    queue: old(queue)@,
                    code: old(bincmds)@,
                    data: old(bindata)@,
                    pointers: old(pointers)@,
                },
            ) == Err::<Walk, ExtractError>(e),
        },
{
    reveal(step);
    let ghost image = file.image();
    let ghost table = table_of::<T>();
    let ghost walk = Walk {
        pos: file.position(),
        scene: *scene,
        depth: *depth as nat,
        done: false,
        queue: queue@,
        code: bincmds@,
        data: bindata@,
        pointers: pointers@,
    };
    let code_len = bincmds.len();
    let (op_int, tf_op) = match binary_to_raw_tf_op(file, *scene, T::endian()) {
        Ok(read) => read,
        Err(e) => {
            return Err(ExtractError::Io(e));
        },
    };
    let ghost decoded = Decoded { word: op_int, op: tf_op@ };
    assert(decode_at(image, walk.pos, walk.scene, T::byte_order()) == Some(decoded));
    if code_len as u64 + 4 + 4 * (tf_op.args.len() as u64) > u32::MAX as u64 {
        return Err(ExtractError::TooLarge);
    }
    let new_scene = match next_scene::<T>(&tf_op, *scene) {
        Ok(scene) => scene,
        Err(e) => {
            return Err(e);
        },
    };
    let mut args = slice_to_vec(tf_op.args.as_slice());
    match record_call::<T>(base_offset, &tf_op, new_scene, queue, code_len, &mut args, pointers) {
        Ok(()) => {},
        Err(e) => {
            return Err(e);
        },
    }
    let ghost call = call_effect(table, base_offset, tf_op@, new_scene, walk.queue, code_len as int);
    assert(call is Ok);
    match record_strings::<T, S>(
        base_offset,
        file,
        &tf_op,
        new_scene,
        code_len,
        bindata,
        pointers,
    ) {
        Ok(()) => {},
        Err(e) => {
            return Err(e);
        },
    }
    let new_depth = next_depth::<T>(&tf_op, new_scene, *depth);
    let done = T::is_return_operation(&tf_op, new_scene).is_some() && new_depth == 0;
    emit(bincmds, op_int, &args, T::endian());
    *scene = new_scene;
    *depth = new_depth;
    Ok(done)
}

/// Walks through the subroutine that entry `pos` of the worklist names:
/// lays its instructions out at the end of `bincmds`, adds its strings to
/// `bindata` and the subroutines it calls to `queue`, and hands back the
/// pointers it recorded.
#[verifier::loop_isolation(false)]
#[verifier::rlimit(50)]
pub fn extract_tickflow_at<T: OperationSet, S: ByteSource>(
    base_offset: u32,
    file: &mut S,
    queue: &mut Vec<(u32, i32)>,
    pos: usize,
    bincmds: &mut Vec<u8>,
    bindata: &mut Vec<u8>,
) -> (found: Result<Vec<Pointer>, ExtractError>)
    requires
        old(file).inv(),
        pos < old(queue).len(),
        old(bincmds).len() <= u32::MAX,
    ensures
        final(file).inv(),
        final(file).image() == old(file).image(),
        match found {
            Ok(pointers) => {
                &&& subroutine_at(
                    table_of::<T>(),
                    old(file).image(),
                    base_offset,
                    T::byte_order(),
                    old(queue)@,
                    pos as int,
                    old(bincmds)@,
                    old(bindata)@,
                ) matches Ok(end)
                &&& end.queue == final(queue)@
                &&& end.code == final(bincmds)@
                &&& end.data == final(bindata)@
                &&& end.pointers == pointers@
                &&& final(bincmds).len() <= u32::MAX
            },
            Err(e) => subroutine_at(
                table_of::<T>(),
                old(file).image(),
                base_offset,
                T::byte_order(),
                old(queue)@,
                pos as int,
                old(bincmds)@,
                old(bindata)@,
            ) == Err::<Walk, ExtractError>(e),
        },
{
    let ghost image = file.image();
    let ghost table = table_of::<T>();
    let mut scene = queue[pos].1;
    let addr = queue[pos].0;
    if addr < base_offset {
        return Err(ExtractError::BelowBase);
    }
    match file.seek((addr - base_offset) as u64) {
        Ok(()) => {},
        Err(e) => {
            return Err(ExtractError::Io(e));
        },
    }
    let mut done = false;
    let mut pointers: Vec<Pointer> = Vec::new();
    let mut depth: u64 = 0;
    let ghost goal = run_subroutine(
        table,
        image,
        base_offset,
        T::byte_order(),
        walk_from(addr - base_offset, scene, queue@, bincmds@, bindata@),
    );
    let ghost mut walk = walk_from(addr - base_offset, scene, queue@, bincmds@, bindata@);
    while !done
        invariant
            file.inv(),
            file.image() == image,
            table == table_of::<T>(),
            walk == (Walk {
                pos: file.position(),
                scene,
                depth: depth as nat,
                done,
                queue: queue@,
                code: bincmds@,
                data: bindata@,
                pointers: pointers@,
            }),
            bincmds.len() <= u32::MAX,
            depth * 4 <= file.position(),
            !done ==> goal == run_subroutine(table, image, base_offset, T::byte_order(), walk),
            done ==> goal == Ok::<Walk, ExtractError>(walk),
        decreases image.bytes.len() - file.position(),
    {
        proof {
            model::lemma_step_advances(table, image, base_offset, T::byte_order(), walk);
            file.lemma_position_in_range();
        }
        match extract_instruction::<T, S>(
            base_offset,
            file,
            queue,
            bincmds,
            bindata,
            &mut pointers,
            &mut scene,
            &mut depth,
        ) {
            Ok(ended) => {
                done = ended;
            },
            Err(e) => {
                return Err(e);
            },
        }
        proof {
            walk = Walk {
                pos: file.position(),
                scene,
                depth: depth as nat,
                done,
                queue: queue@,
                code: bincmds@,
                data: bindata@,
                pointers: pointers@,
            };
        }
    }
    Ok(pointers)
}

/// What an extraction finds before relocation.
#[derive(Debug, Clone)]
pub struct Extraction {
    /// The worklist: each subroutine's address, and the scene it was met in.
    pub queue: Vec<(u32, i32)>,
    /// The function start table: each subroutine's address less the base,
    /// and the offset of its first instruction in the code.
    pub functions: HashMap<u32, u32>,
    /// The code of the subroutines, in worklist order.
    pub code: Vec<u8>,
    /// The data pool.
    pub data: Vec<u8>,
    /// The pointers recorded.
    pub pointers: Vec<Pointer>,
}

impl View for Extraction {
    type V = Found;

    open spec fn view(&self) -> Found {
        Found {
            queue: self.queue@,
            functions: self.functions@,
            code: self.code@,
            data: self.data@,
            pointers: self.pointers@,
        }
    }
}

/// The worklist that a list of entry points starts an extraction with.
#[verifier::rlimit(50)]
pub fn seed_queue(start_queue: &[u32]) -> (queue: Vec<(u32, i32)>)
    ensures
        queue@ == seeded(start_queue@),
        distinct_addresses(queue@),
{
    let mut queue: Vec<(u32, i32)> = Vec::new();
    let mut i: usize = 0;
    assert(start_queue@.take(0) =~= Seq::<u32>::empty());
    while i < start_queue.len()
        invariant
            i <= start_queue.len(),
            queue@ == seeded(start_queue@.take(i as int)),
        decreases start_queue.len() - i,
    {
        let addr = start_queue[i];
        if !is_queued(&queue, addr) {
            queue.push((addr, NO_SCENE));
        }
        assert(start_queue@.take(i + 1).drop_last() =~= start_queue@.take(i as int));
        i += 1;
    }
    assert(start_queue@.take(start_queue.len() as int) =~= start_queue@);
    proof {
        laws::lemma_seeded_distinct(start_queue@);
    }
    queue
}

/// Finds everything that the entry points lead to: goes through the
/// worklist, which grows on the way, and walks through each subroutine
/// once.
#[verifier::rlimit(50)]
pub fn discover<T: OperationSet, S: ByteSource>(
    file: &mut S,
    base_offset: u32,
    start_queue: &[u32],
) -> (found: Result<Extraction, ExtractError>)
    requires
        old(file).inv(),
    ensures
        final(file).inv(),
        final(file).image() == old(file).image(),
        match found {
            Ok(all) => discovered(
                table_of::<T>(),
                old(file).image(),
                base_offset,
                T::byte_order(),
                start_queue@,
            ) == Ok::<Found, ExtractError>(all@),
            Err(e) => discovered(
                table_of::<T>(),
                old(file).image(),
                base_offset,
                T::byte_order(),
                start_queue@,
            ) == Err::<Found, ExtractError>(e),
        },
{
    broadcast use vstd::std_specs::hash::group_hash_axioms;

    if start_queue.len() == 0 {
        return Err(ExtractError::NoEntryPoints);
    }
    let ghost image = file.image();
    let ghost table = table_of::<T>();
    let mut queue = seed_queue(start_queue);
    let mut functions: HashMap<u32, u32> = HashMap::new();
    let mut bincmds: Vec<u8> = Vec::new();
    let mut bindata: Vec<u8> = Vec::new();
    let mut pointers: Vec<Pointer> = Vec::new();
    let mut pos: usize = 0;
    let ghost goal = discovered(table, image, base_offset, T::byte_order(), start_queue@);
    assert(functions@ =~= Map::<u32, u32>::empty());
    while pos < queue.len()
        invariant
            file.inv(),
            file.image() == image,
            image == old(file).image(),
            table == table_of::<T>(),
            goal == discovered(table, image, base_offset, T::byte_order(), start_queue@),
            pos <= queue.len(),
            distinct_addresses(queue@),
            bincmds.len() <= u32::MAX,
            goal == run_worklist(
                table,
                image,
                base_offset,
                T::byte_order(),
                Found {
                    queue: queue@,
                    functions: functions@,
                    code: bincmds@,
                    data: bindata@,
                    pointers: pointers@,
                },
                pos as int,
            ),
        decreases WORKLIST_LIMIT - pos,
    {
        proof {
            lemma_distinct_bound(queue@);
            let (addr, scene) = queue@[pos as int];
            if addr >= base_offset {
                lemma_subroutine_queue(
                    table,
                    image,
                    base_offset,
                    T::byte_order(),
                    walk_from(addr - base_offset, scene, queue@, bincmds@, bindata@),
                );
            }
        }
        let addr = queue[pos].0;
        let start = bincmds.len() as u32;
        let mut found = match extract_tickflow_at::<T, S>(
            base_offset,
            file,
            &mut queue,
            pos,
            &mut bincmds,
            &mut bindata,
        ) {
            Ok(found) => found,
            Err(e) => {
                return Err(e);
            },
        };
        functions.insert(addr - base_offset, start);
        pointers.append(&mut found);
        pos += 1;
        proof {
            lemma_distinct_bound(queue@);
        }
    }
    Ok(Extraction { queue, functions, code: bincmds, data: bindata, pointers })
}

/// Relocates the pointers: patches each pointer's value into the code at
/// the pointer's place, in the given byte order, and lets the pointer hold
/// that value. A code pointer's value is the start of its target,
/// looked up in the function start table; a data pointer's value is the
/// offset it holds already.
#[verifier::loop_isolation(false)]
#[verifier::rlimit(50)]
pub fn relocate(
    bincmds: &mut Vec<u8>,
    pointers: &mut Vec<Pointer>,
    functions: &HashMap<u32, u32>,
    endian: ByteOrder,
) -> (done: Result<(), ExtractError>)
    ensures
        match done {
            Ok(()) => relocated(old(bincmds)@, old(pointers)@, functions@, endian, 0) == Ok::<
                Relocated,
                ExtractError,
            >(Relocated { code: final(bincmds)@, pointers: final(pointers)@ }),
            Err(e) => relocated(old(bincmds)@, old(pointers)@, functions@, endian, 0) == Err::<
                Relocated,
                ExtractError,
            >(e),
        },
{
    broadcast use vstd::std_specs::hash::group_hash_axioms;

    reveal(patched);
    let ghost goal = relocated(bincmds@, pointers@, functions@, endian, 0);
    let mut i: usize = 0;
    while i < pointers.len()
        invariant
            i <= pointers.len(),
            goal == relocated(bincmds@, pointers@, functions@, endian, i as int),
        decreases pointers.len() - i,
    {
        let pointer = pointers[i];
        let val = match pointer.ptype {
            PointerType::Tickflow => match functions.get(&pointer.points_to) {
                Some(start) => *start,
                None => {
                    return Err(ExtractError::UnknownFunction);
                },
            },
            PointerType::Data => pointer.points_to,
        };
        assert(resolved(pointer, functions@) == Some(val));
        if pointer.at > bincmds.len() || bincmds.len() - pointer.at < 4 {
            return Err(ExtractError::OutOfBounds);
        }
        let ghost code = bincmds@;
        let mut bytes: Vec<u8> = Vec::new();
        write_u32(&mut bytes, val, endian);
        assert(bytes@ =~= u32_bytes(val, endian));
        let mut k: usize = 0;
        while k < 4
            invariant
                k <= 4,
                bytes@.len() == 4,
                pointer.at + 4 <= bincmds.len(),
                bincmds.len() == code.len(),
                forall|j: int|
                    0 <= j < code.len() ==> #[trigger] bincmds@[j] == if pointer.at <= j
                        < pointer.at + k {
                        bytes@[j - pointer.at]
                    } else {
                        code[j]
                    },
            decreases 4 - k,
        {
            bincmds[pointer.at + k] = bytes[k];
            k += 1;
        }
        assert(bincmds@ =~= patched(code, pointer.at as int, val, endian));
        pointers[i] = Pointer { at: pointer.at, points_to: val, ptype: pointer.ptype };
        i += 1;
    }
    Ok(())
}

/// Extracts the program that the entry points lead to: finds its
/// subroutines, relocates its pointers and assembles the container.
#[verifier::rlimit(50)]
pub fn extract<T: OperationSet, S: ByteSource>(
    file: &mut S,
    base_offset: u32,
    start_queue: &[u32],
) -> (btks: Result<BTKS, ExtractError>)
    requires
        old(file).inv(),
    ensures
        final(file).inv(),
        final(file).image() == old(file).image(),
        match btks {
            Ok(program) => {
                &&& extracted(
                    table_of::<T>(),
                    old(file).image(),
                    base_offset,
                    T::byte_order(),
                    T::btks_type(),
                    start_queue@,
                ) == Ok::<crate::data::btks::Container, ExtractError>(program@)
                &&& program@.well_formed()
            },
            Err(e) => extracted(
                table_of::<T>(),
                old(file).image(),
                base_offset,
                T::byte_order(),
                T::btks_type(),
                start_queue@,
            ) == Err::<crate::data::btks::Container, ExtractError>(e),
        },
{
    let found = match discover::<T, S>(file, base_offset, start_queue) {
        Ok(found) => found,
        Err(e) => {
            return Err(e);
        },
    };
    let Extraction { queue: _, functions, code: mut bincmds, data: bindata, mut pointers } = found;
    match relocate(&mut bincmds, &mut pointers, &functions, T::endian()) {
        Ok(()) => {},
        Err(e) => {
            return Err(e);
        },
    }
    Ok(
        BTKS {
            btks_type: T::btks_tickflow_type(),
            flow: FlowSection { start_offset: 0, data: bincmds },
            ptro: if pointers.len() == 0 {
                None
            } else {
                Some(pointers)
            },
            strd: bindata,
            tmpo: None,
        },
    )
}

/// The roles that an instruction plays. An instruction is meant to play
/// one role at most. One that plays several is ambiguous: the engine lets
/// it play each of them, in the order scene, call, string, depth, undepth,
/// return, and a caller that wants no such instruction can tell by this.
#[derive(Debug, Clone, Copy, PartialEq, Eq, Structural)]
pub struct Roles {
    /// The argument slot that the scene is taken from, if the instruction
    /// is the scene operation.
    pub scene: Option<i8>,
    pub call: bool,
    pub string: bool,
    pub depth: bool,
    pub undepth: bool,
    pub returns: bool,
}

impl View for Roles {
    type V = RolesOf;

    open spec fn view(&self) -> RolesOf {
        RolesOf {
            scene: self.scene,
            call: self.call,
            string: self.string,
            depth: self.depth,
            undepth: self.undepth,
            returns: self.returns,
        }
    }
}

impl Roles {
    /// The number of roles.
    pub fn count(&self) -> (count: u8)
        ensures
            count == self@.count(),
    {
        let mut count: u8 = 0;
        if self.scene.is_some() {
            count += 1;
        }
        if self.call {
            count += 1;
        }
        if self.string {
            count += 1;
        }
        if self.depth {
            count += 1;
        }
        if self.undepth {
            count += 1;
        }
        if self.returns {
            count += 1;
        }
        count
    }

    /// Whether there is more than one role.
    pub fn is_ambiguous(&self) -> (yes: bool)
        ensures
            yes == (self@.count() > 1),
    {
        self.count() > 1
    }
}

/// The roles that an instruction plays while `scene` is the scene after
/// it.
pub fn classify<T: OperationSet>(op: &RawTickflowOp, scene: i32) -> (roles: Roles)
    ensures
        roles@ == roles_of(table_of::<T>(), op@, scene),
{
    Roles {
        scene: T::is_scene_operation(op),
        call: T::is_call_operation(op, scene).is_some(),
        string: T::is_string_operation(op, scene).is_some(),
        depth: T::is_depth_operation(op, scene).is_some(),
        undepth: T::is_undepth_operation(op, scene).is_some(),
        returns: T::is_return_operation(op, scene).is_some(),
    }
}

} // verus!
