use tickflow::data::btks::{BtksType, FlowSection, BTKS};
use tickflow::data::fever::FeverUsOp;
use tickflow::data::megamix::MegamixOp;
use tickflow::data::RawTickflowOp;
use tickflow::endian::ByteOrder;
use tickflow::extract::{classify, discover, extract, next_depth, PointerType, Roles};
use tickflow::stream::MemoryStream;

fn le(words: &[u32]) -> Vec<u8> {
    words.iter().flat_map(|word| word.to_le_bytes()).collect()
}

fn be(words: &[u32]) -> Vec<u8> {
    words.iter().flat_map(|word| word.to_be_bytes()).collect()
}

/// Three subroutines that call each other in a circle, and a fourth.
fn circle() -> Vec<u8> {
    le(&[
        0x402, 0x114, 0x402, 0x120, 0x7, // 0x100: call 0x114, call 0x120, return
        0x402, 0x100, 0x7, // 0x114: call 0x100, return
        0x402, 0x114, 0x402, 0x134, 0x8, // 0x120: call 0x114, call 0x134, return
        0x7, // 0x134: return
    ])
}

#[test]
fn an_extraction_gives_the_same_result_every_time() {
    let first = extract::<MegamixOp, MemoryStream>(&mut MemoryStream::new(circle()), 0x100, &[0x100]);
    let second =
        extract::<MegamixOp, MemoryStream>(&mut MemoryStream::new(circle()), 0x100, &[0x100]);
    let (first, second) = (first.unwrap(), second.unwrap());
    assert_eq!(first.flow.data, second.flow.data);
    assert_eq!(first.ptro, second.ptro);
    assert_eq!(first.strd, second.strd);
}

#[test]
fn subroutines_are_laid_out_in_worklist_order() {
    let found =
        discover::<MegamixOp, MemoryStream>(&mut MemoryStream::new(circle()), 0x100, &[0x120, 0x100])
            .unwrap();
    assert_eq!(found.queue, vec![(0x120, -1), (0x100, -1), (0x114, -1), (0x134, -1)]);
    let starts: Vec<u32> =
        found.queue.iter().map(|(addr, _)| found.functions[&(addr - 0x100)]).collect();
    assert_eq!(starts, vec![0, 20, 40, 52]);
    assert_eq!(found.functions.len(), 4);
    // each subroutine has the code that it has when it is extracted alone
    let alone =
        discover::<MegamixOp, MemoryStream>(&mut MemoryStream::new(circle()), 0x100, &[0x114])
            .unwrap();
    assert_eq!(found.code[40..52], alone.code[0..12]);
}

#[test]
fn every_address_is_walked_through_once() {
    let found =
        discover::<MegamixOp, MemoryStream>(&mut MemoryStream::new(circle()), 0x100, &[0x100])
            .unwrap();
    let mut addresses: Vec<u32> = found.queue.iter().map(|entry| entry.0).collect();
    assert_eq!(addresses, vec![0x100, 0x114, 0x120, 0x134]);
    addresses.dedup();
    assert_eq!(addresses.len(), found.queue.len());
    assert_eq!(found.functions.len(), found.queue.len());
    // fourteen words of input, each laid out once
    assert_eq!(found.code.len(), 14 * 4);
}

#[test]
fn the_nesting_counter_stops_at_zero() {
    let op = |op| RawTickflowOp { op, arg0: 0, args: vec![], scene: -1 };
    assert_eq!(next_depth::<MegamixOp>(&op(0x18), -1, 0), 0);
    assert_eq!(next_depth::<MegamixOp>(&op(0x18), -1, 1), 0);
    assert_eq!(next_depth::<MegamixOp>(&op(0x1D), -1, 5), 4);
    assert_eq!(next_depth::<MegamixOp>(&op(0x16), -1, 0), 1);
    assert_eq!(next_depth::<MegamixOp>(&op(0x19), -1, 7), 8);
    assert_eq!(next_depth::<MegamixOp>(&op(0x7), -1, 3), 3);
}

#[test]
fn a_patched_call_leads_back_to_its_target() {
    let base = 0x100;
    let found =
        discover::<MegamixOp, MemoryStream>(&mut MemoryStream::new(circle()), base, &[0x100])
            .unwrap();
    let btks =
        extract::<MegamixOp, MemoryStream>(&mut MemoryStream::new(circle()), base, &[0x100])
            .unwrap();
    let patched = btks.ptro.unwrap();
    assert_eq!(patched.len(), 5);
    let targets = [0x114, 0x120, 0x100, 0x114, 0x134];
    for ((before, after), target) in found.pointers.iter().zip(&patched).zip(targets) {
        assert_eq!(before.ptype, PointerType::Tickflow);
        assert_eq!(before.points_to, target - base);
        assert_eq!(before.at, after.at);
        let at = after.at;
        let word = u32::from_le_bytes(btks.flow.data[at..at + 4].try_into().unwrap());
        assert_eq!(word, after.points_to);
        // the function start table, looked up backwards
        let callee: Vec<u32> = found
            .functions
            .iter()
            .filter(|(_, start)| **start == word)
            .map(|(address, _)| *address)
            .collect();
        assert_eq!(callee, vec![target - base]);
    }
}

/// The units of the string at `offset` of a data pool, up to the first zero unit.
fn units(pool: &[u8], offset: usize, wide: bool) -> Vec<u16> {
    let mut found = Vec::new();
    let mut at = offset;
    loop {
        let unit = if wide {
            u16::from_le_bytes([pool[at], pool[at + 1]])
        } else {
            pool[at] as u16
        };
        if unit == 0 {
            return found;
        }
        found.push(unit);
        at += if wide { 2 } else { 1 };
    }
}

#[test]
fn strings_are_padded_and_read_back_from_the_pool() {
    // a narrow string in slot 2, a wide one in slot 1, and the two strings of 0x93
    let mut bytes = le(&[0xC3B, 0, 0, 0x40, 0x831, 0, 0x50, 0x1093, 0, 0, 0x44, 0x40, 0x7]);
    bytes.resize(0x40, 0xEE);
    bytes.extend_from_slice(b"abc\0tick\0");
    bytes.resize(0x50, 0xEE);
    bytes.extend_from_slice(&[0x42, 0x30, 0x44, 0x30, 0, 0]);
    let btks = extract::<MegamixOp, MemoryStream>(&mut MemoryStream::new(bytes), 0, &[0]).unwrap();
    let pointers = btks.ptro.unwrap();
    assert_eq!(pointers.len(), 4);
    assert!(pointers.iter().all(|pointer| pointer.ptype == PointerType::Data));
    let offsets: Vec<u32> = pointers.iter().map(|pointer| pointer.points_to).collect();
    // "abc" takes eight bytes, the wide string eight, "tick" eight, "abc" eight again
    assert_eq!(offsets, vec![0, 8, 16, 24]);
    assert_eq!(btks.strd.len(), 32);
    assert!(offsets.iter().all(|offset| offset % 4 == 0));
    let wide = [false, true, false, false];
    let texts: [Vec<u16>; 4] = [
        "abc".encode_utf16().collect(),
        vec![0x3042, 0x3044],
        "tick".encode_utf16().collect(),
        "abc".encode_utf16().collect(),
    ];
    for ((pointer, wide), text) in pointers.iter().zip(wide).zip(texts) {
        assert_eq!(units(&btks.strd, pointer.points_to as usize, wide), text);
        // the offset stands in the code at the place of the pointer
        let at = pointer.at;
        let word = u32::from_le_bytes(btks.flow.data[at..at + 4].try_into().unwrap());
        assert_eq!(word, pointer.points_to);
    }
}

#[test]
fn the_sizes_in_a_container_add_up() {
    let btks = extract::<MegamixOp, MemoryStream>(&mut MemoryStream::new(circle()), 0x100, &[0x100])
        .unwrap();
    let bytes = btks.to_btks_file(ByteOrder::LittleEndian).unwrap();
    let word = |at: usize| u32::from_le_bytes(bytes[at..at + 4].try_into().unwrap());
    let flow = word(0x1C);
    assert_eq!(flow as usize, 0xC + btks.flow.data.len());
    let ptro_at = 0x18 + flow as usize;
    assert_eq!(&bytes[ptro_at..ptro_at + 4], b"PTRO");
    let ptro = word(ptro_at + 4);
    assert_eq!(ptro, 0xC + 5 * 5);
    let strd_at = ptro_at + ptro as usize;
    assert_eq!(&bytes[strd_at..strd_at + 4], b"STRD");
    let strd = word(strd_at + 4);
    assert_eq!(word(4), 0x18 + flow + ptro + strd);
    assert_eq!(word(4) as usize, bytes.len());
    assert_eq!(word(16), 3);

    let bare = BTKS {
        btks_type: BtksType::Gold,
        flow: FlowSection { start_offset: 0, data: vec![] },
        ptro: None,
        tmpo: Some(vec![]),
        strd: vec![1],
    };
    let bytes = bare.to_btks_file(ByteOrder::BigEndian).unwrap();
    assert_eq!(&bytes[4..8], &(0x18u32 + 0xC + 0xC + 9).to_be_bytes());
    assert_eq!(&bytes[16..20], &3u32.to_be_bytes());
    assert_eq!(bytes.len(), 0x18 + 0xC + 0xC + 9);
}

#[test]
fn an_instruction_with_two_roles_plays_both() {
    // in this table 0x100<0> sets the scene from its first argument and calls its second
    let code = be(&[0x900, 5, 0x10, 2, 3]);
    let found = discover::<FeverUsOp, MemoryStream>(&mut MemoryStream::new(code), 0, &[0]).unwrap();
    assert_eq!(found.queue, vec![(0, -1), (0x10, 5)]);
    assert_eq!(found.pointers.len(), 1);
    assert_eq!(found.pointers[0].at, 8);

    let op = RawTickflowOp { op: 0x100, arg0: 0, args: vec![5, 0x10], scene: -1 };
    let roles = classify::<FeverUsOp>(&op, 5);
    assert_eq!(
        roles,
        Roles {
            scene: Some(0),
            call: true,
            string: false,
            depth: false,
            undepth: false,
            returns: false,
        }
    );
    assert_eq!(roles.count(), 2);
    assert!(roles.is_ambiguous());
    let op = RawTickflowOp { op: 2, arg0: 0, args: vec![], scene: -1 };
    let roles = classify::<FeverUsOp>(&op, 5);
    assert_eq!(roles.count(), 1);
    assert!(roles.returns && !roles.is_ambiguous());
    let op = RawTickflowOp { op: 0x3FF, arg0: 0, args: vec![], scene: -1 };
    assert_eq!(classify::<FeverUsOp>(&op, 5).count(), 0);
}
