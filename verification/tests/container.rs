use tickflow::data::btks::{BtksType, ContainerError, FlowSection, Tempo, TempoVal, BTKS};
use tickflow::data::{TickflowOp, Value};
use tickflow::endian::ByteOrder;
use tickflow::extract::{Pointer, PointerType};
use tickflow::stream::StreamError;

fn plain() -> BTKS {
    BTKS {
        btks_type: BtksType::MegamixIntl,
        flow: FlowSection { start_offset: 0, data: vec![7, 0, 0, 0] },
        ptro: None,
        tmpo: None,
        strd: vec![],
    }
}

fn u32_at(bytes: &[u8], at: usize, order: ByteOrder) -> u32 {
    let word = [bytes[at], bytes[at + 1], bytes[at + 2], bytes[at + 3]];
    match order {
        ByteOrder::LittleEndian => u32::from_le_bytes(word),
        ByteOrder::BigEndian => u32::from_be_bytes(word),
    }
}

#[test]
fn a_container_without_pointers_has_two_sections() {
    let bytes = plain().to_btks_file(ByteOrder::LittleEndian).unwrap();
    let mut want = Vec::new();
    want.extend_from_slice(b"BTKS");
    want.extend_from_slice(&0x30u32.to_le_bytes());
    want.extend_from_slice(&2u32.to_le_bytes());
    want.extend_from_slice(&0x18u32.to_le_bytes());
    want.extend_from_slice(&2u32.to_le_bytes());
    want.extend_from_slice(&0i32.to_le_bytes());
    want.extend_from_slice(b"FLOW");
    want.extend_from_slice(&0x10u32.to_le_bytes());
    want.extend_from_slice(&0u32.to_le_bytes());
    want.extend_from_slice(&[7, 0, 0, 0]);
    want.extend_from_slice(b"STRD");
    want.extend_from_slice(&8u32.to_le_bytes());
    assert_eq!(bytes, want);
}

#[test]
fn numbers_are_written_in_the_byte_order_asked_for() {
    let mut btks = plain();
    btks.btks_type = BtksType::Unspecified;
    btks.flow.start_offset = 0x0102_0304;
    let bytes = btks.to_btks_file(ByteOrder::BigEndian).unwrap();
    assert_eq!(&bytes[4..8], &[0, 0, 0, 0x30]);
    assert_eq!(&bytes[8..12], &[0, 0, 0, 2]);
    assert_eq!(&bytes[20..24], &[0xFF, 0xFF, 0xFF, 0xFF]);
    assert_eq!(&bytes[32..36], &[1, 2, 3, 4]);
    let bytes = btks.to_btks_file(ByteOrder::LittleEndian).unwrap();
    assert_eq!(&bytes[20..24], &[0xFF, 0xFF, 0xFF, 0xFF]);
    assert_eq!(&bytes[32..36], &[4, 3, 2, 1]);
}

#[test]
fn the_variants_have_their_numbers() {
    let ids = [
        (BtksType::MegamixIntl, 0),
        (BtksType::MegamixJp, 1),
        (BtksType::FeverJp, 2),
        (BtksType::FeverUs, 3),
        (BtksType::FeverEu, 4),
        (BtksType::FeverKr, 5),
        (BtksType::Gold, 6),
        (BtksType::Unspecified, -1),
    ];
    for (variant, id) in ids {
        assert_eq!(variant.id(), id);
    }
}

#[test]
fn pointers_make_a_third_section() {
    let mut btks = plain();
    btks.ptro = Some(vec![
        Pointer { at: 4, points_to: 12, ptype: PointerType::Tickflow },
        Pointer { at: 0x0102_0304, points_to: 0, ptype: PointerType::Data },
    ]);
    btks.strd = vec![b'a', 0, 0, 0];
    for order in [ByteOrder::LittleEndian, ByteOrder::BigEndian] {
        let bytes = btks.to_btks_file(order).unwrap();
        // header, FLOW with four bytes, PTRO with two records, STRD with four bytes
        let total = 0x18 + 0x10 + (0xC + 10) + (8 + 4);
        assert_eq!(bytes.len(), total);
        assert_eq!(u32_at(&bytes, 4, order), total as u32);
        assert_eq!(u32_at(&bytes, 16, order), 3);
        assert_eq!(&bytes[0x28..0x2C], b"PTRO");
        assert_eq!(u32_at(&bytes, 0x2C, order), 0xC + 10);
        assert_eq!(u32_at(&bytes, 0x30, order), 2);
        assert_eq!(u32_at(&bytes, 0x34, order), 4);
        assert_eq!(bytes[0x38], 1);
        assert_eq!(u32_at(&bytes, 0x39, order), 0x0102_0304);
        assert_eq!(bytes[0x3D], 0);
        assert_eq!(&bytes[0x3E..0x42], b"STRD");
        assert_eq!(u32_at(&bytes, 0x42, order), 12);
        assert_eq!(&bytes[0x46..], &[b'a', 0, 0, 0]);
    }
}

#[test]
fn a_pointer_record_holds_the_place_and_the_kind() {
    let pointer = Pointer { at: 0x0102_0304, points_to: 77, ptype: PointerType::Tickflow };
    assert_eq!(pointer.as_ptro(ByteOrder::LittleEndian), [4, 3, 2, 1, 1]);
    assert_eq!(pointer.as_ptro(ByteOrder::BigEndian), [1, 2, 3, 4, 1]);
    let pointer = Pointer { at: 8, points_to: 77, ptype: PointerType::Data };
    assert_eq!(pointer.as_ptro(ByteOrder::LittleEndian), [8, 0, 0, 0, 0]);
    assert_eq!(PointerType::Data.tag(), 0);
    assert_eq!(PointerType::Tickflow.tag(), 1);
}

#[test]
fn tempos_make_a_section_of_their_own() {
    let mut btks = plain();
    btks.tmpo = Some(vec![
        Tempo {
            id: 0x0100_0101,
            data: vec![TempoVal { beats: 2.0f32.to_bits(), time: 0x1234, loop_val: 1 }],
            sample_rate: 32000,
        },
        Tempo { id: 5, data: vec![], sample_rate: 44100 },
    ]);
    let order = ByteOrder::LittleEndian;
    let bytes = btks.to_btks_file(order).unwrap();
    assert_eq!(u32_at(&bytes, 16, order), 3);
    assert_eq!(&bytes[0x28..0x2C], b"TMPO");
    // the size field is the length of the section: twelve bytes before the tracks, twelve for
    // each track and twelve for each stretch
    assert_eq!(u32_at(&bytes, 0x2C, order), 0xC + 2 * 12 + 12);
    assert_eq!(0x58 - 0x28, 0xC + 2 * 12 + 12);
    assert_eq!(u32_at(&bytes, 0x30, order), 2);
    // first track: id, one stretch, not streamed
    assert_eq!(u32_at(&bytes, 0x34, order), 0x0100_0101);
    assert_eq!(u32_at(&bytes, 0x38, order), 1);
    assert_eq!(u32_at(&bytes, 0x3C, order), 0);
    assert_eq!(&bytes[0x40..0x44], &2.0f32.to_le_bytes());
    assert_eq!(u32_at(&bytes, 0x44, order), 0x1234);
    assert_eq!(u32_at(&bytes, 0x48, order), 1);
    // second track: id, no stretch, streamed
    assert_eq!(u32_at(&bytes, 0x4C, order), 5);
    assert_eq!(u32_at(&bytes, 0x50, order), 0);
    assert_eq!(u32_at(&bytes, 0x54, order), 1);
    assert_eq!(&bytes[0x58..0x5C], b"STRD");
    // the size of the file counts every section, and is the number of its bytes
    assert_eq!(u32_at(&bytes, 4, order), 0x18 + 0x10 + (0xC + 2 * 12 + 12) + 8);
    assert_eq!(u32_at(&bytes, 4, order) as usize, bytes.len());
}

#[test]
fn the_size_of_a_file_with_tempos_is_its_length() {
    // one track without a stretch
    let mut btks = plain();
    btks.tmpo = Some(vec![Tempo { id: 1, data: vec![], sample_rate: 0 }]);
    for order in [ByteOrder::LittleEndian, ByteOrder::BigEndian] {
        let bytes = btks.to_btks_file(order).unwrap();
        assert_eq!(u32_at(&bytes, 0x2C, order), 0xC + 12);
        assert_eq!(u32_at(&bytes, 4, order) as usize, bytes.len());
        assert_eq!(bytes.len(), 0x18 + 0x10 + 0x18 + 8);
    }
    let sizes = btks.measure().unwrap();
    assert_eq!((sizes.total, sizes.sections, sizes.tmpo), (0x48, 3, 0x18));
}

#[test]
fn tempos_that_come_with_the_game_are_not_streamed() {
    let tempo = |id| Tempo { id, data: vec![], sample_rate: 0 };
    assert!(tempo(0x0100_0100).is_streamed());
    assert!(!tempo(0x0100_0101).is_streamed());
    assert!(!tempo(0x0100_0281).is_streamed());
    assert!(tempo(0x0100_0282).is_streamed());
    assert!(tempo(0).is_streamed());
}

#[test]
fn a_tempo_is_written_stretch_by_stretch() {
    let tempo = Tempo {
        id: 7,
        data: vec![
            TempoVal { beats: 1, time: 2, loop_val: 3 },
            TempoVal { beats: 4, time: 5, loop_val: 6 },
        ],
        sample_rate: 9,
    };
    let mut out = vec![0xAA];
    tempo.write_to(&mut out, ByteOrder::BigEndian);
    let mut want = vec![0xAA];
    for word in [7u32, 2, 1, 1, 2, 3, 4, 5, 6] {
        want.extend_from_slice(&word.to_be_bytes());
    }
    assert_eq!(out, want);
}

#[test]
fn a_place_beyond_32_bits_cannot_be_written() {
    if usize::BITS > 32 {
        let mut btks = plain();
        btks.ptro = Some(vec![Pointer {
            at: (u32::MAX as usize) + 1,
            points_to: 0,
            ptype: PointerType::Data,
        }]);
        assert_eq!(btks.to_btks_file(ByteOrder::LittleEndian), Err(ContainerError::TooLarge));
        assert_eq!(btks.measure().err(), Some(ContainerError::TooLarge));
    }
    let sizes = plain().measure().unwrap();
    assert_eq!(
        (sizes.total, sizes.sections, sizes.flow, sizes.ptro, sizes.tmpo, sizes.strd),
        (0x30, 2, 0x10, 0, 0, 8)
    );
}

#[test]
fn the_code_reads_back_as_operations() {
    let mut btks = plain();
    // opcode 0x3B with three arguments and discriminator 5, then a return
    let first = 0x3Bu32 | (3 << 10) | (5 << 14);
    let mut code = Vec::new();
    for word in [first, 10, 20, 30, 0x7] {
        code.extend_from_slice(&word.to_be_bytes());
    }
    btks.flow.data = code;
    let ops: Vec<TickflowOp> = btks.to_raw_tickflow_ops(ByteOrder::BigEndian).unwrap();
    assert_eq!(ops.len(), 2);
    assert_eq!((ops[0].op, ops[0].arg0, ops[0].scene), (0x3B, 5, -1));
    let args: Vec<u32> = ops[0]
        .args
        .iter()
        .map(|value| match value {
            Value::Unsigned(word) => *word,
            other => panic!("{:?}", other),
        })
        .collect();
    assert_eq!(args, vec![10, 20, 30]);
    assert_eq!((ops[1].op, ops[1].arg0, ops[1].args.len()), (7, 0, 0));

    btks.flow.data.pop();
    assert_eq!(
        btks.to_raw_tickflow_ops(ByteOrder::BigEndian).err(),
        Some(StreamError::UnexpectedEof)
    );
}
