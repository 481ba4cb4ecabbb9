use tickflow::data::btks::BtksType;
use tickflow::data::megamix::MegamixOp;
use tickflow::endian::ByteOrder;
use tickflow::extract::{discover, extract, ExtractError, Pointer, PointerType};
use tickflow::stream::{MemoryStream, StreamError};

fn le(words: &[u32]) -> Vec<u8> {
    let mut out = Vec::new();
    for word in words {
        out.extend_from_slice(&word.to_le_bytes());
    }
    out
}

/// An image whose first byte stands for address 0x1000, with the given words
/// at the given addresses.
fn image(len: usize, parts: &[(u32, &[u32])]) -> MemoryStream {
    let mut bytes = vec![0xEEu8; len];
    for (addr, words) in parts {
        let at = (*addr - 0x1000) as usize;
        let data = le(words);
        bytes[at..at + data.len()].copy_from_slice(&data);
    }
    MemoryStream::new(bytes)
}

#[test]
fn single_return_gives_one_instruction_and_no_pointers() {
    let mut file = image(4, &[(0x1000, &[0x7])]);
    let btks = extract::<MegamixOp, MemoryStream>(&mut file, 0x1000, &[0x1000]).unwrap();
    assert_eq!(btks.flow.data, vec![7, 0, 0, 0]);
    assert_eq!(btks.flow.start_offset, 0);
    assert!(btks.ptro.is_none());
    assert!(btks.tmpo.is_none());
    assert!(btks.strd.is_empty());
    assert_eq!(btks.btks_type, BtksType::MegamixIntl);
    let bytes = btks.to_btks_file(ByteOrder::LittleEndian).unwrap();
    // the section count, and the FLOW section with its four bytes of code
    assert_eq!(&bytes[16..20], &[2, 0, 0, 0]);
    assert_eq!(&bytes[24..28], b"FLOW");
    assert_eq!(&bytes[28..32], &[16, 0, 0, 0]);
    assert_eq!(&bytes[36..40], &[7, 0, 0, 0]);
    assert_eq!(&bytes[40..44], b"STRD");
    assert_eq!(bytes.len(), 48);
}

#[test]
fn call_is_patched_to_the_offset_of_its_target() {
    // 0x1000: call 0x2000; 0x1008: return.  0x2000: return.
    let mut file = image(0x1004, &[(0x1000, &[0x402, 0x2000, 0x7]), (0x2000, &[0x8])]);
    let found = discover::<MegamixOp, MemoryStream>(&mut file, 0x1000, &[0x1000]).unwrap();
    assert_eq!(found.queue, vec![(0x1000, -1), (0x2000, -1)]);
    assert_eq!(found.functions.len(), 2);
    assert_eq!(found.functions[&0], 0);
    assert_eq!(found.functions[&0x1000], 12);
    assert_eq!(
        found.pointers,
        vec![Pointer { at: 4, points_to: 0x1000, ptype: PointerType::Tickflow }]
    );
    // before relocation the argument holds the target less the base
    assert_eq!(found.code, le(&[0x402, 0x1000, 0x7, 0x8]));

    let mut file = image(0x1004, &[(0x1000, &[0x402, 0x2000, 0x7]), (0x2000, &[0x8])]);
    let btks = extract::<MegamixOp, MemoryStream>(&mut file, 0x1000, &[0x1000]).unwrap();
    assert_eq!(btks.flow.data, le(&[0x402, 12, 0x7, 0x8]));
    assert_eq!(
        btks.ptro,
        Some(vec![Pointer { at: 4, points_to: 12, ptype: PointerType::Tickflow }])
    );
}

#[test]
fn call_to_zero_is_left_alone() {
    let mut file = image(12, &[(0x1000, &[0x402, 0, 0x7])]);
    let found = discover::<MegamixOp, MemoryStream>(&mut file, 0x1000, &[0x1000]).unwrap();
    assert_eq!(found.queue, vec![(0x1000, -1)]);
    assert!(found.pointers.is_empty());
    assert_eq!(found.code, le(&[0x402, 0, 0x7]));
}

#[test]
fn empty_entry_list_is_refused() {
    let mut file = image(4, &[(0x1000, &[0x7])]);
    let got = extract::<MegamixOp, MemoryStream>(&mut file, 0x1000, &[]);
    assert_eq!(got.err(), Some(ExtractError::NoEntryPoints));
}

#[test]
fn short_read_is_fatal() {
    let mut file = image(8, &[(0x1000, &[0x402, 0])]);
    let got = extract::<MegamixOp, MemoryStream>(&mut file, 0x1000, &[0x1000]);
    assert_eq!(got.err(), Some(ExtractError::Io(StreamError::UnexpectedEof)));
}

#[test]
fn a_narrow_string_goes_to_the_data_pool_padded() {
    // 0x1000: 0x3B with three arguments, the third a string; 0x100C: return
    let mut bytes = le(&[0xC3B, 1, 2, 0x1020, 0x7]);
    bytes.resize(0x20, 0xEE);
    bytes.extend_from_slice(b"hi\0");
    let mut file = MemoryStream::new(bytes);
    let found = discover::<MegamixOp, MemoryStream>(&mut file, 0x1000, &[0x1000]).unwrap();
    assert_eq!(found.data, b"hi\0\0".to_vec());
    assert_eq!(found.pointers, vec![Pointer { at: 12, points_to: 0, ptype: PointerType::Data }]);
    // the argument still holds the address of the string
    assert_eq!(found.code, le(&[0xC3B, 1, 2, 0x1020, 0x7]));

    let mut bytes = le(&[0xC3B, 1, 2, 0x1020, 0x7]);
    bytes.resize(0x20, 0xEE);
    bytes.extend_from_slice(b"hi\0");
    let mut file = MemoryStream::new(bytes);
    let btks = extract::<MegamixOp, MemoryStream>(&mut file, 0x1000, &[0x1000]).unwrap();
    assert_eq!(btks.flow.data, le(&[0xC3B, 1, 2, 0, 0x7]));
    assert_eq!(btks.strd, b"hi\0\0".to_vec());
}

#[test]
fn a_string_that_fills_its_words_gains_four_zero_bytes() {
    let mut bytes = le(&[0xC3B, 1, 2, 0x1020, 0x7]);
    bytes.resize(0x20, 0xEE);
    bytes.extend_from_slice(b"abc\0");
    let mut file = MemoryStream::new(bytes);
    let found = discover::<MegamixOp, MemoryStream>(&mut file, 0x1000, &[0x1000]).unwrap();
    assert_eq!(found.data, b"abc\0\0\0\0\0".to_vec());
}

#[test]
fn a_wide_string_is_read_unit_by_unit() {
    // 0x31 with two arguments, the second a wide string
    let mut bytes = le(&[0x831, 9, 0x1010, 0x7]);
    bytes.extend_from_slice(&[0x41, 0x00, 0x42, 0x30, 0x00, 0x00]);
    let mut file = MemoryStream::new(bytes);
    let found = discover::<MegamixOp, MemoryStream>(&mut file, 0x1000, &[0x1000]).unwrap();
    // three units of two bytes, padded from six to eight bytes
    assert_eq!(found.data, vec![0x41, 0x00, 0x42, 0x30, 0x00, 0x00, 0x00, 0x00]);
    assert_eq!(found.pointers, vec![Pointer { at: 8, points_to: 0, ptype: PointerType::Data }]);
}

#[test]
fn a_string_below_the_base_is_a_placeholder() {
    let bytes = le(&[0xC3B, 1, 2, 0x0FFF, 0xC3B, 1, 2, 0x1030, 0x7]);
    let mut padded = bytes.clone();
    padded.resize(0x30, 0xEE);
    padded.extend_from_slice(b"x\0");
    let mut file = MemoryStream::new(padded);
    let found = discover::<MegamixOp, MemoryStream>(&mut file, 0x1000, &[0x1000]).unwrap();
    // two bytes for the first string, unpadded, then the second string
    assert_eq!(found.data, vec![0, 0, b'x', 0, 0, 0]);
    assert_eq!(
        found.pointers,
        vec![
            Pointer { at: 12, points_to: 0, ptype: PointerType::Data },
            Pointer { at: 28, points_to: 2, ptype: PointerType::Data },
        ]
    );
}

#[test]
fn a_string_that_does_not_end_is_fatal() {
    let mut bytes = le(&[0xC3B, 1, 2, 0x1014, 0x7]);
    bytes.extend_from_slice(b"open");
    let mut file = MemoryStream::new(bytes);
    let got = discover::<MegamixOp, MemoryStream>(&mut file, 0x1000, &[0x1000]);
    assert_eq!(got.err(), Some(ExtractError::Io(StreamError::UnexpectedEof)));
}

#[test]
fn a_return_inside_a_block_does_not_end_the_subroutine() {
    // depth, return, undepth, undepth at zero, return
    let mut file = MemoryStream::new(le(&[0x16, 0x7, 0x18, 0x18, 0x8, 0x7]));
    let found = discover::<MegamixOp, MemoryStream>(&mut file, 0, &[0]).unwrap();
    assert_eq!(found.code, le(&[0x16, 0x7, 0x18, 0x18, 0x8]));
}

#[test]
fn the_scene_decides_what_an_operation_is() {
    // 0x28 sets the scene from its first argument; 0x108 refers to a string in scene 0x39 only
    let mut bytes = le(&[0x508, 0x20, 0x428, 0x39, 0x508, 0x20, 0x7]);
    bytes.resize(0x20, 0xEE);
    bytes.extend_from_slice(b"s\0");
    let mut file = MemoryStream::new(bytes);
    let found = discover::<MegamixOp, MemoryStream>(&mut file, 0, &[0]).unwrap();
    assert_eq!(found.pointers, vec![Pointer { at: 20, points_to: 0, ptype: PointerType::Data }]);
    assert_eq!(found.data, b"s\0\0\0".to_vec());
}

#[test]
fn a_callee_is_met_in_the_scene_of_its_caller() {
    // scene 0x39, call 0x10, return; at 0x10: 0x108 with a string, return
    let mut bytes = le(&[0x428, 0x39, 0x402, 0x10, 0x508, 0x20, 0x7]);
    bytes.resize(0x20, 0xEE);
    bytes.extend_from_slice(b"s\0");
    let mut file = MemoryStream::new(bytes);
    let found = discover::<MegamixOp, MemoryStream>(&mut file, 0, &[0]).unwrap();
    assert_eq!(found.queue, vec![(0, -1), (0x10, 0x39)]);
    assert_eq!(found.functions[&0x10], 28);
}

#[test]
fn a_subroutine_that_calls_itself_is_walked_through_once() {
    // 0: call 8, return.  8: call 0, call 8, return
    let mut file =
        MemoryStream::new(le(&[0x402, 0x100C, 0x7, 0x402, 0x1000, 0x402, 0x100C, 0x8]));
    let found = discover::<MegamixOp, MemoryStream>(&mut file, 0x1000, &[0x1000]).unwrap();
    assert_eq!(found.queue, vec![(0x1000, -1), (0x100C, -1)]);
    assert_eq!(found.functions.len(), 2);
    assert_eq!(found.code.len(), 32);
    assert_eq!(found.pointers.len(), 3);

    let mut file =
        MemoryStream::new(le(&[0x402, 0x100C, 0x7, 0x402, 0x1000, 0x402, 0x100C, 0x8]));
    let btks = extract::<MegamixOp, MemoryStream>(&mut file, 0x1000, &[0x1000]).unwrap();
    assert_eq!(btks.flow.data, le(&[0x402, 12, 0x7, 0x402, 0, 0x402, 12, 0x8]));
}

#[test]
fn an_entry_point_that_is_given_twice_is_walked_through_once() {
    let mut file = MemoryStream::new(le(&[0x7, 0x8]));
    let found = discover::<MegamixOp, MemoryStream>(&mut file, 0, &[4, 0, 4]).unwrap();
    assert_eq!(found.queue, vec![(4, -1), (0, -1)]);
    assert_eq!(found.code, le(&[0x8, 0x7]));
    assert_eq!(found.functions[&4], 0);
    assert_eq!(found.functions[&0], 4);
}

#[test]
fn a_target_below_the_base_is_refused() {
    let mut file = MemoryStream::new(le(&[0x402, 0x10, 0x7]));
    let got = discover::<MegamixOp, MemoryStream>(&mut file, 0x1000, &[0x1000]);
    assert_eq!(got.err(), Some(ExtractError::BelowBase));
    let mut file = MemoryStream::new(le(&[0x7]));
    let got = discover::<MegamixOp, MemoryStream>(&mut file, 0x1000, &[0x10]);
    assert_eq!(got.err(), Some(ExtractError::BelowBase));
}

#[test]
fn a_call_without_its_argument_is_refused() {
    // 0x2 refers to its first argument, and has none here
    let mut file = MemoryStream::new(le(&[0x2, 0x7]));
    let got = discover::<MegamixOp, MemoryStream>(&mut file, 0, &[0]);
    assert_eq!(got.err(), Some(ExtractError::MissingArgument));
}

#[test]
fn subroutines_come_in_the_order_in_which_they_are_first_met() {
    // 0x100 calls 0x114 and 0x120; 0x114 calls 0x124: 0x120 was met before 0x124
    let words = [0x402, 0x114, 0x402, 0x120, 0x7, 0x402, 0x124, 0x7, 0x8, 0x7];
    let mut file = MemoryStream::new(le(&words));
    let btks = extract::<MegamixOp, MemoryStream>(&mut file, 0x100, &[0x100]).unwrap();
    assert_eq!(btks.flow.data, le(&[0x402, 0x14, 0x402, 0x20, 0x7, 0x402, 0x24, 0x7, 0x8, 0x7]));
}

#[test]
fn a_subroutine_that_only_calls_itself_has_one_pointer() {
    let mut file = MemoryStream::new(le(&[0x402, 0x100, 0x7]));
    let btks = extract::<MegamixOp, MemoryStream>(&mut file, 0x100, &[0x100]).unwrap();
    assert_eq!(btks.flow.data, le(&[0x402, 0, 0x7]));
    assert_eq!(btks.ptro, Some(vec![Pointer { at: 4, points_to: 0, ptype: PointerType::Tickflow }]));
}

#[test]
fn a_return_inside_a_block_at_the_end_of_the_input_is_fatal() {
    let mut file = MemoryStream::new(le(&[0x19, 0x7]));
    let got = extract::<MegamixOp, MemoryStream>(&mut file, 0, &[0]);
    assert_eq!(got.err(), Some(ExtractError::Io(StreamError::UnexpectedEof)));
}

#[test]
fn only_a_return_outside_every_block_ends_the_subroutine() {
    // the counter goes 0, 1, 1, 0, 0
    let words = [0x18, 0x19, 0x7, 0x18, 0x7];
    let mut file = MemoryStream::new(le(&words));
    let found = discover::<MegamixOp, MemoryStream>(&mut file, 0, &[0]).unwrap();
    assert_eq!(found.code, le(&words));
    assert!(found.pointers.is_empty());
    // closing a block where none is open leaves the counter alone
    let mut file = MemoryStream::new(le(&[0x18, 0x7, 0x7]));
    let found = discover::<MegamixOp, MemoryStream>(&mut file, 0, &[0]).unwrap();
    assert_eq!(found.code, le(&[0x18, 0x7]));
}
