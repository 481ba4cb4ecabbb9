use tickflow::data::RawTickflowOp;
use tickflow::endian::ByteOrder;
use tickflow::extract::{binary_to_raw_tf_op, emit, read_string, seed_queue};
use tickflow::stream::{ByteSource, MemoryStream, StreamError};

#[test]
fn an_instruction_is_decoded_in_both_byte_orders() {
    // opcode 0x155, two arguments, discriminator 0x2ABCD
    let word = 0x155u32 | (2 << 10) | (0x2ABCD << 14);
    for order in [ByteOrder::LittleEndian, ByteOrder::BigEndian] {
        let mut bytes = Vec::new();
        for value in [word, 0x0102_0304, 0xFFFF_FFFE] {
            bytes.extend_from_slice(&match order {
                ByteOrder::LittleEndian => value.to_le_bytes(),
                ByteOrder::BigEndian => value.to_be_bytes(),
            });
        }
        let mut data = MemoryStream::new(bytes.clone());
        let (raw, op): (u32, RawTickflowOp) = binary_to_raw_tf_op(&mut data, 9, order).unwrap();
        assert_eq!(raw, word);
        assert_eq!((op.op, op.arg0, op.scene), (0x155, 0x2ABCD, 9));
        assert_eq!(op.args, vec![0x0102_0304, 0xFFFF_FFFE]);
        assert_eq!(data.stream_position(), 12);
        // writing it back gives the bytes that were read
        let mut out = vec![0x55];
        emit(&mut out, raw, &op.args, order);
        assert_eq!(&out[1..], &bytes[..]);
    }
}

#[test]
fn an_instruction_that_is_cut_short_cannot_be_decoded() {
    let word = 0x155u32 | (2 << 10);
    let mut bytes = word.to_le_bytes().to_vec();
    bytes.extend_from_slice(&[1, 2, 3, 4, 5, 6, 7]);
    let mut data = MemoryStream::new(bytes);
    let got = binary_to_raw_tf_op(&mut data, -1, ByteOrder::LittleEndian);
    assert_eq!(got.err(), Some(StreamError::UnexpectedEof));
    let mut data = MemoryStream::new(vec![1, 2, 3]);
    let got = binary_to_raw_tf_op(&mut data, -1, ByteOrder::LittleEndian);
    assert_eq!(got.err(), Some(StreamError::UnexpectedEof));
}

#[test]
fn a_memory_stream_reads_what_it_holds() {
    let mut data = MemoryStream::new(vec![1, 2, 3, 4, 5]);
    assert_eq!(data.read_exact(2), Ok(vec![1, 2]));
    assert_eq!(data.stream_position(), 2);
    assert_eq!(data.read_exact(4), Err(StreamError::UnexpectedEof));
    assert_eq!(data.seek(4), Ok(()));
    assert_eq!(data.read_exact(1), Ok(vec![5]));
    assert_eq!(data.read_exact(0), Ok(vec![]));
    assert_eq!(data.seek(u64::MAX), Ok(()));
    assert_eq!(data.read_exact(1), Err(StreamError::UnexpectedEof));
    assert_eq!(data.into_inner(), vec![1, 2, 3, 4, 5]);
}

#[test]
fn a_wide_string_is_stored_least_significant_byte_first() {
    // the units 0x3042 and 0x0041 written most significant byte first
    let mut file = MemoryStream::new(vec![0xEE, 0x30, 0x42, 0x00, 0x41, 0x00, 0x00, 0xEE]);
    file.seek(7).unwrap();
    let got = read_string(0x100, &mut file, 0x101, true, ByteOrder::BigEndian).unwrap();
    assert_eq!(got, vec![0x42, 0x30, 0x41, 0x00, 0x00, 0x00, 0x00, 0x00]);
    assert_eq!(file.stream_position(), 7);
    let got = read_string(0x100, &mut file, 0x101, true, ByteOrder::LittleEndian).unwrap();
    assert_eq!(got, vec![0x30, 0x42, 0x00, 0x41, 0x00, 0x00, 0x00, 0x00]);
    let got = read_string(0x100, &mut file, 0x0FF, true, ByteOrder::LittleEndian).unwrap();
    assert_eq!(got, vec![0, 0]);
    let got = read_string(0x100, &mut file, 0x105, false, ByteOrder::LittleEndian).unwrap();
    assert_eq!(got, vec![0, 0, 0, 0]);
    let got = read_string(0x100, &mut file, 0x107, false, ByteOrder::LittleEndian);
    assert_eq!(got, Err(StreamError::UnexpectedEof));
}

#[test]
fn entry_points_make_a_worklist_without_repeats() {
    assert_eq!(seed_queue(&[3, 1, 3, 2, 1]), vec![(3, -1), (1, -1), (2, -1)]);
    assert!(seed_queue(&[]).is_empty());
}
