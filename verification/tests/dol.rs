use tickflow::data::fever::FeverUsOp;
use tickflow::endian::ByteOrder;
use tickflow::extract::dol::{DolFile, DolSection, SeekFrom};
use tickflow::extract::{extract, ExtractError};
use tickflow::stream::{ByteSource, MemoryStream, StreamError};

/// A DOL file with one text section at 0x80001000, eight bytes at offset 0x100, and one data
/// section right behind it, four bytes at offset 0x200.
fn dol_bytes(entry: u32) -> Vec<u8> {
    let mut words = [0u32; 57];
    words[0] = 0x100;
    words[7] = 0x200;
    words[18] = 0x8000_1000;
    words[25] = 0x8000_1008;
    words[36] = 8;
    words[43] = 4;
    words[54] = 0x1111;
    words[55] = 0x2222;
    words[56] = entry;
    let mut bytes = Vec::new();
    for word in words {
        bytes.extend_from_slice(&word.to_be_bytes());
    }
    bytes.resize(0x100, 0);
    bytes.extend_from_slice(&[1, 2, 3, 4, 5, 6, 7, 8]);
    bytes.resize(0x200, 0);
    bytes.extend_from_slice(&[9, 10, 11, 12]);
    bytes
}

fn open(entry: u32) -> DolFile<MemoryStream> {
    DolFile::new(MemoryStream::new(dol_bytes(entry)), ByteOrder::BigEndian).unwrap()
}

#[test]
fn the_header_gives_the_sections() {
    let dol = open(0x8000_1000);
    assert_eq!(dol.text[0].address, 0x8000_1000);
    assert_eq!(dol.text[0].offset, 0x100);
    assert_eq!(dol.text[0].size, 8);
    assert_eq!(dol.text[0].end(), 0x8000_1008);
    assert_eq!(dol.data[0].address, 0x8000_1008);
    assert_eq!(dol.data[0].offset, 0x200);
    assert_eq!(dol.bss, [0x1111, 0x2222]);
    assert_eq!(dol.entry, 0x8000_1000);
    assert_eq!(dol.stream_position(), 0x8000_1000);
    assert_eq!(dol.text[1].size, 0);
    assert_eq!(DolSection::default().end(), 0);
}

#[test]
fn an_address_belongs_to_the_first_section_that_maps_it() {
    let dol = open(0x8000_1000);
    assert_eq!(dol.get_section_of(0x8000_1000).map(|s| s.offset), Some(0x100));
    assert_eq!(dol.get_section_of(0x8000_1007).map(|s| s.offset), Some(0x100));
    assert_eq!(dol.get_section_of(0x8000_1008).map(|s| s.offset), Some(0x200));
    assert_eq!(dol.get_section_of(0x8000_100B).map(|s| s.offset), Some(0x200));
    assert!(dol.get_section_of(0x8000_100C).is_none());
    assert!(dol.get_section_of(0x8000_0FFF).is_none());
    assert!(dol.get_section_of(0).is_none());
    assert!(dol.text[0].maps(0x8000_1004));
    assert!(!dol.text[0].maps(0x8000_1008));
}

#[test]
fn reads_follow_the_sections() {
    let mut dol = open(0x8000_1000);
    assert_eq!(dol.read_exact(4), Ok(vec![1, 2, 3, 4]));
    assert_eq!(dol.stream_position(), 0x8000_1004);
    // across the end of the text section into the data section behind it
    assert_eq!(dol.read_exact(6), Ok(vec![5, 6, 7, 8, 9, 10]));
    assert_eq!(dol.stream_position(), 0x8000_100A);
    // beyond what is mapped
    assert_eq!(dol.read_exact(3), Err(StreamError::UnexpectedEof));
    assert_eq!(dol.seek(0x8000_100A), Ok(()));
    assert_eq!(dol.read_exact(2), Ok(vec![11, 12]));
    assert_eq!(dol.read_exact(0), Ok(vec![]));
    assert_eq!(dol.read_exact(1), Err(StreamError::UnexpectedEof));
}

#[test]
fn seeks_go_to_mapped_addresses_only() {
    let mut dol = open(0x8000_1004);
    assert_eq!(dol.stream_position(), 0x8000_1004);
    assert_eq!(dol.seek(0x8000_100C), Err(StreamError::NotAvailable));
    assert_eq!(dol.seek(0x1_0000_0000), Err(StreamError::NotAvailable));
    assert_eq!(dol.seek(0x8000_1009), Ok(()));
    assert_eq!(dol.seek_from(SeekFrom::Current(-9)), Ok(0x8000_1000));
    assert_eq!(dol.seek_from(SeekFrom::Current(-1)), Err(StreamError::NotAvailable));
    assert_eq!(dol.stream_position(), 0x8000_1000);
    assert_eq!(dol.seek_from(SeekFrom::Current(11)), Ok(0x8000_100B));
    assert_eq!(dol.seek_from(SeekFrom::Start(0x8000_1001)), Ok(0x8000_1001));
    assert_eq!(dol.seek_from(SeekFrom::End(0)), Err(StreamError::NotAvailable));
    assert_eq!(dol.read_exact(1), Ok(vec![2]));
}

#[test]
fn a_header_that_is_cut_short_or_starts_nowhere_is_refused() {
    let mut bytes = dol_bytes(0x8000_1000);
    bytes.truncate(200);
    let got = DolFile::new(MemoryStream::new(bytes), ByteOrder::BigEndian);
    assert_eq!(got.err(), Some(StreamError::UnexpectedEof));
    let got = DolFile::new(MemoryStream::new(dol_bytes(0x7000_0000)), ByteOrder::BigEndian);
    assert_eq!(got.err(), Some(StreamError::NotAvailable));
    let dol = DolFile::new_with_addr(
        MemoryStream::new(dol_bytes(0x8000_1000)),
        ByteOrder::BigEndian,
        0x8000_1002,
    )
    .unwrap();
    assert_eq!(dol.stream_position(), 0x8000_1002);
}

#[test]
fn code_is_extracted_through_the_sections() {
    // call 0x80001008 (opcode 0 with one argument), return; the callee returns
    let mut bytes = dol_bytes(0x8000_1000);
    bytes[0x100..0x108].copy_from_slice(&[0, 0, 4, 0, 0x80, 0, 0x10, 0x0C]);
    // a third section word is needed for the return of the caller
    let mut words = [0u32; 57];
    words[0] = 0x100;
    words[7] = 0x200;
    words[18] = 0x8000_1000;
    words[25] = 0x8000_1008;
    words[36] = 8;
    words[43] = 8;
    words[56] = 0x8000_1000;
    let mut header = Vec::new();
    for word in words {
        header.extend_from_slice(&word.to_be_bytes());
    }
    bytes[..header.len()].copy_from_slice(&header);
    bytes.truncate(0x200);
    bytes.extend_from_slice(&[0, 0, 0, 2, 0, 0, 0, 3]);
    let mut dol = DolFile::new(MemoryStream::new(bytes), ByteOrder::BigEndian).unwrap();
    let btks = extract::<FeverUsOp, DolFile<MemoryStream>>(&mut dol, 0, &[0x8000_1000]).unwrap();
    // the caller: call, return; the callee at 0x8000100C: return
    assert_eq!(btks.flow.data, vec![0, 0, 4, 0, 0, 0, 0, 12, 0, 0, 0, 2, 0, 0, 0, 3]);

    let mut dol = open(0x8000_1000);
    let got = extract::<FeverUsOp, DolFile<MemoryStream>>(&mut dol, 0, &[0x9000_0000]);
    assert_eq!(got.err(), Some(ExtractError::Io(StreamError::NotAvailable)));
}
