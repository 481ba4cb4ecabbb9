//! Byte orders, and the layout of fixed-width integers as bytes.
use bytestream::{StreamReader, StreamWriter};
use vstd::arithmetic::div_mod::lemma_fundamental_div_mod_converse;
use vstd::prelude::*;

verus! {

/// The order in which the bytes of a multi-byte integer are laid out.
#[derive(Clone, Copy, Debug, PartialEq, Eq, Structural)]
pub enum ByteOrder {
    /// Most significant byte first.
    BigEndian,
    /// Least significant byte first.
    LittleEndian,
}

/// The four bytes of `value`, least significant first.
pub open spec fn u32_le_bytes(value: u32) -> Seq<u8> {
    seq![
        (value % 0x100) as u8,
        (value / 0x100 % 0x100) as u8,
        (value / 0x1_0000 % 0x100) as u8,
        (value / 0x100_0000) as u8,
    ]
}

/// The four bytes of `value` in the given order.
pub open spec fn u32_bytes(value: u32, order: ByteOrder) -> Seq<u8> {
    match order {
        ByteOrder::LittleEndian => u32_le_bytes(value),
        ByteOrder::BigEndian => u32_le_bytes(value).reverse(),
    }
}

/// The number whose bytes, least significant first, are the first four of `bytes`.
pub open spec fn u32_of_le_bytes(bytes: Seq<u8>) -> u32
    recommends
        bytes.len() >= 4,
{
    (bytes[0] + bytes[1] * 0x100 + bytes[2] * 0x1_0000 + bytes[3] * 0x100_0000) as u32
}

/// The number that the four bytes `bytes` stand for in the given order.
pub open spec fn u32_of_bytes(bytes: Seq<u8>, order: ByteOrder) -> u32
    recommends
        bytes.len() == 4,
{
    match order {
        ByteOrder::LittleEndian => u32_of_le_bytes(bytes),
        ByteOrder::BigEndian => u32_of_le_bytes(bytes.reverse()),
    }
}

/// Reading back the bytes of a number gives the number.
#[verifier::rlimit(50)]
pub proof fn lemma_u32_bytes_round_trip(value: u32, order: ByteOrder)
    ensures
        u32_bytes(value, order).len() == 4,
        u32_of_bytes(u32_bytes(value, order), order) == value,
{
    let le = u32_le_bytes(value);
    assert(le.reverse().reverse() =~= le);
}

/// The digits of a number written in base 256 are its successive
/// remainders.
#[verifier::rlimit(50)]
proof fn lemma_base_256_digits(b0: int, b1: int, b2: int, b3: int)
    requires
        0 <= b0 < 0x100,
        0 <= b1 < 0x100,
        0 <= b2 < 0x100,
        0 <= b3 < 0x100,
    ensures
        ({
            let v = b0 + b1 * 0x100 + b2 * 0x1_0000 + b3 * 0x100_0000;
            &&& 0 <= v < 0x1_0000_0000
            &&& v % 0x100 == b0
            &&& v / 0x100 % 0x100 == b1
            &&& v / 0x1_0000 % 0x100 == b2
            &&& v / 0x100_0000 == b3
        }),
{
    let v = b0 + b1 * 0x100 + b2 * 0x1_0000 + b3 * 0x100_0000;
    let w1 = b1 + b2 * 0x100 + b3 * 0x1_0000;
    let w2 = b2 + b3 * 0x100;
    lemma_fundamental_div_mod_converse(v, 0x100, w1, b0);
    lemma_fundamental_div_mod_converse(w1, 0x100, w2, b1);
    lemma_fundamental_div_mod_converse(v, 0x1_0000, w2, b0 + b1 * 0x100);
    lemma_fundamental_div_mod_converse(w2, 0x100, b3, b2);
    lemma_fundamental_div_mod_converse(v, 0x100_0000, b3, b0 + b1 * 0x100 + b2 * 0x1_0000);
}

/// Laying out the number read from four bytes gives the bytes.
#[verifier::rlimit(50)]
pub proof fn lemma_u32_of_bytes_round_trip(bytes: Seq<u8>, order: ByteOrder)
    requires
        bytes.len() == 4,
    ensures
        u32_bytes(u32_of_bytes(bytes, order), order) == bytes,
{
    match order {
        ByteOrder::LittleEndian => {
            lemma_base_256_digits(
                bytes[0] as int,
                bytes[1] as int,
                bytes[2] as int,
                bytes[3] as int,
            );
            assert(u32_le_bytes(u32_of_le_bytes(bytes)) =~= bytes);
        },
        ByteOrder::BigEndian => {
            let r = bytes.reverse();
            lemma_base_256_digits(r[0] as int, r[1] as int, r[2] as int, r[3] as int);
            assert(u32_le_bytes(u32_of_le_bytes(r)) =~= r);
            assert(r.reverse() =~= bytes);
        },
    }
}

/// Reads one `u32` from the front of `bytes` with bytestream's
/// `u32::read_from`, which fills a four-byte buffer from the reader and
/// interprets it in the given order. On a slice the read succeeds exactly
/// when four bytes are there.
#[verifier::external_body]
pub(crate) fn read_u32(bytes: &[u8], order: ByteOrder) -> (value: Option<u32>)
    ensures
        bytes@.len() < 4 ==> value is None,
        bytes@.len() >= 4 ==> value == Some(u32_of_bytes(bytes@.subrange(0, 4), order)),
{
    let mut reader: &[u8] = bytes;
    let outside = match order {
        ByteOrder::BigEndian => bytestream::ByteOrder::BigEndian,
        ByteOrder::LittleEndian => bytestream::ByteOrder::LittleEndian,
    };
    u32::read_from(&mut reader, outside).ok()
}

/// Appends `value` to `out` with bytestream's `u32::write_to`, which writes
/// the four bytes of the number in the given order.
#[verifier::external_body]
pub(crate) fn write_u32(out: &mut Vec<u8>, value: u32, order: ByteOrder)
    ensures
        final(out)@ == old(out)@ + u32_bytes(value, order),
{
    let outside = match order {
        ByteOrder::BigEndian => bytestream::ByteOrder::BigEndian,
        ByteOrder::LittleEndian => bytestream::ByteOrder::LittleEndian,
    };
    let _ = value.write_to(out, outside);
}

/// The two bytes of `value`, least significant first.
pub open spec fn u16_le_bytes(value: u16) -> Seq<u8> {
    seq![(value % 0x100) as u8, (value / 0x100) as u8]
}

/// The number that the two bytes `bytes` stand for in the given order.
pub open spec fn u16_of_bytes(bytes: Seq<u8>, order: ByteOrder) -> u16
    recommends
        bytes.len() == 2,
{
    match order {
        ByteOrder::LittleEndian => (bytes[0] + bytes[1] * 0x100) as u16,
        ByteOrder::BigEndian => (bytes[1] + bytes[0] * 0x100) as u16,
    }
}

/// The unsigned number with the same 32 bits as `value` in two's complement.
pub open spec fn i32_bits(value: i32) -> u32 {
    if value < 0 {
        (value + 0x1_0000_0000) as u32
    } else {
        value as u32
    }
}

/// The signed number with the same 32 bits as `value` in two's complement.
pub open spec fn u32_as_signed(value: u32) -> i32 {
    if value >= 0x8000_0000 {
        (value - 0x1_0000_0000) as i32
    } else {
        value as i32
    }
}

/// The four bytes of the words of `words`, one word after the other, each in
/// the given order.
pub open spec fn words_bytes(words: Seq<u32>, order: ByteOrder) -> Seq<u8> {
    Seq::new(4 * words.len(), |i: int| u32_bytes(words[i / 4], order)[i % 4])
}

/// Appending a word to a list appends its bytes.
pub proof fn lemma_words_bytes_push(words: Seq<u32>, word: u32, order: ByteOrder)
    ensures
        words_bytes(words.push(word), order) == words_bytes(words, order) + u32_bytes(word, order),
{
    assert(words_bytes(words.push(word), order) =~= words_bytes(words, order) + u32_bytes(
        word,
        order,
    ));
}

/// Reads one `u16` from the front of `bytes` with bytestream's
/// `u16::read_from`, which fills a two-byte buffer from the reader and
/// interprets it in the given order. On a slice the read succeeds exactly
/// when two bytes are there.
#[verifier::external_body]
pub(crate) fn read_u16(bytes: &[u8], order: ByteOrder) -> (value: Option<u16>)
    ensures
        bytes@.len() < 2 ==> value is None,
        bytes@.len() >= 2 ==> value == Some(u16_of_bytes(bytes@.subrange(0, 2), order)),
{
    let mut reader: &[u8] = bytes;
    let outside = match order {
        ByteOrder::BigEndian => bytestream::ByteOrder::BigEndian,
        ByteOrder::LittleEndian => bytestream::ByteOrder::LittleEndian,
    };
    u16::read_from(&mut reader, outside).ok()
}

/// Reads one byte from the front of `bytes` with bytestream's
/// `u8::read_from`, which takes the next byte of the reader whatever the
/// order. On a slice the read succeeds exactly when a byte is there.
#[verifier::external_body]
pub(crate) fn read_u8(bytes: &[u8], order: ByteOrder) -> (value: Option<u8>)
    ensures
        bytes@.len() < 1 ==> value is None,
        bytes@.len() >= 1 ==> value == Some(bytes@[0]),
{
    let mut reader: &[u8] = bytes;
    let outside = match order {
        ByteOrder::BigEndian => bytestream::ByteOrder::BigEndian,
        ByteOrder::LittleEndian => bytestream::ByteOrder::LittleEndian,
    };
    u8::read_from(&mut reader, outside).ok()
}

/// Appends `value` to `out` with bytestream's `i32::write_to`, which writes
/// the four bytes of the number's two's complement form in the given order.
#[verifier::external_body]
pub(crate) fn write_i32(out: &mut Vec<u8>, value: i32, order: ByteOrder)
    ensures
        final(out)@ == old(out)@ + u32_bytes(i32_bits(value), order),
{
    let outside = match order {
        ByteOrder::BigEndian => bytestream::ByteOrder::BigEndian,
        ByteOrder::LittleEndian => bytestream::ByteOrder::LittleEndian,
    };
    let _ = value.write_to(out, outside);
}

} // verus!
