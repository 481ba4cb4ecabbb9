//! Seekable byte sources: what the extraction engine reads its input from.
use crate::endian::{read_u32, u32_of_bytes, ByteOrder};
use vstd::prelude::*;
use vstd::slice::{slice_subrange, slice_to_vec};

verus! {

/// Why a seek or a read on a byte source failed.
#[derive(Debug, Clone, Copy, PartialEq, Eq, Structural)]
pub enum StreamError {
    /// The source ended, or had no byte to give, before a read was complete.
    UnexpectedEof,
    /// The source cannot stand at the position that a seek asked for.
    NotAvailable,
}

/// What a byte source holds, whatever position it stands at.
pub ghost struct Image {
    /// The byte at each position, `None` where the source has none to give.
    pub bytes: Seq<Option<u8>>,
    /// The positions that a seek accepts.
    pub seekable: Set<int>,
}

impl Image {
    /// Whether `len` bytes can be read from position `pos` on.
    pub open spec fn readable(self, pos: int, len: int) -> bool {
        &&& 0 <= pos
        &&& 0 <= len
        &&& pos + len <= self.bytes.len()
        &&& forall|i: int| pos <= i < pos + len ==> (#[trigger] self.bytes[i]) is Some
    }

    /// The `len` bytes from position `pos` on.
    pub open spec fn read(self, pos: int, len: int) -> Seq<u8>
        recommends
            self.readable(pos, len),
    {
        Seq::new(len as nat, |i: int| self.bytes[pos + i]->0)
    }

    /// The image of a plain file with the given contents: every byte is
    /// there, and a seek may go anywhere.
    pub open spec fn flat(data: Seq<u8>) -> Image {
        Image {
            bytes: Seq::new(data.len(), |i: int| Some(data[i])),
            seekable: Set::new(|pos: int| 0 <= pos <= u64::MAX),
        }
    }
}

/// A source of bytes that can be positioned and read, and that does not
/// change under either: the engine's view of its input.
pub trait ByteSource {
    /// What the source holds.
    spec fn image(&self) -> Image;

    /// Where the next read starts.
    spec fn position(&self) -> int;

    /// What the source keeps true of itself between calls.
    spec fn inv(&self) -> bool;

    /// A position is a 64-bit offset.
    proof fn lemma_position_in_range(&self)
        requires
            self.inv(),
        ensures
            0 <= self.position() <= u64::MAX,
    ;

    /// Moves to `pos`, counted from the start. Fails, with
    /// [`StreamError::NotAvailable`], exactly when the source cannot stand
    /// there.
    fn seek(&mut self, pos: u64) -> (done: Result<(), StreamError>)
        requires
            old(self).inv(),
        ensures
            final(self).inv(),
            final(self).image() == old(self).image(),
            done is Ok <==> old(self).image().seekable.contains(pos as int),
            done is Ok ==> final(self).position() == pos,
            done is Err ==> done == Err::<(), StreamError>(StreamError::NotAvailable),
    ;

    /// The position that the next read starts at.
    fn stream_position(&self) -> (pos: u64)
        requires
            self.inv(),
        ensures
            pos == self.position(),
    ;

    /// Reads exactly `len` bytes and moves past them. Fails, with
    /// [`StreamError::UnexpectedEof`], exactly when the source does not hold
    /// that many bytes from its position on.
    fn read_exact(&mut self, len: usize) -> (bytes: Result<Vec<u8>, StreamError>)
        requires
            old(self).inv(),
        ensures
            final(self).inv(),
            final(self).image() == old(self).image(),
            bytes is Ok <==> old(self).image().readable(old(self).position(), len as int),
            bytes matches Ok(read) ==> {
                &&& read@ == old(self).image().read(old(self).position(), len as int)
                &&& final(self).position() == old(self).position() + len
            },
            bytes is Err ==> bytes == Err::<Vec<u8>, StreamError>(StreamError::UnexpectedEof),
    ;
}

/// A byte source over the contents of a file held in memory.
#[derive(Debug, Clone)]
pub struct MemoryStream {
    data: Vec<u8>,
    pos: u64,
}

impl MemoryStream {
    /// A source over `data`, standing at its start.
    pub fn new(data: Vec<u8>) -> (stream: MemoryStream)
        ensures
            stream.data() == data@,
            stream.position() == 0,
            stream.image() == Image::flat(data@),
            stream.inv(),
    {
        MemoryStream { data, pos: 0 }
    }

    /// The contents of the file.
    pub closed spec fn data(&self) -> Seq<u8> {
        self.data@
    }

    /// Gives the contents back.
    pub fn into_inner(self) -> (data: Vec<u8>)
        ensures
            data@ == self.data(),
    {
        self.data
    }
}

impl ByteSource for MemoryStream {
    closed spec fn image(&self) -> Image {
        Image::flat(self.data@)
    }

    closed spec fn position(&self) -> int {
        self.pos as int
    }

    open spec fn inv(&self) -> bool {
        true
    }

    proof fn lemma_position_in_range(&self) {
    }

    fn seek(&mut self, pos: u64) -> (done: Result<(), StreamError>) {
        self.pos = pos;
        Ok(())
    }

    fn stream_position(&self) -> (pos: u64) {
        self.pos
    }

    #[verifier::rlimit(50)]
    fn read_exact(&mut self, len: usize) -> (bytes: Result<Vec<u8>, StreamError>) {
        let total = self.data.len();
        if self.pos > total as u64 || len > total - self.pos as usize {
            return Err(StreamError::UnexpectedEof);
        }
        let start = self.pos as usize;
        let end = start + len;
        let read = slice_to_vec(slice_subrange(self.data.as_slice(), start, end));
        proof {
            let image = Image::flat(self.data@);
            assert(image.readable(start as int, len as int));
            assert(read@ =~= image.read(start as int, len as int));
        }
        self.pos = end as u64;
        Ok(read)
    }
}

/// The 32-bit word at `pos`, if four bytes can be read there.
pub open spec fn word_at(image: Image, pos: int, order: ByteOrder) -> Option<u32> {
    if image.readable(pos, 4) {
        Some(u32_of_bytes(image.read(pos, 4), order))
    } else {
        None
    }
}

/// Reads one 32-bit word in the given byte order, and moves past it.
pub fn read_word<S: ByteSource>(data: &mut S, endian: ByteOrder) -> (word: Result<u32, StreamError>)
    requires
        old(data).inv(),
    ensures
        final(data).inv(),
        final(data).image() == old(data).image(),
        match word {
            Ok(word) => word_at(old(data).image(), old(data).position(), endian) == Some(word)
                && final(data).position() == old(data).position() + 4,
            Err(e) => word_at(old(data).image(), old(data).position(), endian) is None && e
                == StreamError::UnexpectedEof,
        },
{
    let bytes = match data.read_exact(4) {
        Ok(bytes) => bytes,
        Err(e) => {
            return Err(e);
        },
    };
    assert(bytes@.subrange(0, 4) =~= bytes@);
    match read_u32(bytes.as_slice(), endian) {
        Some(word) => Ok(word),
        None => Err(StreamError::UnexpectedEof),
    }
}

} // verus!
