//! DOL executables as byte sources: a table of sections maps the addresses
//! that the program runs at to offsets in the file.
use crate::endian::{u32_of_bytes, ByteOrder};
use crate::stream::{read_word, ByteSource, Image, StreamError};
use vstd::prelude::*;

verus! {

/// The number of addresses that a DOL file can map.
pub const ADDRESS_SPACE: u64 = 0x1_0000_0000;

/// The number of 32-bit words in the header of a DOL file.
pub const HEADER_WORDS: usize = 57;

#[derive(Clone, Copy, Debug)]
pub struct DolSection {
    pub address: u32,
    pub offset: u64,
    pub size: u32,
}

impl Default for DolSection {
    fn default() -> (section: Self)
        ensures
            section == (DolSection { address: 0, offset: 0, size: 0 }),
    {
        DolSection { address: 0, offset: 0, size: 0 }
    }
}

impl DolSection {
    /// Whether the section maps `addr`.
    pub open spec fn contains(self, addr: int) -> bool {
        self.address <= addr < self.address + self.size
    }

    /// The offset in the file of the byte that `addr` is mapped to.
    pub open spec fn file_offset(self, addr: int) -> int {
        self.offset + (addr - self.address)
    }

    /// The first address behind the section. It must be one that 32 bits
    /// can hold.
    pub fn end(&self) -> (end: u32)
        requires
            self.address + self.size <= u32::MAX,
        ensures
            end == self.address + self.size,
    {
        self.address + self.size
    }

    /// Whether the section maps `addr`.
    pub fn maps(&self, addr: u32) -> (yes: bool)
        ensures
            yes == self.contains(addr as int),
    {
        addr >= self.address && (addr as u64) < self.address as u64 + self.size as u64
    }
}

/// The first section from `from` on that maps `addr`.
pub open spec fn first_containing(sections: Seq<DolSection>, addr: int, from: int) -> Option<
    DolSection,
>
    decreases sections.len() - from,
{
    if from < 0 || from >= sections.len() {
        None
    } else if sections[from].contains(addr) {
        Some(sections[from])
    } else {
        first_containing(sections, addr, from + 1)
    }
}

/// The section that maps `addr`: the first of the text sections that does,
/// else the first of the data sections.
pub open spec fn section_of(text: Seq<DolSection>, data: Seq<DolSection>, addr: int) -> Option<
    DolSection,
> {
    match first_containing(text, addr, 0) {
        Some(section) => Some(section),
        None => first_containing(data, addr, 0),
    }
}

/// The offset in the file that `addr` is mapped to, if a section maps it
/// and the file can be positioned there.
pub open spec fn mapped_offset(
    text: Seq<DolSection>,
    data: Seq<DolSection>,
    inner: Image,
    addr: int,
) -> Option<int> {
    match section_of(text, data, addr) {
        Some(section) => if 0 <= addr < ADDRESS_SPACE && section.file_offset(addr) <= u64::MAX
            && inner.seekable.contains(section.file_offset(addr)) {
            Some(section.file_offset(addr))
        } else {
            None
        },
        None => None,
    }
}

/// What a DOL file holds as a byte source: at each address that a section
/// maps, the byte of the file at the offset that the address is mapped to.
/// A seek may go to every address that is mapped.
pub open spec fn dol_image(text: Seq<DolSection>, data: Seq<DolSection>, inner: Image) -> Image {
    Image {
        bytes: Seq::new(
            ADDRESS_SPACE as nat,
            |addr: int|
                match mapped_offset(text, data, inner, addr) {
                    Some(offset) => if offset < inner.bytes.len() {
                        inner.bytes[offset]
                    } else {
                        None
                    },
                    None => None,
                },
        ),
        seekable: Set::new(|addr: int| mapped_offset(text, data, inner, addr) is Some),
    }
}

/// Where a seek goes to.
#[derive(Debug, Clone, Copy, PartialEq, Eq, Structural)]
pub enum SeekFrom {
    /// To an address.
    Start(u64),
    /// To an address counted from the end, which a DOL file has none of.
    End(i64),
    /// To an address counted from where the file stands.
    Current(i64),
}

/// A DOL executable, read through its section table.
#[derive(Debug, Clone)]
pub struct DolFile<F: ByteSource> {
    pub text: [DolSection; 7],
    pub data: [DolSection; 11],
    pub bss: [u32; 2],
    pub entry: u32,
    /// The file that the sections map into.
    pub inner: F,
    /// The address that the next read starts at.
    pub addr: u64,
}

/// What the header of a DOL file holds.
pub ghost struct DolHeader {
    pub text: Seq<DolSection>,
    pub data: Seq<DolSection>,
    pub bss: Seq<u32>,
    pub entry: u32,
}

/// Word `index` of the header that stands at `pos`.
pub open spec fn header_word(image: Image, pos: int, order: ByteOrder, index: int) -> u32 {
    u32_of_bytes(image.read(pos + 4 * index, 4), order)
}

/// The header that stands at `pos`, if all its words can be read: the
/// offsets of the seven text and the eleven data sections, their addresses,
/// their sizes, the address and the size of the zeroed memory, and the entry
/// point.
pub open spec fn header_at(image: Image, pos: int, order: ByteOrder) -> Option<DolHeader> {
    if image.readable(pos, 4 * HEADER_WORDS) {
        Some(
            DolHeader {
                text: Seq::new(
                    7,
                    |i: int|
                        DolSection {
                            offset: header_word(image, pos, order, i) as u64,
                            address: header_word(image, pos, order, 18 + i),
                            size: header_word(image, pos, order, 36 + i),
                        },
                ),
                data: Seq::new(
                    11,
                    |i: int|
                        DolSection {
                            offset: header_word(image, pos, order, 7 + i) as u64,
                            address: header_word(image, pos, order, 25 + i),
                            size: header_word(image, pos, order, 43 + i),
                        },
                ),
                bss: seq![header_word(image, pos, order, 54), header_word(image, pos, order, 55)],
                entry: header_word(image, pos, order, 56),
            },
        )
    } else {
        None
    }
}

/// Scans a list of sections for the first that maps `addr`.
fn find_section(sections: &[DolSection], addr: u32) -> (found: Option<DolSection>)
    ensures
        found == first_containing(sections@, addr as int, 0),
        found matches Some(section) ==> section.contains(addr as int),
{
    let mut i: usize = 0;
    while i < sections.len()
        invariant
            i <= sections.len(),
            first_containing(sections@, addr as int, 0) == first_containing(
                sections@,
                addr as int,
                i as int,
            ),
        decreases sections.len() - i,
    {
        if sections[i].maps(addr) {
            return Some(sections[i]);
        }
        i += 1;
    }
    None
}

/// Reads the words of a header.
#[verifier::rlimit(50)]
fn read_words<F: ByteSource>(file: &mut F, endian: ByteOrder, count: usize) -> (words: Result<
    Vec<u32>,
    StreamError,
>)
    requires
        old(file).inv(),
        count > 0,
    ensures
        final(file).inv(),
        final(file).image() == old(file).image(),
        match words {
            Ok(words) => {
                &&& old(file).image().readable(old(file).position(), 4 * count)
                &&& words@.len() == count
                &&& forall|k: int|
                    0 <= k < count ==> #[trigger] words@[k] == header_word(
                        old(file).image(),
                        old(file).position(),
                        endian,
                        k,
                    )
            },
            Err(e) => !old(file).image().readable(old(file).position(), 4 * count) && e
                == StreamError::UnexpectedEof,
        },
{
    let ghost image = file.image();
    let ghost start = file.position();
    let mut words: Vec<u32> = Vec::new();
    let mut i: usize = 0;
    while i < count
        invariant
            file.inv(),
            file.image() == image,
            image == old(file).image(),
            start == old(file).position(),
            i <= count,
            file.position() == start + 4 * i,
            i > 0 ==> image.readable(start, 4 * i),
            words@.len() == i,
            forall|k: int|
                0 <= k < i ==> #[trigger] words@[k] == header_word(image, start, endian, k),
        decreases count - i,
    {
        let word = match read_word(file, endian) {
            Ok(word) => word,
            Err(e) => {
                assert(!image.readable(start, 4 * count)) by {
                    if image.readable(start, 4 * count) {
                        assert(image.readable(start + 4 * i, 4));
                    }
                }
                return Err(e);
            },
        };
        words.push(word);
        i += 1;
    }
    Ok(words)
}

impl<F: ByteSource> DolFile<F> {
    /// The file that the sections map into.
    pub open spec fn inner(&self) -> F {
        self.inner
    }

    /// What was read from the header.
    pub open spec fn header(&self) -> DolHeader {
        DolHeader { text: self.text@, data: self.data@, bss: self.bss@, entry: self.entry }
    }

    /// Reads the header where `file` stands, and goes to the entry point.
    /// Fails where the header cannot be read in full, and where no section
    /// maps the entry point.
    #[verifier::rlimit(50)]
    pub fn new(mut file: F, endian: ByteOrder) -> (dol: Result<Self, StreamError>)
        requires
            file.inv(),
        ensures
            match dol {
                Ok(dol) => {
                    &&& header_at(file.image(), file.position(), endian) == Some(dol.header())
                    &&& dol.inv()
                    &&& dol.inner().image() == file.image()
                    &&& dol.image() == dol_image(
                        dol.header().text,
                        dol.header().data,
                        file.image(),
                    )
                    &&& dol.image().seekable.contains(dol.header().entry as int)
                    &&& dol.position() == dol.header().entry
                },
                Err(e) => match header_at(file.image(), file.position(), endian) {
                    None => e == StreamError::UnexpectedEof,
                    Some(header) => !dol_image(header.text, header.data, file.image()).seekable.contains(
                        header.entry as int,
                    ) && e == StreamError::NotAvailable,
                },
            },
    {
        let ghost image = file.image();
        let ghost start = file.position();
        let words = match read_words(&mut file, endian, HEADER_WORDS) {
            Ok(words) => words,
            Err(e) => {
                return Err(e);
            },
        };
        let mut text: [DolSection; 7] = [DolSection { address: 0, offset: 0, size: 0 };7];
        let mut data: [DolSection; 11] = [DolSection { address: 0, offset: 0, size: 0 };11];
        let mut i: usize = 0;
        while i < 7
            invariant
                i <= 7,
                words@.len() == HEADER_WORDS,
                forall|k: int|
                    0 <= k < i ==> #[trigger] text@[k] == (DolSection {
                        offset: words@[k] as u64,
                        address: words@[18 + k],
                        size: words@[36 + k],
                    }),
            decreases 7 - i,
        {
            text[i] = DolSection {
                offset: words[i] as u64,
                address: words[18 + i],
                size: words[36 + i],
            };
            i += 1;
        }
        let mut i: usize = 0;
        while i < 11
            invariant
                i <= 11,
                words@.len() == HEADER_WORDS,
                forall|k: int|
                    0 <= k < i ==> #[trigger] data@[k] == (DolSection {
                        offset: words@[7 + k] as u64,
                        address: words@[25 + k],
                        size: words@[43 + k],
                    }),
            decreases 11 - i,
        {
            data[i] = DolSection {
                offset: words[7 + i] as u64,
                address: words[25 + i],
                size: words[43 + i],
            };
            i += 1;
        }
        let bss = [words[54], words[55]];
        let entry = words[56];
        proof {
            let header = header_at(image, start, endian)->0;
            assert(header.text =~= text@);
            assert(header.data =~= data@);
            assert(header.bss =~= bss@);
        }
        let mut out = Self { text, data, bss, entry, inner: file, addr: 0 };
        match out.seek_inner(entry as u64) {
            Ok(()) => {
                out.addr = entry as u64;
                Ok(out)
            },
            Err(e) => Err(e),
        }
    }

    /// As [`DolFile::new`], but standing at `addr` in the end, mapped or not.
    pub fn new_with_addr(file: F, endian: ByteOrder, addr: u32) -> (dol: Result<Self, StreamError>)
        requires
            file.inv(),
        ensures
            match dol {
                Ok(dol) => {
                    &&& header_at(file.image(), file.position(), endian) == Some(dol.header())
                    &&& dol.inv()
                    &&& dol.inner().image() == file.image()
                    &&& dol.image() == dol_image(
                        dol.header().text,
                        dol.header().data,
                        file.image(),
                    )
                    &&& dol.image().seekable.contains(dol.header().entry as int)
                    &&& dol.position() == addr
                },
                Err(e) => match header_at(file.image(), file.position(), endian) {
                    None => e == StreamError::UnexpectedEof,
                    Some(header) => !dol_image(header.text, header.data, file.image()).seekable.contains(
                        header.entry as int,
                    ) && e == StreamError::NotAvailable,
                },
            },
    {
        let mut out = match Self::new(file, endian) {
            Ok(out) => out,
            Err(e) => {
                return Err(e);
            },
        };
        out.addr = addr as u64;
        Ok(out)
    }

    /// The section that maps `addr`: the first of the text sections that
    /// does, else the first of the data sections.
    pub fn get_section_of(&self, addr: u32) -> (found: Option<DolSection>)
        ensures
            found == section_of(self.text@, self.data@, addr as int),
            found matches Some(section) ==> section.contains(addr as int),
    {
        match find_section(self.text.as_slice(), addr) {
            Some(section) => Some(section),
            None => find_section(self.data.as_slice(), addr),
        }
    }

    /// The address that a seek goes to from where the file stands, if there
    /// is one: none from the end, and none below zero or beyond 64 bits.
    pub open spec fn target_of(position: int, pos: SeekFrom) -> Option<int> {
        match pos {
            SeekFrom::Start(c) => Some(c as int),
            SeekFrom::End(_) => None,
            SeekFrom::Current(c) => if 0 <= position + c <= u64::MAX {
                Some(position + c)
            } else {
                None
            },
        }
    }

    /// Moves to an address, given outright or counted from where the file
    /// stands. Fails where there is no such address, and where no section
    /// maps it; the file then stands where it stood.
    #[verifier::rlimit(50)]
    pub fn seek_from(&mut self, pos: SeekFrom) -> (addr: Result<u64, StreamError>)
        requires
            old(self).inv(),
        ensures
            final(self).inv(),
            final(self).image() == old(self).image(),
            match addr {
                Ok(addr) => Self::target_of(old(self).position(), pos) == Some(addr as int)
                    && old(self).image().seekable.contains(addr as int) && final(self).position()
                    == addr,
                Err(e) => e == StreamError::NotAvailable && final(self).position() == old(
                    self,
                ).position() && (Self::target_of(old(self).position(), pos) matches Some(addr)
                    ==> !old(self).image().seekable.contains(addr)),
            },
    {
        let target = match pos {
            SeekFrom::Start(c) => c,
            SeekFrom::End(_) => {
                return Err(StreamError::NotAvailable);
            },
            SeekFrom::Current(c) => {
                if c >= 0 {
                    if c as u64 > u64::MAX - self.addr {
                        return Err(StreamError::NotAvailable);
                    }
                    self.addr + c as u64
                } else {
                    let back: u64 = if c == i64::MIN {
                        0x8000_0000_0000_0000
                    } else {
                        (-c) as u64
                    };
                    if back > self.addr {
                        return Err(StreamError::NotAvailable);
                    }
                    self.addr - back
                }
            },
        };
        match self.seek_inner(target) {
            Ok(()) => {
                self.addr = target;
                Ok(target)
            },
            Err(e) => Err(e),
        }
    }

    /// Positions the file at the byte that `addr` is mapped to.
    #[verifier::rlimit(50)]
    fn seek_inner(&mut self, addr: u64) -> (done: Result<(), StreamError>)
        requires
            old(self).inner.inv(),
        ensures
            final(self).inner.inv(),
            final(self).inner.image() == old(self).inner.image(),
            final(self).text == old(self).text,
            final(self).data == old(self).data,
            final(self).bss == old(self).bss,
            final(self).entry == old(self).entry,
            final(self).addr == old(self).addr,
            match done {
                Ok(()) => mapped_offset(
                    old(self).text@,
                    old(self).data@,
                    old(self).inner.image(),
                    addr as int,
                ) == Some(final(self).inner.position()),
                Err(e) => mapped_offset(
                    old(self).text@,
                    old(self).data@,
                    old(self).inner.image(),
                    addr as int,
                ) is None && e == StreamError::NotAvailable,
            },
    {
        if addr >= ADDRESS_SPACE {
            return Err(StreamError::NotAvailable);
        }
        let section = match self.get_section_of(addr as u32) {
            Some(section) => section,
            None => {
                return Err(StreamError::NotAvailable);
            },
        };
        let within = (addr as u32 - section.address) as u64;
        if section.offset > u64::MAX - within {
            return Err(StreamError::NotAvailable);
        }
        self.inner.seek(section.offset + within)
    }
}

impl<F: ByteSource> ByteSource for DolFile<F> {
    open spec fn image(&self) -> Image {
        dol_image(self.text@, self.data@, self.inner.image())
    }

    open spec fn position(&self) -> int {
        self.addr as int
    }

    open spec fn inv(&self) -> bool {
        self.inner.inv() && self.addr <= ADDRESS_SPACE
    }

    proof fn lemma_position_in_range(&self) {
    }

    fn seek(&mut self, pos: u64) -> (done: Result<(), StreamError>) {
        match self.seek_inner(pos) {
            Ok(()) => {
                self.addr = pos;
                Ok(())
            },
            Err(e) => Err(e),
        }
    }

    fn stream_position(&self) -> (pos: u64) {
        self.addr
    }

    #[verifier::loop_isolation(false)]
    #[verifier::rlimit(50)]
    fn read_exact(&mut self, len: usize) -> (bytes: Result<Vec<u8>, StreamError>) {
        let ghost image = self.image();
        let ghost start = self.position();
        let mut read: Vec<u8> = Vec::new();
        let mut k: usize = 0;
        while k < len
            invariant
                self.inner.inv(),
                self.inner.image() == old(self).inner.image(),
                self.text == old(self).text,
                self.data == old(self).data,
                self.addr == old(self).addr,
                k <= len,
                start + k <= ADDRESS_SPACE,
                read@.len() == k,
                forall|j: int|
                    0 <= j < k ==> (#[trigger] image.bytes[start + j]) == Some(read@[j]),
            decreases len - k,
        {
            if self.addr >= ADDRESS_SPACE - k as u64 {
                return Err(StreamError::UnexpectedEof);
            }
            let addr = self.addr + k as u64;
            match self.seek_inner(addr) {
                Ok(()) => {},
                Err(_) => {
                    assert(image.bytes[start + k] is None);
                    return Err(StreamError::UnexpectedEof);
                },
            }
            let ghost offset = self.inner.position();
            let ghost file = self.inner.image();
            proof {
                self.inner.lemma_position_in_range();
            }
            let byte = match self.inner.read_exact(1) {
                Ok(byte) => byte,
                Err(e) => {
                    assert(offset < file.bytes.len() ==> file.bytes[offset] is None);
                    assert(image.bytes[start + k] is None);
                    return Err(e);
                },
            };
            assert(file.bytes[offset] is Some);
            assert(image.bytes[start + k] == Some(byte@[0]));
            read.push(byte[0]);
            k += 1;
        }
        self.addr = self.addr + len as u64;
        assert forall|i: int| start <= i < start + len implies (#[trigger] image.bytes[i]) is Some by {
            let j = i - start;
            assert(image.bytes[start + j] == Some(read@[j]));
        }
        assert(image.readable(start, len as int));
        assert(read@ =~= image.read(start, len as int));
        Ok(read)
    }
}

} // verus!
