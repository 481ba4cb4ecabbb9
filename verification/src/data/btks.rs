//! Data representation for the BTKS (Binary Tickflow Specification) file format
use crate::endian::{
    i32_bits, lemma_u32_bytes_round_trip, u32_bytes, u32_of_bytes, write_i32, write_u32, ByteOrder,
};
use crate::data::{RawOp, TickflowOp, NO_SCENE};
use crate::extract::model::decode_at;
use crate::extract::{binary_to_raw_tf_op, Pointer};
use crate::stream::{ByteSource, Image, MemoryStream, StreamError};
use vstd::prelude::*;
use vstd::slice::slice_to_vec;

verus! {

/// A Tickflow program ready to be written out: its code, the places in the
/// code that hold pointers, its tempos and its data pool.
#[derive(Debug, Clone)]
pub struct BTKS {
    pub btks_type: BtksType,
    pub flow: FlowSection,
    pub ptro: Option<Vec<Pointer>>,
    pub tmpo: Option<Vec<Tempo>>,
    pub strd: Vec<u8>,
}

/// The code of a program, and the offset in it at which the program starts.
#[derive(Debug, Clone)]
pub struct FlowSection {
    pub start_offset: u32,
    pub data: Vec<u8>,
}

/// One tempo track.
#[derive(Debug, Clone)]
pub struct Tempo {
    pub id: u32,
    pub data: Vec<TempoVal>,
    pub sample_rate: u32,
}

/// One stretch of a tempo track.
#[derive(Debug, Clone, Copy, PartialEq, Eq, Structural)]
pub struct TempoVal {
    /// The number of beats, as the bits of a single-precision float.
    pub beats: u32,
    /// The time that the beats take, in samples.
    pub time: u32,
    pub loop_val: u32,
}

/// The game variant that a container's code was written for.
#[derive(Debug, Clone, Copy, PartialEq, Eq, Structural)]
pub enum BtksType {
    MegamixIntl,
    MegamixJp,
    FeverJp,
    FeverUs,
    FeverEu,
    FeverKr,
    Gold,
    Unspecified,
}

/// What a [`Tempo`] holds.
pub ghost struct TempoTrack {
    pub id: u32,
    pub data: Seq<TempoVal>,
    pub sample_rate: u32,
}

impl DeepView for Tempo {
    type V = TempoTrack;

    open spec fn deep_view(&self) -> TempoTrack {
        TempoTrack { id: self.id, data: self.data@, sample_rate: self.sample_rate }
    }
}

/// What a [`BTKS`] holds.
pub ghost struct Container {
    pub btks_type: BtksType,
    pub start_offset: u32,
    pub code: Seq<u8>,
    pub ptro: Option<Seq<Pointer>>,
    pub tmpo: Option<Seq<TempoTrack>>,
    pub strd: Seq<u8>,
}

impl Container {
    /// A pointer table that is present holds at least one pointer: a
    /// program without pointers has no table.
    pub open spec fn well_formed(self) -> bool {
        self.ptro matches Some(pointers) ==> pointers.len() > 0
    }
}

impl View for BTKS {
    type V = Container;

    open spec fn view(&self) -> Container {
        Container {
            btks_type: self.btks_type,
            start_offset: self.flow.start_offset,
            code: self.flow.data@,
            ptro: match self.ptro {
                Some(pointers) => Some(pointers@),
                None => None,
            },
            tmpo: match self.tmpo {
                Some(tempos) => Some(tempos.deep_view()),
                None => None,
            },
            strd: self.strd@,
        }
    }
}

/// Why a container could not be written.
#[derive(Debug, Clone, Copy, PartialEq, Eq, Structural)]
pub enum ContainerError {
    /// A size or an offset does not fit the 32 bits that the format gives it.
    TooLarge,
}

/// The revision of the format that is written.
pub const REVISION: u32 = 2;

/// The size of the file header.
pub const HEADER_SIZE: u32 = 0x18;

/// The size of what stands before the code in a FLOW section.
pub const FLOW_HEADER: u32 = 0xC;

/// The size of what stands before the records in a PTRO section.
pub const PTRO_HEADER: u32 = 0xC;

/// The size of what stands before the tracks in a TMPO section.
pub const TMPO_HEADER: u32 = 0xC;

/// The size of what stands before the data in an STRD section.
pub const STRD_HEADER: u32 = 0x8;

/// The size of what stands before the stretches of a tempo track: its id,
/// the number of its stretches, and whether it is streamed.
pub const TRACK_HEADER: u32 = 0xC;

/// The size of a stretch of a tempo track: beats, time and loop value.
pub const STRETCH_SIZE: u32 = 0xC;

/// The first tempo id that is kept for tempos that come with the game.
pub const FIRST_BUILT_IN_TEMPO: u32 = 0x01000101;

/// The last tempo id that is kept for tempos that come with the game.
pub const LAST_BUILT_IN_TEMPO: u32 = 0x01000281;

impl BtksType {
    /// The number that stands for the variant in a container.
    pub open spec fn id_spec(self) -> i32 {
        match self {
            BtksType::MegamixIntl => 0,
            BtksType::MegamixJp => 1,
            BtksType::FeverJp => 2,
            BtksType::FeverUs => 3,
            BtksType::FeverEu => 4,
            BtksType::FeverKr => 5,
            BtksType::Gold => 6,
            BtksType::Unspecified => -1i32,
        }
    }

    /// The number that stands for the variant in a container.
    pub fn id(self) -> (id: i32)
        ensures
            id == self.id_spec(),
    {
        match self {
            BtksType::MegamixIntl => 0,
            BtksType::MegamixJp => 1,
            BtksType::FeverJp => 2,
            BtksType::FeverUs => 3,
            BtksType::FeverEu => 4,
            BtksType::FeverKr => 5,
            BtksType::Gold => 6,
            BtksType::Unspecified => -1,
        }
    }
}

/// Whether a tempo with this id is streamed: every tempo is, but for those
/// whose id lies in the range kept for the tempos that come with the game.
pub open spec fn streamed(id: u32) -> bool {
    !(FIRST_BUILT_IN_TEMPO <= id <= LAST_BUILT_IN_TEMPO)
}

/// The bytes of a stretch: beats, time and loop value, four bytes each.
pub open spec fn stretch_bytes(value: TempoVal, order: ByteOrder) -> Seq<u8> {
    u32_bytes(value.beats, order) + u32_bytes(value.time, order) + u32_bytes(value.loop_val, order)
}

/// The bytes of the first `upto` stretches, one after the other.
pub open spec fn stretches_bytes(values: Seq<TempoVal>, order: ByteOrder, upto: int) -> Seq<u8>
    decreases upto,
{
    if upto <= 0 {
        Seq::empty()
    } else {
        stretches_bytes(values, order, upto - 1) + stretch_bytes(values[upto - 1], order)
    }
}

/// The bytes of a tempo track: its id, the number of its stretches, whether
/// it is streamed, and its stretches.
pub open spec fn tempo_bytes(tempo: TempoTrack, order: ByteOrder) -> Seq<u8> {
    u32_bytes(tempo.id, order) + u32_bytes(tempo.data.len() as u32, order) + u32_bytes(
        if streamed(tempo.id) {
            1
        } else {
            0
        },
        order,
    ) + stretches_bytes(tempo.data, order, tempo.data.len() as int)
}

/// The bytes of the first `upto` tempo tracks, one after the other.
pub open spec fn tempos_bytes(tempos: Seq<TempoTrack>, order: ByteOrder, upto: int) -> Seq<u8>
    decreases upto,
{
    if upto <= 0 {
        Seq::empty()
    } else {
        tempos_bytes(tempos, order, upto - 1) + tempo_bytes(tempos[upto - 1], order)
    }
}

/// The number of stretches in the first `upto` tempo tracks.
pub open spec fn stretch_count(tempos: Seq<TempoTrack>, upto: int) -> int
    decreases upto,
{
    if upto <= 0 {
        0
    } else {
        stretch_count(tempos, upto - 1) + tempos[upto - 1].data.len()
    }
}

/// The record of a pointer in a PTRO section: the offset of its place in
/// the code, and the byte that stands for its kind.
pub open spec fn pointer_record(pointer: Pointer, order: ByteOrder) -> Seq<u8> {
    u32_bytes((pointer.at as int % 0x1_0000_0000) as u32, order).push(pointer.ptype.tag_spec())
}

/// The records of the first `upto` pointers, one after the other.
pub open spec fn pointer_records(pointers: Seq<Pointer>, order: ByteOrder, upto: int) -> Seq<u8>
    decreases upto,
{
    if upto <= 0 {
        Seq::empty()
    } else {
        pointer_records(pointers, order, upto - 1) + pointer_record(pointers[upto - 1], order)
    }
}

/// The four letters "BTKS".
pub open spec fn file_magic() -> Seq<u8> {
    seq![0x42u8, 0x54u8, 0x4Bu8, 0x53u8]
}

/// The four letters "FLOW".
pub open spec fn flow_magic() -> Seq<u8> {
    seq![0x46u8, 0x4Cu8, 0x4Fu8, 0x57u8]
}

/// The four letters "PTRO".
pub open spec fn ptro_magic() -> Seq<u8> {
    seq![0x50u8, 0x54u8, 0x52u8, 0x4Fu8]
}

/// The four letters "TMPO".
pub open spec fn tmpo_magic() -> Seq<u8> {
    seq![0x54u8, 0x4Du8, 0x50u8, 0x4Fu8]
}

/// The four letters "STRD".
pub open spec fn strd_magic() -> Seq<u8> {
    seq![0x53u8, 0x54u8, 0x52u8, 0x44u8]
}

impl Container {
    /// The size of the FLOW section, as its size field gives it.
    pub open spec fn flow_size(self) -> int {
        FLOW_HEADER + self.code.len()
    }

    /// The size of the PTRO section, as its size field gives it; zero
    /// without a pointer table.
    pub open spec fn ptro_size(self) -> int {
        match self.ptro {
            Some(pointers) => PTRO_HEADER + 5 * pointers.len(),
            None => 0,
        }
    }

    /// The size of the TMPO section, as its size field gives it: what
    /// stands before the tracks, and for each track its three numbers and
    /// its stretches. Zero without a tempo table.
    pub open spec fn tmpo_size(self) -> int {
        match self.tmpo {
            Some(tempos) => TMPO_HEADER + TRACK_HEADER * tempos.len() + STRETCH_SIZE
                * stretch_count(tempos, tempos.len() as int),
            None => 0,
        }
    }

    /// The size of the STRD section, as its size field gives it.
    pub open spec fn strd_size(self) -> int {
        STRD_HEADER + self.strd.len()
    }

    /// The size of the file, as the header gives it: the header's own size
    /// and the sizes of the sections that are there.
    pub open spec fn total_size(self) -> int {
        HEADER_SIZE + self.flow_size() + self.ptro_size() + self.tmpo_size() + self.strd_size()
    }

    /// The number of sections: FLOW and STRD, and PTRO and TMPO where they
    /// are there.
    pub open spec fn section_count(self) -> int {
        2 + if self.ptro is Some {
            1int
        } else {
            0int
        } + if self.tmpo is Some {
            1int
        } else {
            0int
        }
    }

    /// Whether the container can be written: its size fits 32 bits, and so
    /// does the place of every pointer.
    pub open spec fn fits(self) -> bool {
        &&& self.total_size() <= u32::MAX
        &&& self.ptro matches Some(pointers) ==> forall|i: int|
            0 <= i < pointers.len() ==> (#[trigger] pointers[i]).at <= u32::MAX
    }

    /// The file header.
    pub open spec fn header_bytes(self, order: ByteOrder) -> Seq<u8> {
        file_magic() + u32_bytes(self.total_size() as u32, order) + u32_bytes(REVISION, order)
            + u32_bytes(HEADER_SIZE, order) + u32_bytes(self.section_count() as u32, order)
            + u32_bytes(i32_bits(self.btks_type.id_spec()), order)
    }

    /// The FLOW section: the start offset and the code.
    pub open spec fn flow_bytes(self, order: ByteOrder) -> Seq<u8> {
        flow_magic() + u32_bytes(self.flow_size() as u32, order) + u32_bytes(
            self.start_offset,
            order,
        ) + self.code
    }

    /// The PTRO section: the number of pointers and their records. Empty
    /// without a pointer table.
    pub open spec fn ptro_bytes(self, order: ByteOrder) -> Seq<u8> {
        match self.ptro {
            Some(pointers) => ptro_magic() + u32_bytes(self.ptro_size() as u32, order)
                + u32_bytes(pointers.len() as u32, order) + pointer_records(
                pointers,
                order,
                pointers.len() as int,
            ),
            None => Seq::empty(),
        }
    }

    /// The TMPO section: the number of tempo tracks and the tracks. Empty
    /// without a tempo table.
    pub open spec fn tmpo_bytes(self, order: ByteOrder) -> Seq<u8> {
        match self.tmpo {
            Some(tempos) => tmpo_magic() + u32_bytes(self.tmpo_size() as u32, order) + u32_bytes(
                tempos.len() as u32,
                order,
            ) + tempos_bytes(tempos, order, tempos.len() as int),
            None => Seq::empty(),
        }
    }

    /// The STRD section: the data pool.
    pub open spec fn strd_bytes(self, order: ByteOrder) -> Seq<u8> {
        strd_magic() + u32_bytes(self.strd_size() as u32, order) + self.strd
    }

    /// The file: the header, then FLOW, PTRO, TMPO and STRD in this order,
    /// every number in the given byte order.
    pub open spec fn file_bytes(self, order: ByteOrder) -> Seq<u8> {
        self.header_bytes(order) + self.flow_bytes(order) + self.ptro_bytes(order)
            + self.tmpo_bytes(order) + self.strd_bytes(order)
    }
}

/// Appends four letters.
fn write_magic(out: &mut Vec<u8>, a: u8, b: u8, c: u8, d: u8)
    ensures
        final(out)@ == old(out)@ + seq![a, b, c, d],
{
    out.push(a);
    out.push(b);
    out.push(c);
    out.push(d);
    assert(out@ =~= old(out)@ + seq![a, b, c, d]);
}

impl Pointer {
    /// The record of the pointer in a PTRO section: the low 32 bits of the
    /// offset of its place in the code, in the given byte order, and the
    /// byte that stands for its kind.
    #[verifier::rlimit(50)]
    pub fn as_ptro(&self, endian: ByteOrder) -> (record: [u8; 5])
        ensures
            record@ == pointer_record(*self, endian),
    {
        let mut bytes: Vec<u8> = Vec::new();
        write_u32(&mut bytes, (self.at as u64 % 0x1_0000_0000) as u32, endian);
        let record = [bytes[0], bytes[1], bytes[2], bytes[3], self.ptype.tag()];
        assert(record@ =~= pointer_record(*self, endian));
        record
    }
}

impl Tempo {
    pub fn is_streamed(&self) -> (yes: bool)
        ensures
            yes == streamed(self.id),
    {
        !(self.id >= FIRST_BUILT_IN_TEMPO && self.id <= LAST_BUILT_IN_TEMPO)
    }

    /// Appends the track to `buffer`: its id, the number of its stretches,
    /// whether it is streamed, and its stretches.
    #[verifier::rlimit(50)]
    pub fn write_to(&self, buffer: &mut Vec<u8>, order: ByteOrder)
        requires
            self.data.len() <= u32::MAX,
        ensures
            final(buffer)@ == old(buffer)@ + tempo_bytes(self.deep_view(), order),
    {
        let ghost before = buffer@;
        write_u32(buffer, self.id, order);
        write_u32(buffer, self.data.len() as u32, order);
        write_u32(
            buffer,
            if self.is_streamed() {
                1u32
            } else {
                0u32
            },
            order,
        );
        let ghost head = buffer@;
        let mut i: usize = 0;
        assert(buffer@ =~= head + stretches_bytes(self.data@, order, 0));
        while i < self.data.len()
            invariant
                i <= self.data.len(),
                buffer@ == head + stretches_bytes(self.data@, order, i as int),
            decreases self.data.len() - i,
        {
            let value = &self.data[i];
            write_u32(buffer, value.beats, order);
            write_u32(buffer, value.time, order);
            write_u32(buffer, value.loop_val, order);
            assert(buffer@ =~= head + stretches_bytes(self.data@, order, i + 1));
            i += 1;
        }
        assert(buffer@ =~= before + tempo_bytes(self.deep_view(), order));
    }
}

/// The number of stretches grows with the number of tracks counted.
pub proof fn lemma_stretch_count_grows(tempos: Seq<TempoTrack>, fewer: int, more: int)
    requires
        fewer <= more,
    ensures
        0 <= stretch_count(tempos, fewer) <= stretch_count(tempos, more),
    decreases more - fewer, more,
{
    if fewer < more {
        lemma_stretch_count_grows(tempos, fewer, more - 1);
    } else if more > 0 {
        lemma_stretch_count_grows(tempos, more - 1, more - 1);
    }
}

/// The sizes that a container's size fields hold.
pub struct Sizes {
    pub total: u32,
    pub sections: u32,
    pub flow: u32,
    pub ptro: u32,
    pub tmpo: u32,
    pub strd: u32,
}

impl BTKS {
    /// Works out the size fields, and finds out whether the container can
    /// be written at all.
    #[verifier::loop_isolation(false)]
    #[verifier::rlimit(50)]
    pub fn measure(&self) -> (sizes: Result<Sizes, ContainerError>)
        ensures
            match sizes {
                Ok(sizes) => {
                    &&& self@.fits()
                    &&& sizes.total == self@.total_size()
                    &&& sizes.sections == self@.section_count()
                    &&& sizes.flow == self@.flow_size()
                    &&& sizes.ptro == self@.ptro_size()
                    &&& sizes.tmpo == self@.tmpo_size()
                    &&& sizes.strd == self@.strd_size()
                },
                Err(e) => !self@.fits() && e == ContainerError::TooLarge,
            },
    {
        let limit: u64 = u32::MAX as u64;
        let mut sections: u32 = 2;
        proof {
            if let Some(tempos) = self@.tmpo {
                lemma_stretch_count_grows(tempos, 0, tempos.len() as int);
            }
        }
        if self.flow.data.len() as u64 > limit || self.strd.len() as u64 > limit {
            return Err(ContainerError::TooLarge);
        }
        let flow: u64 = FLOW_HEADER as u64 + self.flow.data.len() as u64;
        let strd: u64 = STRD_HEADER as u64 + self.strd.len() as u64;
        let mut ptro: u64 = 0;
        if let Some(pointers) = &self.ptro {
            sections += 1;
            if pointers.len() as u64 > limit {
                return Err(ContainerError::TooLarge);
            }
            ptro = PTRO_HEADER as u64 + 5 * (pointers.len() as u64);
            let mut i: usize = 0;
            while i < pointers.len()
                invariant
                    i <= pointers.len(),
                    forall|k: int| 0 <= k < i ==> (#[trigger] pointers@[k]).at <= u32::MAX,
                decreases pointers.len() - i,
            {
                if pointers[i].at as u64 > limit {
                    return Err(ContainerError::TooLarge);
                }
                i += 1;
            }
        }
        let mut tmpo: u64 = 0;
        if let Some(tempos) = &self.tmpo {
            sections += 1;
            if tempos.len() as u64 > limit {
                return Err(ContainerError::TooLarge);
            }
            tmpo = TMPO_HEADER as u64 + TRACK_HEADER as u64 * (tempos.len() as u64);
            let ghost tracks = tempos.deep_view();
            let mut i: usize = 0;
            while i < tempos.len()
                invariant
                    i <= tempos.len() <= u32::MAX,
                    tmpo == TMPO_HEADER + TRACK_HEADER * tempos.len() + STRETCH_SIZE
                        * stretch_count(tracks, i as int),
                    tmpo <= 0x10_0000_0000,
                decreases tempos.len() - i,
            {
                proof {
                    lemma_stretch_count_grows(tracks, i as int + 1, tempos.len() as int);
                    lemma_stretch_count_grows(tracks, i as int, i as int);
                }
                if tempos[i].data.len() as u64 > limit {
                    return Err(ContainerError::TooLarge);
                }
                tmpo = tmpo + STRETCH_SIZE as u64 * (tempos[i].data.len() as u64);
                if tmpo > limit {
                    return Err(ContainerError::TooLarge);
                }
                i += 1;
            }
        }
        let total: u64 = HEADER_SIZE as u64 + flow + ptro + tmpo + strd;
        if total > limit {
            return Err(ContainerError::TooLarge);
        }
        Ok(
            Sizes {
                total: total as u32,
                sections,
                flow: flow as u32,
                ptro: ptro as u32,
                tmpo: tmpo as u32,
                strd: strd as u32,
            },
        )
    }

    /// Appends the FLOW section.
    #[verifier::rlimit(50)]
    fn write_flow(&self, f: &mut Vec<u8>, size: u32, endian: ByteOrder)
        requires
            size == self@.flow_size(),
        ensures
            final(f)@ == old(f)@ + self@.flow_bytes(endian),
    {
        write_magic(f, 0x46, 0x4C, 0x4F, 0x57);
        write_u32(f, size, endian);
        write_u32(f, self.flow.start_offset, endian);
        let mut code = slice_to_vec(self.flow.data.as_slice());
        f.append(&mut code);
        assert(f@ =~= old(f)@ + self@.flow_bytes(endian));
    }

    /// Appends the PTRO section, if there is a pointer table.
    #[verifier::rlimit(50)]
    fn write_ptro(&self, f: &mut Vec<u8>, size: u32, endian: ByteOrder)
        requires
            size == self@.ptro_size(),
        ensures
            final(f)@ == old(f)@ + self@.ptro_bytes(endian),
    {
        if let Some(c) = &self.ptro {
            write_magic(f, 0x50, 0x54, 0x52, 0x4F);
            write_u32(f, size, endian);
            write_u32(f, c.len() as u32, endian);
            let ghost head = f@;
            let mut i: usize = 0;
            assert(f@ =~= head + pointer_records(c@, endian, 0));
            while i < c.len()
                invariant
                    i <= c.len(),
                    f@ == head + pointer_records(c@, endian, i as int),
                decreases c.len() - i,
            {
                let record = c[i].as_ptro(endian);
                let mut k: usize = 0;
                let ghost so_far = f@;
                assert(f@ =~= so_far + record@.take(0));
                while k < 5
                    invariant
                        k <= 5,
                        f@ == so_far + record@.take(k as int),
                    decreases 5 - k,
                {
                    f.push(record[k]);
                    assert(f@ =~= so_far + record@.take(k + 1));
                    k += 1;
                }
                assert(record@.take(5) =~= record@);
                assert(f@ =~= head + pointer_records(c@, endian, i + 1));
                i += 1;
            }
            assert(f@ =~= old(f)@ + self@.ptro_bytes(endian));
        } else {
            assert(f@ =~= old(f)@ + self@.ptro_bytes(endian));
        }
    }

    /// Appends the TMPO section, if there is a tempo table.
    #[verifier::rlimit(50)]
    fn write_tmpo(&self, f: &mut Vec<u8>, size: u32, endian: ByteOrder)
        requires
            size == self@.tmpo_size(),
            self@.fits(),
        ensures
            final(f)@ == old(f)@ + self@.tmpo_bytes(endian),
    {
        if let Some(c) = &self.tmpo {
            write_magic(f, 0x54, 0x4D, 0x50, 0x4F);
            write_u32(f, size, endian);
            write_u32(f, c.len() as u32, endian);
            let ghost head = f@;
            let ghost tracks = c.deep_view();
            let mut i: usize = 0;
            assert(f@ =~= head + tempos_bytes(tracks, endian, 0));
            while i < c.len()
                invariant
                    i <= c.len(),
                    tracks == c.deep_view(),
                    self.tmpo == Some(*c),
                    self@.fits(),
                    f@ == head + tempos_bytes(tracks, endian, i as int),
                decreases c.len() - i,
            {
                proof {
                    lemma_stretch_count_grows(tracks, i as int + 1, c.len() as int);
                    lemma_stretch_count_grows(tracks, i as int, i as int);
                }
                c[i].write_to(f, endian);
                assert(f@ =~= head + tempos_bytes(tracks, endian, i + 1));
                i += 1;
            }
            assert(f@ =~= old(f)@ + self@.tmpo_bytes(endian));
        } else {
            assert(f@ =~= old(f)@ + self@.tmpo_bytes(endian));
        }
    }

    /// Appends the STRD section.
    #[verifier::rlimit(50)]
    fn write_strd(&self, f: &mut Vec<u8>, size: u32, endian: ByteOrder)
        requires
            size == self@.strd_size(),
        ensures
            final(f)@ == old(f)@ + self@.strd_bytes(endian),
    {
        write_magic(f, 0x53, 0x54, 0x52, 0x44);
        write_u32(f, size, endian);
        let mut data = slice_to_vec(self.strd.as_slice());
        f.append(&mut data);
        assert(f@ =~= old(f)@ + self@.strd_bytes(endian));
    }

    /// The bytes of the container as a file: the header, and the sections
    /// FLOW, PTRO, TMPO and STRD in this order, of which PTRO and TMPO are
    /// left out where the container has none. The header holds the size of
    /// the file, which is the number of the bytes, and the number of its
    /// sections. Every number is written in the given byte order.
    #[verifier::rlimit(50)]
    pub fn to_btks_file(&self, endian: ByteOrder) -> (file: Result<Vec<u8>, ContainerError>)
        ensures
            match file {
                Ok(bytes) => self@.fits() && bytes@ == self@.file_bytes(endian) && bytes@.len()
                    == self@.total_size(),
                Err(e) => !self@.fits() && e == ContainerError::TooLarge,
            },
    {
        let sizes = match self.measure() {
            Ok(sizes) => sizes,
            Err(e) => {
                return Err(e);
            },
        };
        let mut f: Vec<u8> = Vec::new();
        write_magic(&mut f, 0x42, 0x54, 0x4B, 0x53);
        write_u32(&mut f, sizes.total, endian);
        write_u32(&mut f, REVISION, endian);
        write_u32(&mut f, HEADER_SIZE, endian);
        write_u32(&mut f, sizes.sections, endian);
        write_i32(&mut f, self.btks_type.id(), endian);
        assert(f@ =~= self@.header_bytes(endian));
        self.write_flow(&mut f, sizes.flow, endian);
        self.write_ptro(&mut f, sizes.ptro, endian);
        self.write_tmpo(&mut f, sizes.tmpo, endian);
        self.write_strd(&mut f, sizes.strd, endian);
        proof {
            lemma_size_accounting(self@, endian);
        }
        Ok(f)
    }
}

/// The stretches of a tempo track take twelve bytes each.
#[verifier::rlimit(50)]
pub proof fn lemma_stretches_len(values: Seq<TempoVal>, order: ByteOrder, upto: int)
    requires
        0 <= upto,
    ensures
        stretches_bytes(values, order, upto).len() == STRETCH_SIZE * upto,
    decreases upto,
{
    if upto > 0 {
        lemma_stretches_len(values, order, upto - 1);
        lemma_u32_bytes_round_trip(values[upto - 1].beats, order);
        lemma_u32_bytes_round_trip(values[upto - 1].time, order);
        lemma_u32_bytes_round_trip(values[upto - 1].loop_val, order);
    }
}

/// Tempo tracks take twelve bytes each, and twelve for each of their
/// stretches.
#[verifier::rlimit(50)]
pub proof fn lemma_tempos_len(tempos: Seq<TempoTrack>, order: ByteOrder, upto: int)
    requires
        0 <= upto,
    ensures
        tempos_bytes(tempos, order, upto).len() == TRACK_HEADER * upto + STRETCH_SIZE
            * stretch_count(tempos, upto),
    decreases upto,
{
    if upto > 0 {
        lemma_tempos_len(tempos, order, upto - 1);
        let tempo = tempos[upto - 1];
        lemma_stretches_len(tempo.data, order, tempo.data.len() as int);
        lemma_u32_bytes_round_trip(tempo.id, order);
        lemma_u32_bytes_round_trip(tempo.data.len() as u32, order);
        lemma_u32_bytes_round_trip(0, order);
        lemma_u32_bytes_round_trip(1, order);
    }
}

/// The records of pointers take five bytes each.
pub proof fn lemma_pointer_records_len(pointers: Seq<Pointer>, order: ByteOrder, upto: int)
    requires
        0 <= upto,
    ensures
        pointer_records(pointers, order, upto).len() == 5 * upto,
    decreases upto,
{
    if upto > 0 {
        lemma_pointer_records_len(pointers, order, upto - 1);
    }
}

/// A part of a sequence of bytes that stands between two others is found
/// behind the first.
pub proof fn lemma_part_between(before: Seq<u8>, part: Seq<u8>, after: Seq<u8>)
    ensures
        (before + part + after).subrange(
            before.len() as int,
            (before.len() + part.len()) as int,
        ) == part,
{
    assert((before + part + after).subrange(
        before.len() as int,
        (before.len() + part.len()) as int,
    ) =~= part);
}

/// A number that is written between two sequences of bytes is read back
/// behind the first.
pub proof fn lemma_field_between(before: Seq<u8>, value: u32, order: ByteOrder, after: Seq<u8>)
    ensures
        u32_of_bytes(
            (before + u32_bytes(value, order) + after).subrange(
                before.len() as int,
                (before.len() + 4) as int,
            ),
            order,
        ) == value,
{
    lemma_u32_bytes_round_trip(value, order);
    lemma_part_between(before, u32_bytes(value, order), after);
}

/// The size and count fields of the header hold the size and the number of
/// sections.
#[verifier::rlimit(50)]
pub proof fn lemma_header_fields(container: Container, order: ByteOrder)
    requires
        container.fits(),
    ensures
        container.header_bytes(order).len() == HEADER_SIZE,
        u32_of_bytes(container.header_bytes(order).subrange(4, 8), order)
            == container.total_size(),
        u32_of_bytes(container.header_bytes(order).subrange(16, 20), order)
            == container.section_count(),
{
    let total = u32_bytes(container.total_size() as u32, order);
    let revision = u32_bytes(REVISION, order);
    let size = u32_bytes(HEADER_SIZE, order);
    let count = u32_bytes(container.section_count() as u32, order);
    let tag = u32_bytes(i32_bits(container.btks_type.id_spec()), order);
    if let Some(tempos) = container.tmpo {
        lemma_stretch_count_grows(tempos, 0, tempos.len() as int);
    }
    lemma_u32_bytes_round_trip(container.total_size() as u32, order);
    lemma_u32_bytes_round_trip(REVISION, order);
    lemma_u32_bytes_round_trip(HEADER_SIZE, order);
    lemma_u32_bytes_round_trip(container.section_count() as u32, order);
    lemma_u32_bytes_round_trip(i32_bits(container.btks_type.id_spec()), order);
    let header = container.header_bytes(order);
    assert(header == file_magic() + total + revision + size + count + tag);
    lemma_field_between(file_magic(), container.total_size() as u32, order, revision + size + count + tag);
    assert(header =~= file_magic() + total + (revision + size + count + tag));
    lemma_field_between(
        file_magic() + total + revision + size,
        container.section_count() as u32,
        order,
        tag,
    );
}

/// Every section is as long as its size field says, and a size field
/// stands behind the four letters of its section.
#[verifier::rlimit(50)]
pub proof fn lemma_section_sizes(container: Container, order: ByteOrder)
    requires
        container.fits(),
    ensures
        container.flow_bytes(order).len() == container.flow_size(),
        container.ptro_bytes(order).len() == container.ptro_size(),
        container.tmpo_bytes(order).len() == container.tmpo_size(),
        container.strd_bytes(order).len() == container.strd_size(),
        u32_of_bytes(container.flow_bytes(order).subrange(4, 8), order) == container.flow_size(),
        container.tmpo is Some ==> u32_of_bytes(
            container.tmpo_bytes(order).subrange(4, 8),
            order,
        ) == container.tmpo_size(),
        container.ptro is Some ==> u32_of_bytes(
            container.ptro_bytes(order).subrange(4, 8),
            order,
        ) == container.ptro_size(),
        u32_of_bytes(container.strd_bytes(order).subrange(4, 8), order) == container.strd_size(),
{
    if let Some(tempos) = container.tmpo {
        lemma_stretch_count_grows(tempos, 0, tempos.len() as int);
        lemma_tempos_len(tempos, order, tempos.len() as int);
        lemma_u32_bytes_round_trip(container.tmpo_size() as u32, order);
        lemma_u32_bytes_round_trip(tempos.len() as u32, order);
        let tracks = tempos_bytes(tempos, order, tempos.len() as int);
        lemma_field_between(
            tmpo_magic(),
            container.tmpo_size() as u32,
            order,
            u32_bytes(tempos.len() as u32, order) + tracks,
        );
        assert(container.tmpo_bytes(order) =~= tmpo_magic() + u32_bytes(
            container.tmpo_size() as u32,
            order,
        ) + (u32_bytes(tempos.len() as u32, order) + tracks));
    }
    lemma_u32_bytes_round_trip(container.flow_size() as u32, order);
    lemma_u32_bytes_round_trip(container.strd_size() as u32, order);
    lemma_u32_bytes_round_trip(container.start_offset, order);
    lemma_field_between(
        flow_magic(),
        container.flow_size() as u32,
        order,
        u32_bytes(container.start_offset, order) + container.code,
    );
    assert(container.flow_bytes(order) =~= flow_magic() + u32_bytes(
        container.flow_size() as u32,
        order,
    ) + (u32_bytes(container.start_offset, order) + container.code));
    lemma_field_between(strd_magic(), container.strd_size() as u32, order, container.strd);
    if let Some(pointers) = container.ptro {
        lemma_pointer_records_len(pointers, order, pointers.len() as int);
        lemma_u32_bytes_round_trip(container.ptro_size() as u32, order);
        lemma_u32_bytes_round_trip(pointers.len() as u32, order);
        let records = pointer_records(pointers, order, pointers.len() as int);
        lemma_field_between(
            ptro_magic(),
            container.ptro_size() as u32,
            order,
            u32_bytes(pointers.len() as u32, order) + records,
        );
        assert(container.ptro_bytes(order) =~= ptro_magic() + u32_bytes(
            container.ptro_size() as u32,
            order,
        ) + (u32_bytes(pointers.len() as u32, order) + records));
    }
}

/// The front of the first of five sequences of bytes is the front of the
/// five put together, and their lengths add up.
pub proof fn lemma_front_of_five(
    first: Seq<u8>,
    second: Seq<u8>,
    third: Seq<u8>,
    fourth: Seq<u8>,
    fifth: Seq<u8>,
    from: int,
    to: int,
)
    requires
        0 <= from <= to <= first.len(),
    ensures
        (first + second + third + fourth + fifth).subrange(from, to) == first.subrange(from, to),
        (first + second + third + fourth + fifth).len() == first.len() + second.len()
            + third.len() + fourth.len() + fifth.len(),
{
    assert((first + second + third + fourth + fifth).subrange(from, to) =~= first.subrange(
        from,
        to,
    ));
}

/// Container size accounting: in the file of a container that can be
/// written, the size field of the header holds the size of the header and
/// the size fields of the sections that are there, added up, and the count
/// field holds two, for FLOW and STRD, and one more for each of PTRO and
/// TMPO that is there. Every section is as long as its size field says, so
/// that the size field of the header is the length of the file.
#[verifier::rlimit(50)]
pub proof fn lemma_size_accounting(container: Container, order: ByteOrder)
    requires
        container.fits(),
    ensures
        ({
            let file = container.file_bytes(order);
            &&& file.len() >= HEADER_SIZE
            &&& u32_of_bytes(file.subrange(4, 8), order) == HEADER_SIZE + container.flow_size()
                + container.ptro_size() + container.tmpo_size() + container.strd_size()
            &&& u32_of_bytes(file.subrange(16, 20), order) == 2 + if container.ptro is Some {
                1int
            } else {
                0int
            } + if container.tmpo is Some {
                1int
            } else {
                0int
            }
            &&& container.flow_bytes(order).len() == container.flow_size()
            &&& container.ptro_bytes(order).len() == container.ptro_size()
            &&& container.tmpo_bytes(order).len() == container.tmpo_size()
            &&& container.strd_bytes(order).len() == container.strd_size()
            &&& file.len() == container.total_size()
        }),
{
    lemma_header_fields(container, order);
    lemma_section_sizes(container, order);
    let header = container.header_bytes(order);
    let flow = container.flow_bytes(order);
    let ptro = container.ptro_bytes(order);
    let tmpo = container.tmpo_bytes(order);
    let strd = container.strd_bytes(order);
    lemma_front_of_five(header, flow, ptro, tmpo, strd, 4, 8);
    lemma_front_of_five(header, flow, ptro, tmpo, strd, 16, 20);
}

/// The instructions that code holds from `pos` on, read with no scene, if
/// the code ends with the last of them.
pub open spec fn instructions_from(code: Seq<u8>, pos: int, order: ByteOrder) -> Option<Seq<RawOp>>
    decreases code.len() - pos,
{
    if pos == code.len() {
        Some(Seq::empty())
    } else {
        match decode_at(Image::flat(code), pos, NO_SCENE, order) {
            None => None,
            Some(decoded) => {
                proof {
                    crate::extract::model::lemma_decode_bounds(
                        Image::flat(code),
                        pos,
                        NO_SCENE,
                        order,
                    );
                }
                match instructions_from(code, pos + decoded.size(), order) {
                    None => None,
                    Some(rest) => Some(seq![decoded.op] + rest),
                }
            },
        }
    }
}

impl BTKS {
    /// The instructions of the code, one after the other, with every
    /// argument taken as a plain number. Fails where the code ends in the
    /// middle of an instruction.
    #[verifier::loop_isolation(false)]
    #[verifier::rlimit(50)]
    pub fn to_raw_tickflow_ops(&self, endian: ByteOrder) -> (ops: Result<
        Vec<TickflowOp>,
        StreamError,
    >)
        ensures
            match ops {
                Ok(ops) => instructions_from(self.flow.data@, 0, endian) matches Some(raw)
                    && ops@.len() == raw.len() && forall|i: int|
                    0 <= i < raw.len() ==> (#[trigger] ops@[i]).is_raw(raw[i]),
                Err(e) => instructions_from(self.flow.data@, 0, endian) is None && e
                    == StreamError::UnexpectedEof,
            },
    {
        let code = slice_to_vec(self.flow.data.as_slice());
        let len = code.len();
        let mut data = MemoryStream::new(code);
        let ghost image = Image::flat(self.flow.data@);
        let ghost goal = instructions_from(self.flow.data@, 0, endian);
        let ghost mut raw: Seq<RawOp> = Seq::empty();
        let mut ops: Vec<TickflowOp> = Vec::new();
        while data.stream_position() != len as u64
            invariant
                data.inv(),
                data.image() == image,
                0 <= data.position() <= len,
                ops@.len() == raw.len(),
                forall|i: int| 0 <= i < raw.len() ==> (#[trigger] ops@[i]).is_raw(raw[i]),
                goal == match instructions_from(self.flow.data@, data.position(), endian) {
                    Some(rest) => Some(raw + rest),
                    None => None,
                },
            decreases len - data.position(),
        {
            let ghost pos = data.position();
            proof {
                crate::extract::model::lemma_decode_bounds(image, pos, NO_SCENE, endian);
            }
            let raw_op = match binary_to_raw_tf_op(&mut data, NO_SCENE, endian) {
                Ok(read) => read.1,
                Err(e) => {
                    return Err(e);
                },
            };
            let ghost one = raw_op@;
            ops.push(TickflowOp::from_raw(raw_op));
            proof {
                if let Some(rest) = instructions_from(self.flow.data@, data.position(), endian) {
                    assert(raw + (seq![one] + rest) =~= raw.push(one) + rest);
                }
                raw = raw.push(one);
            }
        }
        assert(raw + Seq::<RawOp>::empty() =~= raw);
        Ok(ops)
    }
}

/// What a container holds is found in its file: the code stands behind the
/// header of the file and that of the FLOW section, the records of the
/// pointers behind the header of the PTRO section, which follows the code,
/// and the data pool at the end of the file.
#[verifier::rlimit(50)]
pub proof fn lemma_payloads_in_file(container: Container, order: ByteOrder)
    requires
        container.fits(),
    ensures
        ({
            let file = container.file_bytes(order);
            let code_at = HEADER_SIZE + FLOW_HEADER;
            let records_at = code_at + container.code.len() + PTRO_HEADER;
            &&& file.subrange(code_at, code_at + container.code.len()) == container.code
            &&& file.subrange(file.len() - container.strd.len(), file.len() as int)
                == container.strd
            &&& container.ptro matches Some(pointers) ==> file.subrange(
                records_at,
                records_at + 5 * pointers.len(),
            ) == pointer_records(pointers, order, pointers.len() as int)
        }),
{
    lemma_header_fields(container, order);
    lemma_section_sizes(container, order);
    let header = container.header_bytes(order);
    let flow = container.flow_bytes(order);
    let ptro = container.ptro_bytes(order);
    let tmpo = container.tmpo_bytes(order);
    let strd = container.strd_bytes(order);
    let file = container.file_bytes(order);
    lemma_front_of_five(header, flow, ptro, tmpo, strd, 0, 0);
    lemma_u32_bytes_round_trip(container.flow_size() as u32, order);
    lemma_u32_bytes_round_trip(container.start_offset, order);
    lemma_u32_bytes_round_trip(container.strd_size() as u32, order);
    assert(flow.subrange(FLOW_HEADER as int, flow.len() as int) =~= container.code);
    assert(strd.subrange(STRD_HEADER as int, strd.len() as int) =~= container.strd);
    assert(file =~= header + flow + (ptro + tmpo + strd));
    assert(file.subrange(
        HEADER_SIZE + FLOW_HEADER,
        HEADER_SIZE + FLOW_HEADER + container.code.len(),
    ) =~= flow.subrange(FLOW_HEADER as int, flow.len() as int));
    assert(file.subrange(file.len() - container.strd.len(), file.len() as int)
        =~= strd.subrange(STRD_HEADER as int, strd.len() as int));
    if let Some(pointers) = container.ptro {
        lemma_pointer_records_len(pointers, order, pointers.len() as int);
        lemma_u32_bytes_round_trip(container.ptro_size() as u32, order);
        lemma_u32_bytes_round_trip(pointers.len() as u32, order);
        let records = pointer_records(pointers, order, pointers.len() as int);
        let records_at = HEADER_SIZE + FLOW_HEADER + container.code.len() + PTRO_HEADER;
        assert(ptro.subrange(PTRO_HEADER as int, ptro.len() as int) =~= records);
        assert(file.subrange(records_at, records_at + 5 * pointers.len()) =~= ptro.subrange(
            PTRO_HEADER as int,
            ptro.len() as int,
        ));
    }
}

} // verus!
