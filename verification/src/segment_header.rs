//! The table of segment records and the reading of one segment's music.

use vstd::prelude::*;
use crate::channel::{channel_instructions, decode_channel};
use crate::error::{DecodeError, RomRegion};
use crate::song::{Segment, SegmentView};
use crate::tables::{decode_tempo, tempo_lookup};

verus! {

/// The number of bytes of one segment record.
pub const SEGMENT_RECORD_SIZE: usize = 7;

/// The number of records in the segment table.
pub const SEGMENT_HEADER_COUNT: usize = 37;

/// The number of bytes of the whole segment table.
pub const SEGMENT_TABLE_SIZE: usize = 259;

/// One record of the segment table.
#[derive(Clone, Copy, Debug, PartialEq, Eq, Structural)]
pub struct SegmentHeader {
    /// The tempo code.
    pub tempo: u8,
    /// Where the segment's music starts, before the channel memory offset is
    /// added.
    pub address: u16,
    pub triangle_offset: u8,
    pub square1_offset: u8,
    pub noise_offset: u8,
    pub dcm_offset: u8,
}

/// The header that a seven-byte record holds. The address is stored low byte
/// first, in the second and third byte.
pub open spec fn header_of_record(record: Seq<u8>) -> SegmentHeader
    recommends
        record.len() == SEGMENT_RECORD_SIZE,
{
    SegmentHeader {
        tempo: record[0],
        address: (record[2] * 256 + record[1]) as u16,
        triangle_offset: record[3],
        square1_offset: record[4],
        noise_offset: record[5],
        dcm_offset: record[6],
    }
}

/// The segment table that starts at `base`: its records in order, if all of
/// them lie inside the image.
pub open spec fn segment_headers_at(rom: Seq<u8>, base: int) -> Result<
    Seq<SegmentHeader>,
    DecodeError,
> {
    if 0 <= base && base + SEGMENT_TABLE_SIZE <= rom.len() {
        Ok(
            Seq::new(
                SEGMENT_HEADER_COUNT as nat,
                |i: int|
                    header_of_record(
                        rom.subrange(
                            base + SEGMENT_RECORD_SIZE * i,
                            base + SEGMENT_RECORD_SIZE * i + SEGMENT_RECORD_SIZE,
                        ),
                    ),
            ),
        )
    } else {
        Err(DecodeError::BufferUnderrun { region: RomRegion::SegmentHeaders })
    }
}

/// The position of the first zero byte at or after `from`, or the length of
/// the image if there is none.
pub open spec fn first_zero(rom: Seq<u8>, from: int) -> int
    decreases rom.len() - from,
{
    if from < 0 || from >= rom.len() {
        rom.len() as int
    } else if rom[from] == 0 {
        from
    } else {
        first_zero(rom, from + 1)
    }
}

/// The bytes of the channel stream that starts at `start`: everything up to
/// and including the first zero byte. There is no stream if the image ends
/// before a zero byte is met.
pub open spec fn channel_bytes(rom: Seq<u8>, start: int) -> Option<Seq<u8>> {
    let end = first_zero(rom, start);
    if 0 <= start && end < rom.len() {
        Some(rom.subrange(start, end + 1))
    } else {
        None
    }
}

/// `first_zero` finds a zero byte, and none lies before it.
pub proof fn lemma_first_zero(rom: Seq<u8>, from: int)
    requires
        0 <= from <= rom.len(),
    ensures
        from <= first_zero(rom, from) <= rom.len(),
        first_zero(rom, from) < rom.len() ==> rom[first_zero(rom, from)] == 0,
        forall|k: int| from <= k < first_zero(rom, from) ==> rom[k] != 0,
    decreases rom.len() - from,
{
    if from < rom.len() && rom[from] != 0 {
        lemma_first_zero(rom, from + 1);
    }
}

/// A position that no zero byte precedes, and that holds one or ends the
/// image, is what `first_zero` finds.
pub proof fn lemma_first_zero_is(rom: Seq<u8>, from: int, at: int)
    requires
        0 <= from <= at <= rom.len(),
        forall|k: int| from <= k < at ==> rom[k] != 0,
        at < rom.len() ==> rom[at] == 0,
    ensures
        first_zero(rom, from) == at,
    decreases at - from,
{
    if from < at {
        lemma_first_zero_is(rom, from + 1, at);
    }
}

/// A channel stream lies inside the image, ends with its only zero byte and
/// is never empty.
pub proof fn lemma_channel_bytes(rom: Seq<u8>, start: int)
    requires
        channel_bytes(rom, start) is Some,
    ensures
        ({
            let bytes = channel_bytes(rom, start)->Some_0;
            &&& bytes.len() >= 1
            &&& start + bytes.len() <= rom.len()
            &&& bytes == rom.subrange(start, start + bytes.len())
            &&& bytes.last() == 0
            &&& forall|k: int| 0 <= k < bytes.len() - 1 ==> bytes[k] != 0
        }),
{
    lemma_first_zero(rom, start);
}

impl SegmentHeader {
    /// The segment that this header leads to. The stream of the second square
    /// channel starts at the header's address plus `memory_offset` and runs
    /// up to its first zero byte; the other channels stay empty. The stream
    /// is looked for first, then the tempo, then the stream's instructions.
    pub open spec fn segment(self, rom: Seq<u8>, memory_offset: int) -> Result<
        SegmentView,
        DecodeError,
    > {
        match channel_bytes(rom, self.address + memory_offset) {
            None => Err(DecodeError::BufferUnderrun { region: RomRegion::ChannelData }),
            Some(bytes) => match tempo_lookup(self.tempo) {
                Err(e) => Err(e),
                Ok(tempo) => match channel_instructions(bytes) {
                    Err(e) => Err(e),
                    Ok(square2) => Ok(SegmentView::melody(tempo, square2)),
                },
            },
        }
    }

    /// Reads a header from its seven-byte record. The address is
    /// `(data[2] << 8) | data[1]`.
    pub fn new(data: [u8; 7]) -> (header: SegmentHeader)
        ensures
            header == header_of_record(data@),
            header.tempo == data[0],
            header.address == ((data[2] as u16) << 8) | (data[1] as u16),
            header.address == data[2] * 256 + data[1],
            header.triangle_offset == data[3],
            header.square1_offset == data[4],
            header.noise_offset == data[5],
            header.dcm_offset == data[6],
    {
        let low: u16 = data[1] as u16;
        let high: u16 = data[2] as u16;
        let address: u16 = (high << 8) | low;
        assert(address == high * 256 + low) by (bit_vector)
            requires
                address == (high << 8) | low,
                high < 256,
                low < 256,
        ;
        SegmentHeader {
            tempo: data[0],
            address,
            triangle_offset: data[3],
            square1_offset: data[4],
            noise_offset: data[5],
            dcm_offset: data[6],
        }
    }

    /// Loads the segment table that starts at `segment_headers_index`.
    ///
    /// Fails exactly if the table does not lie inside the image.
    pub fn load(rom: &Vec<u8>, segment_headers_index: usize) -> (r: Result<
        Vec<SegmentHeader>,
        DecodeError,
    >)
        ensures
            match r {
                Ok(headers) => segment_headers_at(rom@, segment_headers_index as int) == Ok::<
                    Seq<SegmentHeader>,
                    DecodeError,
                >(headers@),
                Err(e) => segment_headers_at(rom@, segment_headers_index as int) == Err::<
                    Seq<SegmentHeader>,
                    DecodeError,
                >(e),
            },
            r is Ok <==> segment_headers_index + SEGMENT_TABLE_SIZE <= rom@.len(),
            r matches Ok(headers) ==> headers@.len() == SEGMENT_HEADER_COUNT,
    {
        let len: usize = rom.len();
        if len < SEGMENT_TABLE_SIZE || segment_headers_index > len - SEGMENT_TABLE_SIZE {
            return Err(DecodeError::BufferUnderrun { region: RomRegion::SegmentHeaders });
        }
        let ghost expected = segment_headers_at(rom@, segment_headers_index as int)->Ok_0;
        let mut headers: Vec<SegmentHeader> = Vec::new();
        let mut i: usize = 0;
        while i < SEGMENT_HEADER_COUNT
            invariant
                i <= SEGMENT_HEADER_COUNT,
                segment_headers_index + SEGMENT_TABLE_SIZE <= rom@.len() == len,
                segment_headers_at(rom@, segment_headers_index as int) == Ok::<
                    Seq<SegmentHeader>,
                    DecodeError,
                >(expected),
                headers@ == expected.take(i as int),
            decreases SEGMENT_HEADER_COUNT - i,
        {
            let start: usize = segment_headers_index + i * SEGMENT_RECORD_SIZE;
            let data: [u8; 7] = [
                rom[start],
                rom[start + 1],
                rom[start + 2],
                rom[start + 3],
                rom[start + 4],
                rom[start + 5],
                rom[start + 6],
            ];
            let header = SegmentHeader::new(data);
            proof {
                let record = rom@.subrange(start as int, start + SEGMENT_RECORD_SIZE);
                assert(data@ =~= record);
                assert(expected[i as int] == header_of_record(record));
                assert(expected.take(i + 1) =~= expected.take(i as int).push(header));
            }
            headers.push(header);
            i += 1;
        }
        proof {
            assert(expected.take(i as int) =~= expected);
        }
        Ok(headers)
    }

    /// Reads the segment that this header leads to.
    ///
    /// The stream is read from the header's address plus
    /// `segment_memory_offset` up to and including the first zero byte. A
    /// stream that leaves the image is a buffer underrun; after that an
    /// unknown tempo code is reported, and after that the first byte of the
    /// stream that stands for no instruction.
    pub fn to_segment(&self, rom: &Vec<u8>, segment_memory_offset: usize) -> (r: Result<
        Segment,
        DecodeError,
    >)
        ensures
            match r {
                Ok(segment) => self.segment(rom@, segment_memory_offset as int) == Ok::<
                    SegmentView,
                    DecodeError,
                >(segment@),
                Err(e) => self.segment(rom@, segment_memory_offset as int) == Err::<
                    SegmentView,
                    DecodeError,
                >(e),
            },
    {
        let underrun = DecodeError::BufferUnderrun { region: RomRegion::ChannelData };
        let len: usize = rom.len();
        let start: usize = match (self.address as usize).checked_add(segment_memory_offset) {
            Some(start) => start,
            None => {
                return Err(underrun);
            },
        };
        let mut square2_data: Vec<u8> = Vec::new();
        let mut i: usize = start;
        while i < len
            invariant
                len == rom@.len(),
                start == self.address + segment_memory_offset,
                start <= i,
                i <= rom@.len() || i == start,
                i <= rom@.len() ==> square2_data@ == rom@.subrange(start as int, i as int),
                forall|k: int| start <= k < i ==> rom@[k] != 0,
            decreases rom@.len() - i,
        {
            let d: u8 = rom[i];
            square2_data.push(d);
            proof {
                assert(square2_data@ =~= rom@.subrange(start as int, i + 1));
            }
            if d == 0 {
                proof {
                    lemma_first_zero_is(rom@, start as int, i as int);
                }
                let tempo = match decode_tempo(self.tempo) {
                    Ok(tempo) => tempo,
                    Err(e) => {
                        return Err(e);
                    },
                };
                let square2 = match decode_channel(square2_data.as_slice()) {
                    Ok(square2) => square2,
                    Err(e) => {
                        return Err(e);
                    },
                };
                return Ok(
                    Segment {
                        tempo,
                        square2,
                        square1: Vec::new(),
                        triangle: Vec::new(),
                        noise: Vec::new(),
                        dcm: Vec::new(),
                    },
                );
            }
            i += 1;
        }
        proof {
            if start <= rom@.len() {
                lemma_first_zero_is(rom@, start as int, rom@.len() as int);
            }
        }
        Err(underrun)
    }
}

/// The address of a record `[tempo, low, high, ..]` is `(high << 8) | low`.
pub proof fn lemma_address_is_high_then_low(record: Seq<u8>)
    requires
        record.len() == SEGMENT_RECORD_SIZE,
    ensures
        header_of_record(record).address == ((record[2] as u16) << 8) | (record[1] as u16),
{
    let low: u16 = record[1] as u16;
    let high: u16 = record[2] as u16;
    assert((high << 8) | low == high * 256 + low) by (bit_vector)
        requires
            high < 256,
            low < 256,
    ;
}

} // verus!
