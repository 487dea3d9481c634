//! The table of song records and the assembly of one song from its segments.

use vstd::prelude::*;
use crate::error::{DecodeError, RomRegion};
use crate::segment_header::{segment_headers_at, SegmentHeader, SEGMENT_HEADER_COUNT};
use crate::song::{segment_views, Segment, SegmentView, Song, SongView};

verus! {

/// The number of songs in the song table.
pub const SONG_HEADER_COUNT: usize = 12;

/// The number of bytes of the song table: three arrays of one byte per song.
pub const SONG_TABLE_SIZE: usize = 36;

/// The number of bytes of the table that maps song positions to segment
/// records. It ends where the segment table starts.
pub const SONG_INDEX_SIZE: usize = 45;

/// One record of the song table. Its three fields are positions in the song
/// index, not numbers of segments.
#[derive(Clone, Copy, Debug, PartialEq, Eq, Structural)]
pub struct SongHeader {
    /// The position of the song's first segment.
    pub start_index: u8,
    /// The position of the song's last segment.
    pub end_index: u8,
    /// The position that names the segment to repeat from.
    pub loop_index: u8,
}

/// The song table that starts at `base`: an array of start positions, then
/// one of end positions, then one of loop positions, if all three lie inside
/// the image.
pub open spec fn song_headers_at(rom: Seq<u8>, base: int) -> Result<Seq<SongHeader>, DecodeError> {
    if 0 <= base && base + SONG_TABLE_SIZE <= rom.len() {
        Ok(
            Seq::new(
                SONG_HEADER_COUNT as nat,
                |i: int|
                    SongHeader {
                        start_index: rom[base + i],
                        end_index: rom[base + SONG_HEADER_COUNT + i],
                        loop_index: rom[base + 2 * SONG_HEADER_COUNT + i],
                    },
            ),
        )
    } else {
        Err(DecodeError::BufferUnderrun { region: RomRegion::SongHeaders })
    }
}

/// The number of the segment record that a byte of the song index names: the
/// byte is the record's offset in the segment table.
pub open spec fn record_of_entry(entry: u8) -> int {
    entry as int / 7
}

/// Every byte names a record of a table of 37: the largest, 255, names the
/// last one. A shorter segment table would leave some entries without a
/// record, which is why `segment_at` asks.
pub proof fn lemma_every_entry_names_a_record(entry: u8)
    ensures
        0 <= record_of_entry(entry) < SEGMENT_HEADER_COUNT,
{
}

/// The segment at one position of the song index. The position must lie in
/// the index and its entry must name a record of the segment table; then the
/// segment is what that record leads to.
pub open spec fn segment_at(
    position: int,
    song_index: Seq<u8>,
    headers: Seq<SegmentHeader>,
    rom: Seq<u8>,
    memory_offset: int,
) -> Result<SegmentView, DecodeError> {
    if position >= song_index.len() {
        Err(
            DecodeError::IndexOutOfRange {
                region: RomRegion::SongIndex,
                index: position as usize,
                len: song_index.len() as usize,
            },
        )
    } else if record_of_entry(song_index[position]) >= headers.len() {
        Err(
            DecodeError::IndexOutOfRange {
                region: RomRegion::SegmentHeaders,
                index: record_of_entry(song_index[position]) as usize,
                len: headers.len() as usize,
            },
        )
    } else {
        headers[record_of_entry(song_index[position])].segment(rom, memory_offset)
    }
}

/// The segments at `count` positions in a row, from `first` on. The first
/// position that yields no segment decides the failure.
pub open spec fn segments_from(
    first: int,
    count: nat,
    song_index: Seq<u8>,
    headers: Seq<SegmentHeader>,
    rom: Seq<u8>,
    memory_offset: int,
) -> Result<Seq<SegmentView>, DecodeError>
    decreases count,
{
    if count == 0 {
        Ok(Seq::empty())
    } else {
        match segments_from(first, (count - 1) as nat, song_index, headers, rom, memory_offset) {
            Err(e) => Err(e),
            Ok(before) => match segment_at(
                first + count - 1,
                song_index,
                headers,
                rom,
                memory_offset,
            ) {
                Ok(segment) => Ok(before.push(segment)),
                Err(e) => Err(e),
            },
        }
    }
}

/// A run of positions yields one segment per position, and fails with what
/// its first failing position fails with.
pub proof fn lemma_segments_from(
    first: int,
    count: nat,
    song_index: Seq<u8>,
    headers: Seq<SegmentHeader>,
    rom: Seq<u8>,
    memory_offset: int,
)
    ensures
        match segments_from(first, count, song_index, headers, rom, memory_offset) {
            Ok(segments) => {
                &&& segments.len() == count
                &&& forall|i: int|
                    0 <= i < count ==> #[trigger] segment_at(
                        first + i,
                        song_index,
                        headers,
                        rom,
                        memory_offset,
                    ) == Ok::<SegmentView, DecodeError>(segments[i])
            },
            Err(e) => exists|i: int|
                {
                    &&& 0 <= i < count
                    &&& #[trigger] segment_at(first + i, song_index, headers, rom, memory_offset)
                        == Err::<SegmentView, DecodeError>(e)
                    &&& forall|j: int|
                        0 <= j < i ==> #[trigger] segment_at(
                            first + j,
                            song_index,
                            headers,
                            rom,
                            memory_offset,
                        ) is Ok
                },
        },
    decreases count,
{
    if count > 0 {
        let shorter = (count - 1) as nat;
        lemma_segments_from(first, shorter, song_index, headers, rom, memory_offset);
        match segments_from(first, shorter, song_index, headers, rom, memory_offset) {
            Err(e) => {},
            Ok(before) => {
                match segment_at(first + shorter, song_index, headers, rom, memory_offset) {
                    Ok(segment) => {},
                    Err(e) => {
                        assert(segment_at(first + shorter, song_index, headers, rom, memory_offset)
                            == Err::<SegmentView, DecodeError>(e));
                    },
                }
            },
        }
    }
}

/// Once a run of positions has failed, every longer run from the same
/// position fails in the same way.
pub proof fn lemma_failure_is_final(
    first: int,
    count: nat,
    longer: nat,
    song_index: Seq<u8>,
    headers: Seq<SegmentHeader>,
    rom: Seq<u8>,
    memory_offset: int,
)
    requires
        count <= longer,
        segments_from(first, count, song_index, headers, rom, memory_offset) is Err,
    ensures
        segments_from(first, longer, song_index, headers, rom, memory_offset) == segments_from(
            first,
            count,
            song_index,
            headers,
            rom,
            memory_offset,
        ),
    decreases longer - count,
{
    if count < longer {
        lemma_failure_is_final(
            first,
            count,
            (longer - 1) as nat,
            song_index,
            headers,
            rom,
            memory_offset,
        );
    }
}

impl SongHeader {
    /// The number of positions from the start position to the end position,
    /// both included: none if the end lies before the start.
    pub open spec fn segment_count(self) -> nat {
        if self.start_index <= self.end_index {
            (self.end_index - self.start_index + 1) as nat
        } else {
            0
        }
    }

    /// The song that this header describes, in an image whose segment table
    /// starts at `segment_headers_index`.
    ///
    /// The segment table is loaded first, then the song index in front of it
    /// is located. The positions from start to end each give one segment, in
    /// order. Last, the loop position is resolved through the song index to
    /// the number of a segment record.
    pub open spec fn song(
        self,
        rom: Seq<u8>,
        segment_headers_index: int,
        memory_offset: int,
    ) -> Result<SongView, DecodeError> {
        match segment_headers_at(rom, segment_headers_index) {
            Err(e) => Err(e),
            Ok(headers) => if segment_headers_index < SONG_INDEX_SIZE {
                Err(DecodeError::BufferUnderrun { region: RomRegion::SongIndex })
            } else {
                let song_index = rom.subrange(
                    segment_headers_index - SONG_INDEX_SIZE,
                    segment_headers_index,
                );
                match segments_from(
                    self.start_index as int,
                    self.segment_count(),
                    song_index,
                    headers,
                    rom,
                    memory_offset,
                ) {
                    Err(e) => Err(e),
                    Ok(segments) => if self.loop_index >= SONG_INDEX_SIZE {
                        Err(
                            DecodeError::IndexOutOfRange {
                                region: RomRegion::SongIndex,
                                index: self.loop_index as usize,
                                len: SONG_INDEX_SIZE,
                            },
                        )
                    } else {
                        Ok(
                            SongView {
                                loop_index: record_of_entry(
                                    song_index[self.loop_index as int],
                                ) as u8,
                                segments,
                            },
                        )
                    },
                }
            },
        }
    }

    /// Loads the song table that starts at `starts_index`.
    ///
    /// Fails exactly if the table does not lie inside the image.
    pub fn load(rom: &Vec<u8>, starts_index: usize) -> (r: Result<Vec<SongHeader>, DecodeError>)
        ensures
            match r {
                Ok(headers) => song_headers_at(rom@, starts_index as int) == Ok::<
                    Seq<SongHeader>,
                    DecodeError,
                >(headers@),
                Err(e) => song_headers_at(rom@, starts_index as int) == Err::<
                    Seq<SongHeader>,
                    DecodeError,
                >(e),
            },
            r is Ok <==> starts_index + SONG_TABLE_SIZE <= rom@.len(),
            r matches Ok(headers) ==> headers@.len() == SONG_HEADER_COUNT,
    {
        let len: usize = rom.len();
        if len < SONG_TABLE_SIZE || starts_index > len - SONG_TABLE_SIZE {
            return Err(DecodeError::BufferUnderrun { region: RomRegion::SongHeaders });
        }
        let ends_index: usize = starts_index + SONG_HEADER_COUNT;
        let loops_index: usize = ends_index + SONG_HEADER_COUNT;
        let ghost expected = song_headers_at(rom@, starts_index as int)->Ok_0;
        let mut songs: Vec<SongHeader> = Vec::new();
        let mut i: usize = 0;
        while i < SONG_HEADER_COUNT
            invariant
                i <= SONG_HEADER_COUNT,
                starts_index + SONG_TABLE_SIZE <= rom@.len() == len,
                ends_index == starts_index + SONG_HEADER_COUNT,
                loops_index == ends_index + SONG_HEADER_COUNT,
                song_headers_at(rom@, starts_index as int) == Ok::<Seq<SongHeader>, DecodeError>(
                    expected,
                ),
                songs@ == expected.take(i as int),
            decreases SONG_HEADER_COUNT - i,
        {
            let song = SongHeader {
                start_index: rom[starts_index + i],
                end_index: rom[ends_index + i],
                loop_index: rom[loops_index + i],
            };
            proof {
                assert(expected.take(i + 1) =~= expected.take(i as int).push(song));
            }
            songs.push(song);
            i += 1;
        }
        proof {
            assert(expected.take(i as int) =~= expected);
        }
        Ok(songs)
    }

    /// Assembles the song that this header describes.
    ///
    /// Fails with a buffer underrun if the segment table, or the song index
    /// in front of it, does not lie inside the image; with the error of the
    /// first position from start to end that yields no segment; and with an
    /// index out of range if all segments were read and the loop position
    /// lies outside the song index. On success the song has one segment for
    /// each position from start to end.
    pub fn to_song(
        &self,
        rom: &Vec<u8>,
        segment_headers_index: usize,
        segment_memory_offset: usize,
    ) -> (r: Result<Song, DecodeError>)
        ensures
            match r {
                Ok(song) => {
                    &&& self.song(
                        rom@,
                        segment_headers_index as int,
                        segment_memory_offset as int,
                    ) == Ok::<SongView, DecodeError>(song@)
                    &&& song.segments@.len() == self.segment_count()
                },
                Err(e) => self.song(
                    rom@,
                    segment_headers_index as int,
                    segment_memory_offset as int,
                ) == Err::<SongView, DecodeError>(e),
            },
    {
        let segment_headers = match SegmentHeader::load(rom, segment_headers_index) {
            Ok(headers) => headers,
            Err(e) => {
                return Err(e);
            },
        };
        if segment_headers_index < SONG_INDEX_SIZE {
            return Err(DecodeError::BufferUnderrun { region: RomRegion::SongIndex });
        }
        let song_index_address: usize = segment_headers_index - SONG_INDEX_SIZE;
        let ghost song_index = rom@.subrange(
            song_index_address as int,
            segment_headers_index as int,
        );
        let ghost memory_offset = segment_memory_offset as int;
        let ghost first = self.start_index as int;

        let mut segments: Vec<Segment> = Vec::new();
        let mut position: usize = self.start_index as usize;
        let last: usize = self.end_index as usize;
        proof {
            assert(segment_views(segments@) =~= Seq::empty());
        }
        while position <= last
            invariant
                first == self.start_index,
                last == self.end_index,
                memory_offset == segment_memory_offset,
                first <= position,
                position - first <= self.segment_count(),
                song_index_address + SONG_INDEX_SIZE == segment_headers_index,
                segment_headers_index <= rom@.len(),
                segment_headers_at(rom@, segment_headers_index as int) == Ok::<
                    Seq<SegmentHeader>,
                    DecodeError,
                >(segment_headers@),
                song_index == rom@.subrange(
                    song_index_address as int,
                    segment_headers_index as int,
                ),
                segments_from(
                    first,
                    (position - first) as nat,
                    song_index,
                    segment_headers@,
                    rom@,
                    memory_offset,
                ) == Ok::<Seq<SegmentView>, DecodeError>(segment_views(segments@)),
            decreases last + 1 - position,
        {
            let ghost read = (position - first) as nat;
            let ghost at = segment_at(
                position as int,
                song_index,
                segment_headers@,
                rom@,
                memory_offset,
            );
            proof {
                assert(first + (read + 1) - 1 == position);
                assert(((read + 1) - 1) as nat == read);
            }
            if position >= SONG_INDEX_SIZE {
                proof {
                    lemma_failure_is_final(
                        first,
                        read + 1,
                        self.segment_count(),
                        song_index,
                        segment_headers@,
                        rom@,
                        memory_offset,
                    );
                }
                return Err(
                    DecodeError::IndexOutOfRange {
                        region: RomRegion::SongIndex,
                        index: position,
                        len: SONG_INDEX_SIZE,
                    },
                );
            }
            let entry: u8 = rom[song_index_address + position];
            let record: usize = (entry / 7) as usize;
            if record >= segment_headers.len() {
                proof {
                    lemma_failure_is_final(
                        first,
                        read + 1,
                        self.segment_count(),
                        song_index,
                        segment_headers@,
                        rom@,
                        memory_offset,
                    );
                }
                return Err(
                    DecodeError::IndexOutOfRange {
                        region: RomRegion::SegmentHeaders,
                        index: record,
                        len: segment_headers.len(),
                    },
                );
            }
            let segment = match segment_headers[record].to_segment(rom, segment_memory_offset) {
                Ok(segment) => segment,
                Err(e) => {
                    proof {
                        lemma_failure_is_final(
                            first,
                            read + 1,
                            self.segment_count(),
                            song_index,
                            segment_headers@,
                            rom@,
                            memory_offset,
                        );
                    }
                    return Err(e);
                },
            };
            proof {
                assert(segment_views(segments@.push(segment)) =~= segment_views(segments@).push(
                    segment@,
                ));
            }
            segments.push(segment);
            position += 1;
        }
        if self.loop_index as usize >= SONG_INDEX_SIZE {
            return Err(
                DecodeError::IndexOutOfRange {
                    region: RomRegion::SongIndex,
                    index: self.loop_index as usize,
                    len: SONG_INDEX_SIZE,
                },
            );
        }
        let loop_entry: u8 = rom[song_index_address + self.loop_index as usize];
        proof {
            lemma_segments_from(
                first,
                self.segment_count(),
                song_index,
                segment_headers@,
                rom@,
                memory_offset,
            );
        }
        Ok(Song { loop_index: loop_entry / 7, segments })
    }
}

} // verus!
