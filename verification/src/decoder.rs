//! The entry point: decoding one song of a ROM image.

use vstd::prelude::*;
use crate::error::{DecodeError, RomRegion};
use crate::segment_header::segment_headers_at;
use crate::song::{Song, SongView};
use crate::song_header::{
    lemma_segments_from, song_headers_at, SongHeader, SONG_HEADER_COUNT, SONG_INDEX_SIZE,
    SONG_TABLE_SIZE,
};

verus! {

/// The song with number `song_index` of an image, given where its song table
/// and its segment table start and what is added to a segment's address to
/// find its music.
///
/// The song table is loaded first; then the number is checked against it;
/// then the song is assembled from the record with that number. The result
/// depends on nothing but the arguments.
pub open spec fn decoded_song(
    rom: Seq<u8>,
    song_index: usize,
    song_headers_address: int,
    segment_headers_address: int,
    segment_memory_offset: int,
) -> Result<SongView, DecodeError> {
    match song_headers_at(rom, song_headers_address) {
        Err(e) => Err(e),
        Ok(headers) => if song_index >= headers.len() {
            Err(
                DecodeError::IndexOutOfRange {
                    region: RomRegion::SongHeaders,
                    index: song_index,
                    len: headers.len() as usize,
                },
            )
        } else {
            headers[song_index as int].song(rom, segment_headers_address, segment_memory_offset)
        },
    }
}

/// Decodes the song with number `song_index`.
///
/// The three addresses belong to the ROM revision at hand: where the song
/// table starts, where the segment table starts, and the offset of channel
/// memory. Nothing is detected; a wrong address shows as an error or as
/// noise. The first failure in reading order ends the decode.
pub fn decode_song(
    rom: &Vec<u8>,
    song_index: usize,
    song_headers_address: usize,
    segment_headers_address: usize,
    segment_memory_offset: usize,
) -> (r: Result<Song, DecodeError>)
    ensures
        match r {
            Ok(song) => decoded_song(
                rom@,
                song_index,
                song_headers_address as int,
                segment_headers_address as int,
                segment_memory_offset as int,
            ) == Ok::<SongView, DecodeError>(song@),
            Err(e) => decoded_song(
                rom@,
                song_index,
                song_headers_address as int,
                segment_headers_address as int,
                segment_memory_offset as int,
            ) == Err::<SongView, DecodeError>(e),
        },
        song_headers_address + SONG_TABLE_SIZE > rom@.len() ==> r == Err::<Song, DecodeError>(
            (DecodeError::BufferUnderrun { region: RomRegion::SongHeaders }),
        ),
        song_headers_address + SONG_TABLE_SIZE <= rom@.len() && song_index >= SONG_HEADER_COUNT
            ==> r == Err::<Song, DecodeError>(
            (DecodeError::IndexOutOfRange {
                region: RomRegion::SongHeaders,
                index: song_index,
                len: SONG_HEADER_COUNT,
            }),
        ),
        r matches Ok(song) ==> song.segments@.len() == song_headers_at(
            rom@,
            song_headers_address as int,
        )->Ok_0[song_index as int].segment_count(),
{
    let song_headers = match SongHeader::load(rom, song_headers_address) {
        Ok(headers) => headers,
        Err(e) => {
            return Err(e);
        },
    };
    if song_index >= song_headers.len() {
        return Err(
            DecodeError::IndexOutOfRange {
                region: RomRegion::SongHeaders,
                index: song_index,
                len: song_headers.len(),
            },
        );
    }
    song_headers[song_index].to_song(rom, segment_headers_address, segment_memory_offset)
}

/// A song number equal to the length of the song table, or greater, is out
/// of range, whatever else the image holds, as long as the song table itself
/// could be loaded.
pub proof fn lemma_song_number_past_table(
    rom: Seq<u8>,
    song_index: usize,
    song_headers_address: int,
    segment_headers_address: int,
    segment_memory_offset: int,
)
    requires
        song_headers_at(rom, song_headers_address) is Ok,
        song_index >= SONG_HEADER_COUNT,
    ensures
        decoded_song(
            rom,
            song_index,
            song_headers_address,
            segment_headers_address,
            segment_memory_offset,
        ) == Err::<SongView, DecodeError>(
            (DecodeError::IndexOutOfRange {
                region: RomRegion::SongHeaders,
                index: song_index,
                len: SONG_HEADER_COUNT,
            }),
        ),
{
}

/// A decoded song has one segment for each position from its header's start
/// to its header's end, both included, and each is the segment at that
/// position of the song index.
pub proof fn lemma_one_segment_per_position(
    rom: Seq<u8>,
    song_index: usize,
    song_headers_address: int,
    segment_headers_address: int,
    segment_memory_offset: int,
)
    requires
        decoded_song(
            rom,
            song_index,
            song_headers_address,
            segment_headers_address,
            segment_memory_offset,
        ) is Ok,
    ensures
        ({
            let song = decoded_song(
                rom,
                song_index,
                song_headers_address,
                segment_headers_address,
                segment_memory_offset,
            )->Ok_0;
            let header = song_headers_at(rom, song_headers_address)->Ok_0[song_index as int];
            &&& song_index < SONG_HEADER_COUNT
            &&& song.segments.len() == header.segment_count()
            &&& header.start_index <= header.end_index ==> song.segments.len() == header.end_index
                - header.start_index + 1
        }),
{
    let header = song_headers_at(rom, song_headers_address)->Ok_0[song_index as int];
    let headers = segment_headers_at(rom, segment_headers_address)->Ok_0;
    let song_index_table = rom.subrange(
        segment_headers_address - SONG_INDEX_SIZE,
        segment_headers_address,
    );
    lemma_segments_from(
        header.start_index as int,
        header.segment_count(),
        song_index_table,
        headers,
        rom,
        segment_memory_offset,
    );
}

} // verus!
