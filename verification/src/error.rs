//! The ways in which decoding can fail.

use vstd::prelude::*;

verus! {

/// The lookup table that rejected a byte.
#[derive(Clone, Copy, Debug, PartialEq, Eq, Structural)]
pub enum ByteTable {
    /// Tempo codes of segment headers.
    Tempo,
    /// Pitch codes of a channel stream.
    Note,
    /// The low nibble of a note-options byte.
    NoteLength,
    /// The high nibble of a note-options byte.
    Instrument,
    /// The byte classes of a channel stream.
    Channel,
}

/// A part of the ROM image: what a read was aimed at, or the table that an
/// index was meant for.
#[derive(Clone, Copy, Debug, PartialEq, Eq, Structural)]
pub enum RomRegion {
    /// The three parallel arrays of song starts, ends and loop points.
    SongHeaders,
    /// The array of seven-byte segment records.
    SegmentHeaders,
    /// The table that maps a song's positions to segment records.
    SongIndex,
    /// The byte stream of one channel of one segment.
    ChannelData,
}

/// Why a decode was abandoned. Nothing is decoded partially: the first
/// failure, in reading order, is the result of the whole request.
#[derive(Clone, Copy, Debug, PartialEq, Eq, Structural)]
pub enum DecodeError {
    /// A byte has no entry in the table that it was looked up in.
    UnknownByteValue { table: ByteTable, value: u8 },
    /// An index points past the end of a table of `len` entries.
    IndexOutOfRange { region: RomRegion, index: usize, len: usize },
    /// A read would leave the ROM image.
    BufferUnderrun { region: RomRegion },
}

} // verus!
