//! Decoder for the music sequences stored in a cartridge ROM image.
//!
//! A song is a list of segments; a segment carries a tempo and one instruction
//! stream per sound channel. The decoder walks the ROM's fixed tables, turns the
//! bytes into typed values and reports precisely which input it rejects and why.
//!
//! Quantities that the hardware driver treats as fractions are held as scaled
//! integers, so that every table entry is exact:
//!
//! * a pitch is a frequency in hundredths of a hertz,
//! * a tempo is the length of one duration unit in milliseconds,
//! * a note length is a multiplier in hundredths.

pub mod channel;
pub mod decoder;
pub mod error;
pub mod playback;
pub mod segment_header;
pub mod song;
pub mod song_header;
pub mod tables;
