//! The lookup tables of the sound driver: tempo, pitch, note length and
//! instrument. Each table is a total function on its codes; every other byte
//! is refused.

use vstd::prelude::*;
use crate::error::{ByteTable, DecodeError};
use crate::song::{Instrument, NoteOptions};

verus! {

/// The pitch value that stands for silence.
pub const REST_FREQUENCY: u32 = 0;

/// The pitch code that stands for silence.
pub const REST_CODE: u8 = 0x7E;

/// The pitch table: the frequency of each code, in hundredths of a hertz.
/// Codes are even, from C#2 at `0x02` up to D7 at `0x7C`; `0x7E` is silence.
/// D#4 (`0x36`) is sharper than equal temperament puts it, and sharper than
/// the E above it. That is how the driver sounds it.
pub open spec fn note_frequency(code: u8) -> Option<u32> {
    match code {
        0x02 => Some(6930u32),
        0x04 => Some(7342u32),
        0x06 => Some(7778u32),
        0x08 => Some(8241u32),
        0x0A => Some(8731u32),
        0x0C => Some(9250u32),
        0x0E => Some(9800u32),
        0x10 => Some(10383u32),
        0x12 => Some(11000u32),
        0x14 => Some(11654u32),
        0x16 => Some(12346u32),
        0x18 => Some(13081u32),
        0x1A => Some(13859u32),
        0x1C => Some(14683u32),
        0x1E => Some(15556u32),
        0x20 => Some(16481u32),
        0x22 => Some(17461u32),
        0x24 => Some(18500u32),
        0x26 => Some(19600u32),
        0x28 => Some(20765u32),
        0x2A => Some(22000u32),
        0x2C => Some(23308u32),
        0x2E => Some(24694u32),
        0x30 => Some(26163u32),
        0x32 => Some(27718u32),
        0x34 => Some(29366u32),
        0x36 => Some(33113u32),
        0x38 => Some(32963u32),
        0x3A => Some(34923u32),
        0x3C => Some(36999u32),
        0x3E => Some(39200u32),
        0x40 => Some(41530u32),
        0x42 => Some(44000u32),
        0x44 => Some(46615u32),
        0x46 => Some(49388u32),
        0x48 => Some(52325u32),
        0x4A => Some(55437u32),
        0x4C => Some(58733u32),
        0x4E => Some(62225u32),
        0x50 => Some(65925u32),
        0x52 => Some(69846u32),
        0x54 => Some(73999u32),
        0x56 => Some(78399u32),
        0x58 => Some(83061u32),
        0x5A => Some(88000u32),
        0x5C => Some(93233u32),
        0x5E => Some(98777u32),
        0x60 => Some(104650u32),
        0x62 => Some(110873u32),
        0x64 => Some(117466u32),
        0x66 => Some(124451u32),
        0x68 => Some(131851u32),
        0x6A => Some(139691u32),
        0x6C => Some(147998u32),
        0x6E => Some(156798u32),
        0x70 => Some(166122u32),
        0x72 => Some(176000u32),
        0x74 => Some(186466u32),
        0x76 => Some(197572u32),
        0x78 => Some(209300u32),
        0x7A => Some(221746u32),
        0x7C => Some(234932u32),
        0x7E => Some(REST_FREQUENCY),
        _ => None,
    }
}

/// What looking up a pitch code yields: its frequency, or the refusal of the
/// code.
pub open spec fn note_lookup(code: u8) -> Result<u32, DecodeError> {
    match note_frequency(code) {
        Some(frequency) => Ok(frequency),
        None => Err(DecodeError::UnknownByteValue { table: ByteTable::Note, value: code }),
    }
}

/// Looks up the frequency of a pitch code, in hundredths of a hertz.
///
/// Exactly the even codes from `0x02` to `0x7E` are known. A sounding code
/// never yields [`REST_FREQUENCY`]; `0x7E` always does.
pub fn decode_note(value: u8) -> (r: Result<u32, DecodeError>)
    ensures
        r == note_lookup(value),
        r is Ok <==> value % 2 == 0 && 0x02 <= value <= 0x7E,
        r matches Ok(frequency) ==> (frequency == REST_FREQUENCY <==> value == REST_CODE),
{
    let known: Option<u32> = match value {
        0x02 => Some(6930),
        0x04 => Some(7342),
        0x06 => Some(7778),
        0x08 => Some(8241),
        0x0A => Some(8731),
        0x0C => Some(9250),
        0x0E => Some(9800),
        0x10 => Some(10383),
        0x12 => Some(11000),
        0x14 => Some(11654),
        0x16 => Some(12346),
        0x18 => Some(13081),
        0x1A => Some(13859),
        0x1C => Some(14683),
        0x1E => Some(15556),
        0x20 => Some(16481),
        0x22 => Some(17461),
        0x24 => Some(18500),
        0x26 => Some(19600),
        0x28 => Some(20765),
        0x2A => Some(22000),
        0x2C => Some(23308),
        0x2E => Some(24694),
        0x30 => Some(26163),
        0x32 => Some(27718),
        0x34 => Some(29366),
        0x36 => Some(33113),
        0x38 => Some(32963),
        0x3A => Some(34923),
        0x3C => Some(36999),
        0x3E => Some(39200),
        0x40 => Some(41530),
        0x42 => Some(44000),
        0x44 => Some(46615),
        0x46 => Some(49388),
        0x48 => Some(52325),
        0x4A => Some(55437),
        0x4C => Some(58733),
        0x4E => Some(62225),
        0x50 => Some(65925),
        0x52 => Some(69846),
        0x54 => Some(73999),
        0x56 => Some(78399),
        0x58 => Some(83061),
        0x5A => Some(88000),
        0x5C => Some(93233),
        0x5E => Some(98777),
        0x60 => Some(104650),
        0x62 => Some(110873),
        0x64 => Some(117466),
        0x66 => Some(124451),
        0x68 => Some(131851),
        0x6A => Some(139691),
        0x6C => Some(147998),
        0x6E => Some(156798),
        0x70 => Some(166122),
        0x72 => Some(176000),
        0x74 => Some(186466),
        0x76 => Some(197572),
        0x78 => Some(209300),
        0x7A => Some(221746),
        0x7C => Some(234932),
        0x7E => Some(REST_FREQUENCY),
        _ => None,
    };
    match known {
        Some(frequency) => Ok(frequency),
        None => Err(DecodeError::UnknownByteValue { table: ByteTable::Note, value }),
    }
}

/// The tempo table: milliseconds per duration unit for each tempo code.
/// The codes are the multiples of `0x10` up to `0x90`. The entry for `0x00`
/// is an estimate; the others were measured.
pub open spec fn tempo_millis(code: u8) -> Option<u16> {
    match code {
        0x00 => Some(275u16),
        0x10 => Some(250u16),
        0x20 => Some(233u16),
        0x30 => Some(200u16),
        0x40 => Some(166u16),
        0x50 => Some(150u16),
        0x60 => Some(133u16),
        0x70 => Some(115u16),
        0x80 => Some(100u16),
        0x90 => Some(66u16),
        _ => None,
    }
}

/// What looking up a tempo code yields.
pub open spec fn tempo_lookup(code: u8) -> Result<u16, DecodeError> {
    match tempo_millis(code) {
        Some(millis) => Ok(millis),
        None => Err(DecodeError::UnknownByteValue { table: ByteTable::Tempo, value: code }),
    }
}

/// Looks up the length of one duration unit, in milliseconds, for a tempo
/// code. Exactly the multiples of `0x10` up to `0x90` are known.
pub fn decode_tempo(value: u8) -> (r: Result<u16, DecodeError>)
    ensures
        r == tempo_lookup(value),
        r is Ok <==> value % 16 == 0 && value <= 0x90,
{
    match value {
        0x00 => Ok(275),
        0x10 => Ok(250),
        0x20 => Ok(233),
        0x30 => Ok(200),
        0x40 => Ok(166),
        0x50 => Ok(150),
        0x60 => Ok(133),
        0x70 => Ok(115),
        0x80 => Ok(100),
        0x90 => Ok(66),
        _ => Err(DecodeError::UnknownByteValue { table: ByteTable::Tempo, value }),
    }
}

/// The note-length table: the multiplier of each length code, in hundredths.
/// Codes `0x0` to `0xE` are known; `0xF` is reserved.
pub open spec fn note_length(code: u8) -> Option<u16> {
    match code {
        0x0 => Some(50u16),
        0x1 => Some(55u16),
        0x2 => Some(66u16),
        0x3 => Some(66u16),
        0x4 => Some(100u16),
        0x5 => Some(150u16),
        0x6 => Some(133u16),
        0x7 => Some(75u16),
        0x8 => Some(200u16),
        0x9 => Some(300u16),
        0xA => Some(400u16),
        0xB => Some(600u16),
        0xC => Some(800u16),
        0xD => Some(333u16),
        0xE => Some(33u16),
        _ => None,
    }
}

/// What looking up a note-length code yields.
pub open spec fn note_length_lookup(code: u8) -> Result<u16, DecodeError> {
    match note_length(code) {
        Some(multiplier) => Ok(multiplier),
        None => Err(DecodeError::UnknownByteValue { table: ByteTable::NoteLength, value: code }),
    }
}

/// Looks up the length multiplier of a length code, in hundredths. The codes
/// `0x0` to `0xE` are known; `0xF` and everything wider than a nibble is
/// refused.
pub fn decode_note_length(value: u8) -> (r: Result<u16, DecodeError>)
    ensures
        r == note_length_lookup(value),
        r is Ok <==> value <= 0xE,
{
    match value {
        0x0 => Ok(50),
        0x1 => Ok(55),
        0x2 => Ok(66),
        0x3 => Ok(66),
        0x4 => Ok(100),
        0x5 => Ok(150),
        0x6 => Ok(133),
        0x7 => Ok(75),
        0x8 => Ok(200),
        0x9 => Ok(300),
        0xA => Ok(400),
        0xB => Ok(600),
        0xC => Ok(800),
        0xD => Ok(333),
        0xE => Ok(33),
        _ => Err(DecodeError::UnknownByteValue { table: ByteTable::NoteLength, value }),
    }
}

/// The first byte that sets note options. Its high nibble is patch 0.
pub const FIRST_OPTIONS_BYTE: u8 = 0x80;

/// The instrument table: the timbre of each of the eight patches.
pub open spec fn instrument_of_patch(patch: int) -> Option<Instrument> {
    if patch == 0 {
        Some(Instrument::LongSquare)
    } else if patch == 1 {
        Some(Instrument::ShortPiano)
    } else if patch == 2 {
        Some(Instrument::ShortSquare)
    } else if patch == 3 {
        Some(Instrument::Square)
    } else if patch == 4 {
        Some(Instrument::Wavey)
    } else if patch == 5 {
        Some(Instrument::ShortPianoEcho)
    } else if patch == 6 {
        Some(Instrument::ShortPiano2)
    } else if patch == 7 {
        Some(Instrument::Pizzicato)
    } else {
        None
    }
}

/// What a note-options byte stands for. The high nibble, less eight, is the
/// patch; the low nibble is the length code. A byte below `0x80` has no
/// patch, and that is reported before its length code is looked at.
pub open spec fn note_options_lookup(byte: u8) -> Result<NoteOptions, DecodeError> {
    match instrument_of_patch(byte / 16 - 8) {
        None => Err(DecodeError::UnknownByteValue { table: ByteTable::Instrument, value: byte }),
        Some(instrument) => match note_length_lookup(byte % 16) {
            Ok(duration) => Ok(NoteOptions { instrument, duration }),
            Err(e) => Err(e),
        },
    }
}

/// Splits a note-options byte into instrument and note length.
///
/// Succeeds exactly on the bytes from `0x80` up whose low nibble is not the
/// reserved `0xF`.
pub fn decode_note_options(value: u8) -> (r: Result<NoteOptions, DecodeError>)
    ensures
        r == note_options_lookup(value),
        r is Ok <==> value >= FIRST_OPTIONS_BYTE && value % 16 != 0xF,
        value < FIRST_OPTIONS_BYTE ==> r == Err::<NoteOptions, DecodeError>(
            (DecodeError::UnknownByteValue { table: ByteTable::Instrument, value }),
        ),
        value >= FIRST_OPTIONS_BYTE && value % 16 == 0xF ==> r == Err::<NoteOptions, DecodeError>(
            (DecodeError::UnknownByteValue { table: ByteTable::NoteLength, value: 0xF }),
        ),
{
    let high: u8 = value >> 4;
    let low: u8 = value & 0x0F;
    assert(high == value / 16 && low == value % 16) by (bit_vector)
        requires
            high == value >> 4,
            low == value & 0x0F,
    ;
    if high < 8 {
        return Err(DecodeError::UnknownByteValue { table: ByteTable::Instrument, value });
    }
    let patch: u8 = high - 8;
    let instrument = match patch {
        0 => Instrument::LongSquare,
        1 => Instrument::ShortPiano,
        2 => Instrument::ShortSquare,
        3 => Instrument::Square,
        4 => Instrument::Wavey,
        5 => Instrument::ShortPianoEcho,
        6 => Instrument::ShortPiano2,
        _ => Instrument::Pizzicato,
    };
    match decode_note_length(low) {
        Ok(duration) => Ok(NoteOptions { instrument, duration }),
        Err(e) => Err(e),
    }
}

/// Every even pitch code from `0x02` to `0x7C` sounds: it has a frequency,
/// and that frequency is not the rest value.
pub proof fn lemma_even_codes_sound(code: u8)
    requires
        0x01 <= code <= 0x7D,
        code % 2 == 0,
    ensures
        note_frequency(code) is Some,
        note_lookup(code) == Ok::<u32, DecodeError>(note_frequency(code)->Some_0),
        note_frequency(code)->Some_0 != REST_FREQUENCY,
{
}

/// The pitch code `0x7E` is the rest, and no other code is.
pub proof fn lemma_rest_code(code: u8)
    ensures
        note_lookup(code) == Ok::<u32, DecodeError>(REST_FREQUENCY) <==> code == REST_CODE,
{
}

/// A pitch code that is odd, zero or above `0x7E` has no frequency.
pub proof fn lemma_other_codes_are_refused(code: u8)
    requires
        code % 2 == 1 || code == 0 || code > REST_CODE,
    ensures
        note_lookup(code) == Err::<u32, DecodeError>(
            (DecodeError::UnknownByteValue { table: ByteTable::Note, value: code }),
        ),
{
}

/// Pitch rises with the code, one exception apart: D#4 (`0x36`) lies above
/// the E that follows it.
pub proof fn lemma_pitch_rises_but_for_d_sharp_4(code: u8)
    requires
        0x02 <= code <= 0x7A,
        code % 2 == 0,
    ensures
        code != 0x36 ==> note_frequency(code)->Some_0 < note_frequency((code + 2) as u8)->Some_0,
        code == 0x36 ==> note_frequency(code)->Some_0 > note_frequency((code + 2) as u8)->Some_0,
{
}

/// The length codes `0x0` to `0xE` have a multiplier; `0xF` and every wider
/// value are refused.
pub proof fn lemma_note_length_codes(code: u8)
    ensures
        code <= 0xE ==> note_length(code) is Some && note_length_lookup(code) == Ok::<
            u16,
            DecodeError,
        >(note_length(code)->Some_0),
        code >= 0xF ==> note_length_lookup(code) == Err::<u16, DecodeError>(
            (DecodeError::UnknownByteValue { table: ByteTable::NoteLength, value: code }),
        ),
{
}

/// A byte from `0x80` to `0xFE` whose low nibble is not the reserved `0xF`
/// always yields note options: the instrument of patch `(byte >> 4) - 8` and
/// the length of code `byte & 0x0F`.
pub proof fn lemma_note_options_of_nibbles(byte: u8)
    requires
        0x80 <= byte <= 0xFE,
        byte & 0x0F != 0x0F,
    ensures
        note_options_lookup(byte) is Ok,
        Some(note_options_lookup(byte)->Ok_0.instrument) == instrument_of_patch((byte >> 4) - 8),
        Ok::<u16, DecodeError>(note_options_lookup(byte)->Ok_0.duration) == note_length_lookup(
            byte & 0x0F,
        ),
{
    assert(byte >> 4 == byte / 16 && byte & 0x0F == byte % 16) by (bit_vector);
}

/// A byte from `0x80` up whose low nibble is the reserved `0xF` yields no
/// note options: its length code is refused.
pub proof fn lemma_reserved_length_is_refused(byte: u8)
    requires
        byte >= 0x80,
        byte & 0x0F == 0x0F,
    ensures
        note_options_lookup(byte) == Err::<NoteOptions, DecodeError>(
            (DecodeError::UnknownByteValue { table: ByteTable::NoteLength, value: 0xF }),
        ),
{
    assert(byte >> 4 == byte / 16 && byte & 0x0F == byte % 16) by (bit_vector);
}

} // verus!
