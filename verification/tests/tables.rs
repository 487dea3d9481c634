use musicbox::error::{ByteTable, DecodeError};
use musicbox::song::{Instrument, NoteOptions};
use musicbox::tables::{
    decode_note, decode_note_length, decode_note_options, decode_tempo, FIRST_OPTIONS_BYTE,
    REST_CODE, REST_FREQUENCY,
};

fn unknown(table: ByteTable, value: u8) -> DecodeError {
    DecodeError::UnknownByteValue { table, value }
}

/// The pitch table in hertz, as the sound driver documents it.
fn pitches_in_hertz() -> Vec<(u8, f32)> {
    vec![
        (0x02, 69.30),
        (0x04, 73.42),
        (0x06, 77.78),
        (0x08, 82.41),
        (0x0A, 87.31),
        (0x0C, 92.50),
        (0x0E, 98.00),
        (0x10, 103.83),
        (0x12, 110.00),
        (0x14, 116.54),
        (0x16, 123.46),
        (0x18, 130.81),
        (0x1A, 138.59),
        (0x1C, 146.83),
        (0x1E, 155.56),
        (0x20, 164.81),
        (0x22, 174.61),
        (0x24, 185.00),
        (0x26, 196.00),
        (0x28, 207.65),
        (0x2A, 220.00),
        (0x2C, 233.08),
        (0x2E, 246.94),
        (0x30, 261.63),
        (0x32, 277.18),
        (0x34, 293.66),
        (0x36, 331.13),
        (0x38, 329.63),
        (0x3A, 349.23),
        (0x3C, 369.99),
        (0x3E, 392.00),
        (0x40, 415.30),
        (0x42, 440.00),
        (0x44, 466.15),
        (0x46, 493.88),
        (0x48, 523.25),
        (0x4A, 554.37),
        (0x4C, 587.33),
        (0x4E, 622.25),
        (0x50, 659.25),
        (0x52, 698.46),
        (0x54, 739.99),
        (0x56, 783.99),
        (0x58, 830.61),
        (0x5A, 880.00),
        (0x5C, 932.33),
        (0x5E, 987.77),
        (0x60, 1046.50),
        (0x62, 1108.73),
        (0x64, 1174.66),
        (0x66, 1244.51),
        (0x68, 1318.51),
        (0x6A, 1396.91),
        (0x6C, 1479.98),
        (0x6E, 1567.98),
        (0x70, 1661.22),
        (0x72, 1760.00),
        (0x74, 1864.66),
        (0x76, 1975.72),
        (0x78, 2093.00),
        (0x7A, 2217.46),
        (0x7C, 2349.32),
        (0x7E, 0.0),
    ]
}

#[test]
fn note_table_matches_documented_hertz() {
    let table = pitches_in_hertz();
    assert_eq!(table.len(), 63);
    for (code, hertz) in table {
        let centihertz = decode_note(code).unwrap();
        assert_eq!(centihertz as f32 / 100.0, hertz, "code {:#04x}", code);
    }
}

#[test]
fn note_exact_values() {
    assert_eq!(decode_note(0x02), Ok(6930));
    assert_eq!(decode_note(0x30), Ok(26163));
    assert_eq!(decode_note(0x42), Ok(44000));
    assert_eq!(decode_note(0x7C), Ok(234932));
}

#[test]
fn note_d_sharp_4_keeps_its_odd_value() {
    assert_eq!(decode_note(0x36), Ok(33113));
    assert_eq!(decode_note(0x38), Ok(32963));
    assert!(decode_note(0x36).unwrap() > decode_note(0x38).unwrap());
}

#[test]
fn note_pitch_rises_everywhere_else() {
    let mut code: u8 = 0x02;
    while code <= 0x7A {
        if code != 0x36 {
            assert!(decode_note(code).unwrap() < decode_note(code + 2).unwrap());
        }
        code += 2;
    }
}

#[test]
fn note_even_codes_sound_and_are_not_rests() {
    for code in 0x01u8..=0x7D {
        if code % 2 == 0 {
            let frequency = decode_note(code).unwrap();
            assert_ne!(frequency, REST_FREQUENCY);
        }
    }
}

#[test]
fn note_rest_code_is_the_rest() {
    assert_eq!(REST_CODE, 0x7E);
    assert_eq!(REST_FREQUENCY, 0);
    assert_eq!(decode_note(0x7E), Ok(REST_FREQUENCY));
}

#[test]
fn note_other_codes_are_refused() {
    for code in 0u8..=255 {
        let known = code % 2 == 0 && code >= 0x02 && code <= 0x7E;
        if !known {
            assert_eq!(decode_note(code), Err(unknown(ByteTable::Note, code)));
        } else {
            assert!(decode_note(code).is_ok());
        }
    }
}

#[test]
fn tempo_table() {
    let table: Vec<(u8, u16, f64)> = vec![
        (0x00, 275, 0.275),
        (0x10, 250, 0.250),
        (0x20, 233, 0.233),
        (0x30, 200, 0.2),
        (0x40, 166, 0.166),
        (0x50, 150, 0.150),
        (0x60, 133, 0.133),
        (0x70, 115, 0.115),
        (0x80, 100, 0.100),
        (0x90, 66, 0.066),
    ];
    for (code, millis, seconds) in table {
        assert_eq!(decode_tempo(code), Ok(millis));
        assert_eq!(millis as f64 / 1000.0, seconds);
    }
}

#[test]
fn tempo_other_codes_are_refused() {
    for code in 0u8..=255 {
        let known = code % 16 == 0 && code <= 0x90;
        assert_eq!(decode_tempo(code).is_ok(), known);
        if !known {
            assert_eq!(decode_tempo(code), Err(unknown(ByteTable::Tempo, code)));
        }
    }
    assert_eq!(decode_tempo(0xA0), Err(unknown(ByteTable::Tempo, 0xA0)));
    assert_eq!(decode_tempo(0x01), Err(unknown(ByteTable::Tempo, 0x01)));
}

#[test]
fn note_length_table() {
    let table: Vec<(u8, u16, f64)> = vec![
        (0x0, 50, 0.5),
        (0x1, 55, 0.55),
        (0x2, 66, 0.66),
        (0x3, 66, 0.66),
        (0x4, 100, 1.0),
        (0x5, 150, 1.5),
        (0x6, 133, 1.33),
        (0x7, 75, 0.75),
        (0x8, 200, 2.0),
        (0x9, 300, 3.0),
        (0xa, 400, 4.0),
        (0xb, 600, 6.0),
        (0xc, 800, 8.0),
        (0xd, 333, 3.33),
        (0xe, 33, 0.33),
    ];
    assert_eq!(table.len(), 15);
    for (code, hundredths, multiplier) in table {
        assert_eq!(decode_note_length(code), Ok(hundredths));
        assert_eq!(hundredths as f64 / 100.0, multiplier);
    }
}

#[test]
fn note_length_reserved_and_wide_codes_are_refused() {
    assert_eq!(decode_note_length(0xF), Err(unknown(ByteTable::NoteLength, 0xF)));
    for code in 0x10u8..=255 {
        assert_eq!(decode_note_length(code), Err(unknown(ByteTable::NoteLength, code)));
    }
}

#[test]
fn note_options_split_the_byte() {
    assert_eq!(
        decode_note_options(0x90),
        Ok(NoteOptions { instrument: Instrument::ShortPiano, duration: 50 })
    );
    assert_eq!(
        decode_note_options(0x80),
        Ok(NoteOptions { instrument: Instrument::LongSquare, duration: 50 })
    );
    assert_eq!(
        decode_note_options(0xFE),
        Ok(NoteOptions { instrument: Instrument::Pizzicato, duration: 33 })
    );
    assert_eq!(
        decode_note_options(0xC8),
        Ok(NoteOptions { instrument: Instrument::Wavey, duration: 200 })
    );
}

#[test]
fn note_options_follow_both_tables() {
    let instruments = [
        Instrument::LongSquare,
        Instrument::ShortPiano,
        Instrument::ShortSquare,
        Instrument::Square,
        Instrument::Wavey,
        Instrument::ShortPianoEcho,
        Instrument::ShortPiano2,
        Instrument::Pizzicato,
    ];
    for byte in 0x80u8..=0xFE {
        let result = decode_note_options(byte);
        if byte & 0x0F == 0x0F {
            assert_eq!(result, Err(unknown(ByteTable::NoteLength, 0xF)));
        } else {
            let options = result.unwrap();
            assert_eq!(options.instrument, instruments[((byte >> 4) - 8) as usize]);
            assert_eq!(Ok(options.duration), decode_note_length(byte & 0x0F));
        }
    }
}

#[test]
fn note_options_below_the_first_patch_are_refused() {
    assert_eq!(FIRST_OPTIONS_BYTE, 0x80);
    for byte in 0u8..0x80 {
        assert_eq!(decode_note_options(byte), Err(unknown(ByteTable::Instrument, byte)));
    }
    // The missing patch is reported even where the length code is reserved too.
    assert_eq!(decode_note_options(0x7F), Err(unknown(ByteTable::Instrument, 0x7F)));
}

#[test]
fn note_options_of_the_bend_byte_have_a_reserved_length() {
    assert_eq!(decode_note_options(0xFF), Err(unknown(ByteTable::NoteLength, 0xF)));
}
