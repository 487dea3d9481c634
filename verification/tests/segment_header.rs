use musicbox::error::{ByteTable, DecodeError, RomRegion};
use musicbox::segment_header::{
    SegmentHeader, SEGMENT_HEADER_COUNT, SEGMENT_RECORD_SIZE, SEGMENT_TABLE_SIZE,
};
use musicbox::song::{Instruction, Instrument, NoteOptions, Segment};

fn header(tempo: u8, address: u16) -> SegmentHeader {
    SegmentHeader {
        tempo,
        address,
        triangle_offset: 0,
        square1_offset: 0,
        noise_offset: 0,
        dcm_offset: 0,
    }
}

fn underrun(region: RomRegion) -> DecodeError {
    DecodeError::BufferUnderrun { region }
}

#[test]
fn segment_table_sizes() {
    assert_eq!(SEGMENT_RECORD_SIZE, 7);
    assert_eq!(SEGMENT_HEADER_COUNT, 37);
    assert_eq!(SEGMENT_TABLE_SIZE, SEGMENT_HEADER_COUNT * SEGMENT_RECORD_SIZE);
}

#[test]
fn new_composes_the_address_high_byte_second() {
    let h = SegmentHeader::new([0x30, 0x34, 0x12, 1, 2, 3, 4]);
    assert_eq!(h.address, 0x1234);
    assert_eq!(h.tempo, 0x30);
    assert_eq!(h.triangle_offset, 1);
    assert_eq!(h.square1_offset, 2);
    assert_eq!(h.noise_offset, 3);
    assert_eq!(h.dcm_offset, 4);
}

#[test]
fn new_address_for_all_byte_pairs() {
    for hi in 0u16..=255 {
        for lo in 0u16..=255 {
            let h = SegmentHeader::new([0, lo as u8, hi as u8, 0, 0, 0, 0]);
            assert_eq!(h.address, (hi << 8) | lo);
        }
    }
    assert_eq!(SegmentHeader::new([0, 0xFF, 0xFF, 0, 0, 0, 0]).address, 0xFFFF);
    assert_eq!(SegmentHeader::new([0, 0x01, 0x00, 0, 0, 0, 0]).address, 1);
    assert_eq!(SegmentHeader::new([0, 0x00, 0x01, 0, 0, 0, 0]).address, 256);
}

#[test]
fn load_reads_thirty_seven_records() {
    let base = 5usize;
    let mut rom = vec![0u8; base + SEGMENT_TABLE_SIZE];
    for i in 0..rom.len() {
        rom[i] = (i * 3 % 251) as u8;
    }
    let headers = SegmentHeader::load(&rom, base).unwrap();
    assert_eq!(headers.len(), 37);
    for (k, h) in headers.iter().enumerate() {
        let at = base + 7 * k;
        let record = [
            rom[at],
            rom[at + 1],
            rom[at + 2],
            rom[at + 3],
            rom[at + 4],
            rom[at + 5],
            rom[at + 6],
        ];
        assert_eq!(*h, SegmentHeader::new(record));
        assert_eq!(h.address, (rom[at + 2] as u16) * 256 + rom[at + 1] as u16);
    }
}

#[test]
fn segment_table_must_lie_inside_the_image() {
    let rom = vec![0u8; 300];
    assert!(SegmentHeader::load(&rom, 300 - 259).is_ok());
    assert_eq!(SegmentHeader::load(&rom, 300 - 258), Err(underrun(RomRegion::SegmentHeaders)));
    assert_eq!(SegmentHeader::load(&rom, 300), Err(underrun(RomRegion::SegmentHeaders)));
    assert_eq!(SegmentHeader::load(&rom, usize::MAX), Err(underrun(RomRegion::SegmentHeaders)));
    let short = vec![0u8; 258];
    assert_eq!(SegmentHeader::load(&short, 0), Err(underrun(RomRegion::SegmentHeaders)));
    let exact = vec![0u8; 259];
    assert_eq!(SegmentHeader::load(&exact, 0).unwrap().len(), 37);
    assert_eq!(SegmentHeader::load(&Vec::new(), 0), Err(underrun(RomRegion::SegmentHeaders)));
}

#[test]
fn to_segment_reads_up_to_the_first_zero() {
    let rom: Vec<u8> = vec![0xAA, 0xBB, 0x90, 0x30, 0x00, 0x32, 0x00];
    let segment = header(0x30, 1).to_segment(&rom, 1).unwrap();
    assert_eq!(
        segment,
        Segment {
            tempo: 200,
            square2: vec![
                Instruction::SetNoteOptions(NoteOptions {
                    instrument: Instrument::ShortPiano,
                    duration: 50,
                }),
                Instruction::PlayNote(26163),
                Instruction::End,
            ],
            square1: vec![],
            triangle: vec![],
            noise: vec![],
            dcm: vec![],
        }
    );
    assert_eq!(segment.tempo as f64 / 1000.0, 0.2);
}

#[test]
fn to_segment_of_a_lone_zero_is_just_an_end() {
    let rom: Vec<u8> = vec![0x30, 0x00];
    let segment = header(0x90, 1).to_segment(&rom, 0).unwrap();
    assert_eq!(segment.tempo, 66);
    assert_eq!(segment.square2, vec![Instruction::End]);
    assert!(segment.square1.is_empty());
    assert!(segment.triangle.is_empty());
    assert!(segment.noise.is_empty());
    assert!(segment.dcm.is_empty());
}

#[test]
fn to_segment_stream_always_ends_with_its_only_end() {
    let rom: Vec<u8> = vec![0x30, 0x32, 0x7E, 0xFF, 0x34, 0x00, 0x36, 0x00];
    let segment = header(0x00, 0).to_segment(&rom, 0).unwrap();
    assert_eq!(segment.square2.len(), 6);
    assert_eq!(segment.square2[5], Instruction::End);
    for instruction in &segment.square2[..5] {
        assert_ne!(*instruction, Instruction::End);
    }
}

#[test]
fn to_segment_without_a_zero_byte_underruns() {
    let rom: Vec<u8> = vec![0x00, 0x30, 0x32, 0x34];
    assert_eq!(header(0x30, 1).to_segment(&rom, 0), Err(underrun(RomRegion::ChannelData)));
    assert_eq!(header(0x30, 0).to_segment(&rom, 1), Err(underrun(RomRegion::ChannelData)));
}

#[test]
fn to_segment_starting_outside_the_image_underruns() {
    let rom: Vec<u8> = vec![0x00; 8];
    assert!(header(0x30, 7).to_segment(&rom, 0).is_ok());
    assert_eq!(header(0x30, 8).to_segment(&rom, 0), Err(underrun(RomRegion::ChannelData)));
    assert_eq!(header(0x30, 4).to_segment(&rom, 4), Err(underrun(RomRegion::ChannelData)));
    assert_eq!(header(0x30, 0xFFFF).to_segment(&rom, 0), Err(underrun(RomRegion::ChannelData)));
    assert_eq!(
        header(0x30, 1).to_segment(&rom, usize::MAX),
        Err(underrun(RomRegion::ChannelData))
    );
    assert_eq!(
        header(0x30, 0).to_segment(&rom, usize::MAX),
        Err(underrun(RomRegion::ChannelData))
    );
    assert_eq!(header(0x30, 0).to_segment(&Vec::new(), 0), Err(underrun(RomRegion::ChannelData)));
}

#[test]
fn to_segment_reports_underrun_before_tempo_before_stream() {
    let bad_tempo = 0x31u8;
    let no_zero: Vec<u8> = vec![0x31, 0x33];
    assert_eq!(
        header(bad_tempo, 0).to_segment(&no_zero, 0),
        Err(underrun(RomRegion::ChannelData))
    );
    let bad_stream: Vec<u8> = vec![0x31, 0x00];
    assert_eq!(
        header(bad_tempo, 0).to_segment(&bad_stream, 0),
        Err(DecodeError::UnknownByteValue { table: ByteTable::Tempo, value: 0x31 })
    );
    assert_eq!(
        header(0x30, 0).to_segment(&bad_stream, 0),
        Err(DecodeError::UnknownByteValue { table: ByteTable::Note, value: 0x31 })
    );
}
