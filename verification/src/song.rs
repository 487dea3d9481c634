//! The decoded form of a song.

use vstd::prelude::*;

verus! {

/// The timbre that notes are played with.
#[derive(Clone, Copy, Debug, PartialEq, Eq, Structural)]
pub enum Instrument {
    LongSquare,
    ShortPiano,
    ShortSquare,
    Square,
    Wavey,
    ShortPianoEcho,
    ShortPiano2,
    Pizzicato,
}

/// What a note-options byte sets for the notes that follow it.
#[derive(Clone, Copy, Debug, PartialEq, Eq, Structural)]
pub struct NoteOptions {
    pub instrument: Instrument,
    /// Length multiplier of the following notes, in hundredths.
    pub duration: u16,
}

/// One step of a channel's stream. The order of a stream matters: an
/// instruction acts on those after it, until another overrides it.
#[derive(Clone, Copy, Debug, PartialEq, Eq, Structural)]
pub enum Instruction {
    /// Changes instrument and length for the notes that follow.
    SetNoteOptions(NoteOptions),
    /// Sounds a pitch, given as a frequency in hundredths of a hertz.
    PlayNote(u32),
    /// Stays silent for the current note length.
    Rest,
    /// Marks the end of the stream.
    End,
    /// Makes the next note take the place of the one before it.
    Bend,
}

/// A run of music at one tempo, with one stream per channel.
#[derive(Clone, Debug, PartialEq, Eq)]
pub struct Segment {
    /// Milliseconds per duration unit.
    pub tempo: u16,
    pub square2: Vec<Instruction>,
    pub square1: Vec<Instruction>,
    pub triangle: Vec<Instruction>,
    pub noise: Vec<Instruction>,
    pub dcm: Vec<Instruction>,
}

/// A song: its segments in playing order and the point it repeats from.
#[derive(Clone, Debug, PartialEq, Eq)]
pub struct Song {
    pub loop_index: u8,
    pub segments: Vec<Segment>,
}

/// The mathematical content of a [`Segment`].
pub struct SegmentView {
    pub tempo: u16,
    pub square2: Seq<Instruction>,
    pub square1: Seq<Instruction>,
    pub triangle: Seq<Instruction>,
    pub noise: Seq<Instruction>,
    pub dcm: Seq<Instruction>,
}

/// The mathematical content of a [`Song`].
pub struct SongView {
    pub loop_index: u8,
    pub segments: Seq<SegmentView>,
}

impl View for Segment {
    type V = SegmentView;

    open spec fn view(&self) -> SegmentView {
        SegmentView {
            tempo: self.tempo,
            square2: self.square2@,
            square1: self.square1@,
            triangle: self.triangle@,
            noise: self.noise@,
            dcm: self.dcm@,
        }
    }
}

/// The mathematical content of a list of segments, one by one.
pub open spec fn segment_views(segments: Seq<Segment>) -> Seq<SegmentView> {
    Seq::new(segments.len(), |i: int| segments[i]@)
}

impl View for Song {
    type V = SongView;

    open spec fn view(&self) -> SongView {
        SongView { loop_index: self.loop_index, segments: segment_views(self.segments@) }
    }
}

impl SegmentView {
    /// A segment in which only the second square channel holds music.
    pub open spec fn melody(tempo: u16, square2: Seq<Instruction>) -> SegmentView {
        SegmentView {
            tempo,
            square2,
            square1: Seq::empty(),
            triangle: Seq::empty(),
            noise: Seq::empty(),
            dcm: Seq::empty(),
        }
    }
}

impl Song {
    /// Whether the loop point names one of the song's own segments.
    pub open spec fn loop_in_range(&self) -> bool {
        (self.loop_index as int) < self.segments@.len()
    }

    /// Tests whether the loop point names one of the song's own segments.
    /// Decoding takes the loop point from the ROM as it is, so a consumer that
    /// means to jump there asks first.
    pub fn has_valid_loop(&self) -> (ok: bool)
        ensures
            ok == self.loop_in_range(),
    {
        (self.loop_index as usize) < self.segments.len()
    }
}

} // verus!
