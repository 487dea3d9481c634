//! What a channel's instructions sound like: the tones that a player emits
//! for them, in order.
//!
//! Note options set the length of the tones that follow. A note and a rest
//! each emit one tone. A bend emits nothing: it makes the next note take the
//! place of the tone emitted last. An end changes nothing, and what follows
//! it is played like the rest.

use vstd::prelude::*;
use crate::song::Instruction;
use crate::tables::REST_FREQUENCY;

verus! {

/// One tone to emit.
#[derive(Clone, Copy, Debug, PartialEq, Eq, Structural)]
pub struct Tone {
    /// Frequency in hundredths of a hertz.
    pub frequency: u32,
    /// Length multiplier in hundredths, as the last note options set it; zero
    /// if none came before.
    pub length: u16,
    /// Whether the tone sounds. A rest is a tone that does not.
    pub audible: bool,
}

/// The state of a player between two instructions.
pub struct Playback {
    /// The tones emitted so far.
    pub tones: Seq<Tone>,
    /// The length that the next tone gets.
    pub length: u16,
    /// Whether a bend waits for its note.
    pub bending: bool,
}

impl Playback {
    /// The state before the first instruction.
    pub open spec fn start() -> Playback {
        Playback { tones: Seq::empty(), length: 0, bending: false }
    }

    /// The tone of a note of the current length.
    pub open spec fn note(self, frequency: u32) -> Tone {
        Tone { frequency, length: self.length, audible: true }
    }

    /// The silent tone of the current length.
    pub open spec fn rest(self) -> Tone {
        Tone { frequency: REST_FREQUENCY, length: self.length, audible: false }
    }

    /// The state after one more instruction. There is none if a note is to
    /// take the place of a tone and no tone was emitted yet.
    pub open spec fn step(self, instruction: Instruction) -> Option<Playback> {
        match instruction {
            Instruction::SetNoteOptions(options) => Some(
                Playback { length: options.duration, ..self },
            ),
            Instruction::PlayNote(frequency) => if !self.bending {
                Some(Playback { tones: self.tones.push(self.note(frequency)), ..self })
            } else if self.tones.len() > 0 {
                Some(
                    Playback {
                        tones: self.tones.drop_last().push(self.note(frequency)),
                        bending: false,
                        ..self
                    },
                )
            } else {
                None
            },
            Instruction::Rest => Some(Playback { tones: self.tones.push(self.rest()), ..self }),
            Instruction::End => Some(self),
            Instruction::Bend => Some(Playback { bending: true, ..self }),
        }
    }
}

/// The state after a whole stream of instructions, played from the start.
pub open spec fn played(instructions: Seq<Instruction>) -> Option<Playback>
    decreases instructions.len(),
{
    if instructions.len() == 0 {
        Some(Playback::start())
    } else {
        match played(instructions.drop_last()) {
            None => None,
            Some(before) => before.step(instructions.last()),
        }
    }
}

/// Playing a stream and then one more instruction is one step from where the
/// stream left off.
pub proof fn lemma_played_push(instructions: Seq<Instruction>, next: Instruction)
    ensures
        played(instructions.push(next)) == match played(instructions) {
            None => None,
            Some(before) => before.step(next),
        },
{
    assert(instructions.push(next).drop_last() =~= instructions);
}

/// A stream that cannot be played cannot be played further either.
pub proof fn lemma_stuck_is_final(instructions: Seq<Instruction>, n: int)
    requires
        0 <= n <= instructions.len(),
        played(instructions.take(n)) is None,
    ensures
        played(instructions) is None,
    decreases instructions.len() - n,
{
    if n < instructions.len() {
        assert(instructions.take(n + 1).drop_last() =~= instructions.take(n));
        lemma_stuck_is_final(instructions, n + 1);
    } else {
        assert(instructions.take(n) =~= instructions);
    }
}

/// A note, a bend and a second note sound like the second note alone: the
/// first is discarded. This holds after every stream.
pub proof fn lemma_bend_discards_first_note(before: Seq<Instruction>, first: u32, second: u32)
    ensures
        played(
            before.push(Instruction::PlayNote(first)).push(Instruction::Bend).push(
                Instruction::PlayNote(second),
            ),
        ) == played(before.push(Instruction::PlayNote(second))),
{
    let one = before.push(Instruction::PlayNote(first));
    let two = one.push(Instruction::Bend);
    lemma_played_push(before, Instruction::PlayNote(first));
    lemma_played_push(one, Instruction::Bend);
    lemma_played_push(two, Instruction::PlayNote(second));
    lemma_played_push(before, Instruction::PlayNote(second));
    match played(before) {
        None => {},
        Some(state) => {
            let kept = if state.bending {
                state.tones.drop_last()
            } else {
                state.tones
            };
            if !state.bending || state.tones.len() > 0 {
                assert(kept.push(state.note(first)).drop_last() =~= kept);
            }
        },
    }
}

/// An end instruction changes nothing of what is played.
pub proof fn lemma_end_is_silent(before: Seq<Instruction>)
    ensures
        played(before.push(Instruction::End)) == played(before),
{
    lemma_played_push(before, Instruction::End);
}

/// No stream emits more tones than it has instructions.
pub proof fn lemma_at_most_one_tone_each(instructions: Seq<Instruction>)
    ensures
        played(instructions) matches Some(state) ==> state.tones.len() <= instructions.len(),
    decreases instructions.len(),
{
    if instructions.len() > 0 {
        lemma_at_most_one_tone_each(instructions.drop_last());
    }
}

/// Lists the tones that a player emits for a channel's instructions.
///
/// The result is `None` exactly if some note is to take the place of a tone,
/// by a bend before it, while no tone has been emitted.
pub fn channel_tones(instructions: &[Instruction]) -> (r: Option<Vec<Tone>>)
    ensures
        match r {
            Some(tones) => played(instructions@) matches Some(state) && state.tones == tones@,
            None => played(instructions@) is None,
        },
{
    let mut tones: Vec<Tone> = Vec::new();
    let mut length: u16 = 0;
    let mut bending: bool = false;
    let mut i: usize = 0;
    while i < instructions.len()
        invariant
            i <= instructions@.len(),
            played(instructions@.take(i as int)) == Some(
                Playback { tones: tones@, length, bending },
            ),
        decreases instructions@.len() - i,
    {
        proof {
            assert(instructions@.take(i + 1).drop_last() =~= instructions@.take(i as int));
            assert(instructions@.take(i + 1).last() == instructions@[i as int]);
        }
        match instructions[i] {
            Instruction::SetNoteOptions(options) => {
                length = options.duration;
            },
            Instruction::PlayNote(frequency) => {
                if bending {
                    if tones.len() == 0 {
                        proof {
                            lemma_stuck_is_final(instructions@, i + 1);
                        }
                        return None;
                    }
                    bending = false;
                    tones.pop();
                }
                tones.push(Tone { frequency, length, audible: true });
            },
            Instruction::Rest => {
                tones.push(Tone { frequency: REST_FREQUENCY, length, audible: false });
            },
            Instruction::End => {},
            Instruction::Bend => {
                bending = true;
            },
        }
        i += 1;
    }
    proof {
        assert(instructions@.take(i as int) =~= instructions@);
    }
    Some(tones)
}

} // verus!
