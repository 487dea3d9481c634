//! Decoding of one channel's byte stream. Every byte falls into exactly one
//! class by its value, and every byte of a stream that decodes yields exactly
//! one instruction, in order.

use vstd::prelude::*;
use crate::error::{ByteTable, DecodeError};
use crate::song::Instruction;
use crate::tables::{
    decode_note, decode_note_options, note_lookup, note_options_lookup, FIRST_OPTIONS_BYTE,
    REST_CODE,
};

verus! {

/// The byte that ends a stream.
pub const END_BYTE: u8 = 0x00;

/// The first byte that stands for a note.
pub const FIRST_NOTE_BYTE: u8 = 0x01;

/// The last byte that stands for a note.
pub const LAST_NOTE_BYTE: u8 = 0x7D;

/// The last byte that sets note options.
pub const LAST_OPTIONS_BYTE: u8 = 0xFE;

/// The byte that bends into the next note.
pub const BEND_BYTE: u8 = 0xFF;

/// What kind of instruction a byte stands for.
#[derive(Clone, Copy, Debug, PartialEq, Eq, Structural)]
pub enum ByteClass {
    /// `0x00`.
    End,
    /// `0x01` to `0x7D`: a pitch code.
    Note,
    /// `0x7E`.
    Rest,
    /// `0x80` to `0xFE`: instrument and note length.
    Options,
    /// `0xFF`.
    Bend,
    /// `0x7F`, which the format assigns no meaning.
    Unassigned,
}

/// The class of a byte: a partition of all byte values by range.
pub open spec fn class_of(byte: u8) -> ByteClass {
    if byte == END_BYTE {
        ByteClass::End
    } else if byte <= LAST_NOTE_BYTE {
        ByteClass::Note
    } else if byte == REST_CODE {
        ByteClass::Rest
    } else if byte < FIRST_OPTIONS_BYTE {
        ByteClass::Unassigned
    } else if byte <= LAST_OPTIONS_BYTE {
        ByteClass::Options
    } else {
        ByteClass::Bend
    }
}

/// Sorts a byte into its class.
pub fn classify(byte: u8) -> (class: ByteClass)
    ensures
        class == class_of(byte),
{
    if byte == END_BYTE {
        ByteClass::End
    } else if byte <= LAST_NOTE_BYTE {
        ByteClass::Note
    } else if byte == REST_CODE {
        ByteClass::Rest
    } else if byte < FIRST_OPTIONS_BYTE {
        ByteClass::Unassigned
    } else if byte <= LAST_OPTIONS_BYTE {
        ByteClass::Options
    } else {
        ByteClass::Bend
    }
}

/// The instruction that a byte stands for, or the reason it stands for none.
/// A note byte stands for the note of its pitch code, an options byte for the
/// options its nibbles select; either may be refused by its table.
pub open spec fn instruction_of(byte: u8) -> Result<Instruction, DecodeError> {
    match class_of(byte) {
        ByteClass::End => Ok(Instruction::End),
        ByteClass::Note => match note_lookup(byte) {
            Ok(frequency) => Ok(Instruction::PlayNote(frequency)),
            Err(e) => Err(e),
        },
        ByteClass::Rest => Ok(Instruction::Rest),
        ByteClass::Options => match note_options_lookup(byte) {
            Ok(options) => Ok(Instruction::SetNoteOptions(options)),
            Err(e) => Err(e),
        },
        ByteClass::Bend => Ok(Instruction::Bend),
        ByteClass::Unassigned => Err(
            DecodeError::UnknownByteValue { table: ByteTable::Channel, value: byte },
        ),
    }
}

/// Decodes one byte of a channel stream.
pub fn decode_instruction(byte: u8) -> (r: Result<Instruction, DecodeError>)
    ensures
        r == instruction_of(byte),
{
    match classify(byte) {
        ByteClass::End => Ok(Instruction::End),
        ByteClass::Note => match decode_note(byte) {
            Ok(frequency) => Ok(Instruction::PlayNote(frequency)),
            Err(e) => Err(e),
        },
        ByteClass::Rest => Ok(Instruction::Rest),
        ByteClass::Options => match decode_note_options(byte) {
            Ok(options) => Ok(Instruction::SetNoteOptions(options)),
            Err(e) => Err(e),
        },
        ByteClass::Bend => Ok(Instruction::Bend),
        ByteClass::Unassigned => Err(
            DecodeError::UnknownByteValue { table: ByteTable::Channel, value: byte },
        ),
    }
}

/// Every byte stands for at most one instruction, and its value alone
/// decides of which kind. The bytes that stand for none are the odd note
/// bytes, `0x7F`, and the options bytes whose length code is `0xF`.
pub proof fn lemma_one_kind_per_byte(byte: u8)
    ensures
        instruction_of(byte) is Err <==> {
            ||| FIRST_NOTE_BYTE <= byte <= LAST_NOTE_BYTE && byte % 2 == 1
            ||| byte == 0x7F
            ||| FIRST_OPTIONS_BYTE <= byte <= LAST_OPTIONS_BYTE && byte % 16 == 0xF
        },
        instruction_of(byte) matches Ok(instruction) ==> {
            &&& instruction is End <==> byte == END_BYTE
            &&& instruction is PlayNote <==> FIRST_NOTE_BYTE <= byte <= LAST_NOTE_BYTE
            &&& instruction is Rest <==> byte == REST_CODE
            &&& instruction is SetNoteOptions <==> FIRST_OPTIONS_BYTE <= byte <= LAST_OPTIONS_BYTE
            &&& instruction is Bend <==> byte == BEND_BYTE
        },
{
}

/// The instructions of a byte stream: one per byte, in order. If some byte
/// stands for no instruction, the result is the refusal of the first such
/// byte. An end byte does not cut the stream short: what follows it is decoded
/// like the rest.
pub open spec fn channel_instructions(bytes: Seq<u8>) -> Result<Seq<Instruction>, DecodeError>
    decreases bytes.len(),
{
    if bytes.len() == 0 {
        Ok(Seq::empty())
    } else {
        match channel_instructions(bytes.drop_last()) {
            Err(e) => Err(e),
            Ok(before) => match instruction_of(bytes.last()) {
                Ok(instruction) => Ok(before.push(instruction)),
                Err(e) => Err(e),
            },
        }
    }
}

/// A stream decodes to as many instructions as it has bytes, each the
/// instruction of the byte in its place; and a stream that does not decode
/// is refused for its first byte that stands for no instruction.
pub proof fn lemma_channel_is_bytewise(bytes: Seq<u8>)
    ensures
        match channel_instructions(bytes) {
            Ok(instructions) => {
                &&& instructions.len() == bytes.len()
                &&& forall|i: int|
                    0 <= i < bytes.len() ==> instruction_of(#[trigger] bytes[i]) == Ok::<
                        Instruction,
                        DecodeError,
                    >(instructions[i])
            },
            Err(e) => exists|i: int|
                {
                    &&& 0 <= i < bytes.len()
                    &&& instruction_of(#[trigger] bytes[i]) == Err::<Instruction, DecodeError>(e)
                    &&& forall|j: int| 0 <= j < i ==> instruction_of(#[trigger] bytes[j]) is Ok
                },
        },
    decreases bytes.len(),
{
    if bytes.len() > 0 {
        let front = bytes.drop_last();
        lemma_channel_is_bytewise(front);
        match channel_instructions(front) {
            Err(e) => {
                let i = choose|i: int|
                    {
                        &&& 0 <= i < front.len()
                        &&& instruction_of(#[trigger] front[i]) == Err::<Instruction, DecodeError>(
                            e,
                        )
                        &&& forall|j: int| 0 <= j < i ==> instruction_of(#[trigger] front[j]) is Ok
                    };
                assert(bytes[i] == front[i]);
                assert forall|j: int| 0 <= j < i implies instruction_of(#[trigger] bytes[j]) is Ok by {
                    assert(bytes[j] == front[j]);
                }
            },
            Ok(before) => {
                assert forall|j: int| 0 <= j < front.len() implies instruction_of(
                    #[trigger] bytes[j],
                ) is Ok && instruction_of(bytes[j]) == Ok::<Instruction, DecodeError>(before[j]) by {
                    assert(bytes[j] == front[j]);
                }
                let last = bytes.len() - 1;
                assert(bytes[last] == bytes.last());
            },
        }
    }
}

/// Once a prefix of a stream is refused, the whole stream is, for the same
/// reason.
pub proof fn lemma_refusal_is_final(bytes: Seq<u8>, n: int)
    requires
        0 <= n <= bytes.len(),
        channel_instructions(bytes.take(n)) is Err,
    ensures
        channel_instructions(bytes) == channel_instructions(bytes.take(n)),
    decreases bytes.len() - n,
{
    if n < bytes.len() {
        assert(bytes.take(n + 1).drop_last() == bytes.take(n));
        lemma_refusal_is_final(bytes, n + 1);
    } else {
        assert(bytes.take(n) == bytes);
    }
}

/// Decodes the byte stream of one channel.
///
/// Each byte yields one instruction, so a decoded stream is as long as its
/// bytes. The first byte that stands for no instruction makes the whole
/// stream fail with that byte's error.
pub fn decode_channel(bytes: &[u8]) -> (r: Result<Vec<Instruction>, DecodeError>)
    ensures
        match r {
            Ok(instructions) => {
                &&& channel_instructions(bytes@) == Ok::<Seq<Instruction>, DecodeError>(
                    instructions@,
                )
                &&& instructions@.len() == bytes@.len()
                &&& forall|i: int|
                    0 <= i < bytes@.len() ==> instruction_of(#[trigger] bytes@[i]) == Ok::<
                        Instruction,
                        DecodeError,
                    >(instructions@[i])
            },
            Err(e) => {
                &&& channel_instructions(bytes@) == Err::<Seq<Instruction>, DecodeError>(e)
                &&& exists|i: int|
                    {
                        &&& 0 <= i < bytes@.len()
                        &&& instruction_of(#[trigger] bytes@[i]) == Err::<Instruction, DecodeError>(
                            e,
                        )
                        &&& forall|j: int|
                            0 <= j < i ==> instruction_of(#[trigger] bytes@[j]) is Ok
                    }
            },
        },
{
    let mut instructions: Vec<Instruction> = Vec::new();
    let mut i: usize = 0;
    while i < bytes.len()
        invariant
            i <= bytes@.len(),
            channel_instructions(bytes@.take(i as int)) == Ok::<Seq<Instruction>, DecodeError>(
                instructions@,
            ),
        decreases bytes@.len() - i,
    {
        proof {
            assert(bytes@.take(i + 1).drop_last() == bytes@.take(i as int));
            assert(bytes@.take(i + 1).last() == bytes@[i as int]);
        }
        match decode_instruction(bytes[i]) {
            Ok(instruction) => {
                instructions.push(instruction);
            },
            Err(e) => {
                proof {
                    lemma_refusal_is_final(bytes@, i + 1);
                    lemma_channel_is_bytewise(bytes@);
                }
                return Err(e);
            },
        }
        i += 1;
    }
    proof {
        assert(bytes@.take(i as int) == bytes@);
        lemma_channel_is_bytewise(bytes@);
    }
    Ok(instructions)
}

} // verus!
