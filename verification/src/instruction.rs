//! Instructions and their fields.
//!
//! An instruction is sixteen bits wide. Its four nibbles, from the most
//! significant down, are the instruction type, `X`, `Y` and `N`; the low byte
//! is `NN` and the low twelve bits are `NNN`. The fields share bits, since
//! each type of instruction reads the same bits in its own way.

use vstd::prelude::*;

verus! {

/// A sixteen-bit instruction word.
pub type Instruction = u16;

/// The upper eight bits of a word.
pub open spec fn spec_high_byte(input: u16) -> u8 {
    (input / 256) as u8
}

/// The lower eight bits of a word.
pub open spec fn spec_low_byte(input: u16) -> u8 {
    (input % 256) as u8
}

/// The upper four bits of a byte.
pub open spec fn spec_high_nibble(input: u8) -> u8 {
    input / 16
}

/// The lower four bits of a byte.
pub open spec fn spec_low_nibble(input: u8) -> u8 {
    input % 16
}

/// Byte `index` of `input`, byte 0 being the more significant one. Any index
/// but 0 and 1 is refused.
pub fn get_byte_from_u16(input: u16, index: isize) -> (result: Result<u8, &'static str>)
    ensures
        index == 0 ==> result == Ok::<u8, &'static str>(spec_high_byte(input)),
        index == 1 ==> result == Ok::<u8, &'static str>(spec_low_byte(input)),
        index != 0 && index != 1 ==> result == Err::<u8, &'static str>("Index out of range"),
{
    match index {
        0 => {
            assert(input >> 8 == input / 256) by (bit_vector);
            Ok((input >> 8) as u8)
        },
        1 => Ok((input % 256) as u8),
        _ => Err("Index out of range"),
    }
}

/// Nibble `index` of `input`, nibble 0 being the more significant one. Any
/// index but 0 and 1 is refused.
pub fn get_nibble_from_byte(input: u8, index: isize) -> (result: Result<u8, &'static str>)
    ensures
        index == 0 ==> result == Ok::<u8, &'static str>(spec_high_nibble(input)),
        index == 1 ==> result == Ok::<u8, &'static str>(spec_low_nibble(input)),
        index != 0 && index != 1 ==> result == Err::<u8, &'static str>("Index out of range"),
{
    match index {
        0 => {
            assert(input >> 4 == input / 16) by (bit_vector);
            Ok(input >> 4)
        },
        1 => Ok(input % 16),
        _ => Err("Index out of range"),
    }
}

/// The fields of a decoded instruction. Every instruction has all of them;
/// which ones mean something depends on the instruction type.
#[derive(Clone, Copy, Debug, PartialEq, Eq, Structural)]
pub struct Fields {
    /// The instruction type: bits 12 to 15.
    pub instruction_type: u8,
    /// A register number: bits 8 to 11.
    pub x: usize,
    /// A register number: bits 4 to 7.
    pub y: usize,
    /// A four-bit immediate: bits 0 to 3.
    pub n: u8,
    /// An eight-bit immediate: bits 0 to 7.
    pub nn: u8,
    /// A twelve-bit address: bits 0 to 11.
    pub nnn: u16,
}

/// The fields of `instruction`, each as the number that its bits spell.
pub open spec fn spec_decode(instruction: Instruction) -> Fields {
    Fields {
        instruction_type: (instruction / 4096) as u8,
        x: ((instruction / 256) % 16) as usize,
        y: ((instruction / 16) % 16) as usize,
        n: (instruction % 16) as u8,
        nn: (instruction % 256) as u8,
        nnn: (instruction % 4096) as u16,
    }
}

/// The fields of an instruction are nibbles, a byte and twelve bits of it,
/// and put together again they give the instruction: the type, `X` and `NN`
/// from the top down, where `NN` is `Y` above `N` and `NNN` is `X` above `NN`.
pub proof fn lemma_fields_partition(instruction: Instruction)
    ensures
        spec_decode(instruction).instruction_type < 16,
        spec_decode(instruction).x < 16,
        spec_decode(instruction).y < 16,
        spec_decode(instruction).n < 16,
        spec_decode(instruction).nnn < 4096,
        spec_decode(instruction).nn == spec_decode(instruction).y * 16 + spec_decode(instruction).n,
        spec_decode(instruction).nnn == spec_decode(instruction).x * 256 + spec_decode(
            instruction,
        ).nn,
        instruction == spec_decode(instruction).instruction_type * 4096 + spec_decode(
            instruction,
        ).nnn,
{
}

} // verus!
