//! The fatal conditions of the machine.

use vstd::prelude::*;

verus! {

/// Why the machine cannot go on. None of these is ever passed over in
/// silence: the operation that meets one reports it and changes nothing.
#[derive(Clone, Copy, Debug, PartialEq, Eq, Structural)]
pub enum Chip8Error {
    /// A memory address or a register number outside its range.
    OutOfBounds,
    /// An instruction whose type is not among the implemented ones.
    UnhandledInstruction,
    /// A program image too long for the memory above the load address.
    RomTooLarge,
}

impl Chip8Error {
    /// A short description of the error, for a diagnostic.
    pub fn message(&self) -> (text: &'static str)
        ensures
            *self == Chip8Error::OutOfBounds ==> text == "Index out of range",
            *self == Chip8Error::UnhandledInstruction ==> text == "Unhandled instruction",
            *self == Chip8Error::RomTooLarge ==> text == "Program does not fit in memory",
    {
        match self {
            Chip8Error::OutOfBounds => "Index out of range",
            Chip8Error::UnhandledInstruction => "Unhandled instruction",
            Chip8Error::RomTooLarge => "Program does not fit in memory",
        }
    }
}

} // verus!
