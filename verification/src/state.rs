//! The mathematical model of the machine: its state as plain values, and
//! what fetching, executing and running do to it.

use vstd::prelude::*;
use crate::display::{blank, is_grid, spec_collision, spec_draw, HEIGHT, WIDTH};
use crate::error::Chip8Error;
use crate::instruction::{spec_decode, Fields, Instruction};

verus! {

/// Number of bytes of memory; addresses run from 0 to `MEMORY_SIZE - 1`.
pub const MEMORY_SIZE: usize = 4096;

/// Number of general registers, `V0` to `VF`.
pub const REGISTER_COUNT: usize = 16;

/// The address at which a program is loaded and at which execution starts.
pub const PROGRAM_START: usize = 0x200;

/// The register that receives the collision flag of a draw.
pub const FLAG_REGISTER: usize = 0xF;

/// Number of bytes in one instruction.
pub const INSTRUCTION_WIDTH: usize = 2;

/// What an executed instruction leaves to be done with the program counter.
#[derive(Clone, Copy, Debug, PartialEq, Eq, Structural)]
pub enum Flow {
    /// The instruction did not touch the program counter: it is to move on
    /// to the next instruction.
    Advance,
    /// The instruction set the program counter itself: it stays as it is.
    Jump,
}

/// The state of the machine as plain values.
#[verifier::ext_equal]
pub struct MachineState {
    /// The framebuffer, `display[row][column]`.
    pub display: Seq<Seq<bool>>,
    /// The address of the next instruction.
    pub program_counter: nat,
    /// The memory, byte by byte.
    pub ram: Seq<u8>,
    /// The index register `I`.
    pub index_register: u16,
    /// The general registers `V0` to `VF`.
    pub registers: Seq<u8>,
    /// The return addresses of the calls under way, the latest last.
    pub stack: Seq<u16>,
}

impl MachineState {
    /// The parts of a state have their fixed sizes.
    pub open spec fn wf(self) -> bool {
        &&& is_grid(self.display)
        &&& self.ram.len() == MEMORY_SIZE
        &&& self.registers.len() == REGISTER_COUNT
    }
}

/// The memory `ram` with `rom` copied over it from `PROGRAM_START` on.
pub open spec fn spec_load(ram: Seq<u8>, rom: Seq<u8>) -> Seq<u8> {
    Seq::new(
        ram.len(),
        |address: int|
            if PROGRAM_START <= address < PROGRAM_START + rom.len() {
                rom[address - PROGRAM_START]
            } else {
                ram[address]
            },
    )
}

/// The state of a machine just made for the program `rom`: the screen dark,
/// memory zero but for the program, the registers zero, no call under way,
/// and the program counter at the start of the program.
pub open spec fn initial_state(rom: Seq<u8>) -> MachineState {
    MachineState {
        display: blank(),
        program_counter: PROGRAM_START as nat,
        ram: spec_load(Seq::new(MEMORY_SIZE as nat, |address: int| 0u8), rom),
        index_register: 0,
        registers: Seq::new(REGISTER_COUNT as nat, |index: int| 0u8),
        stack: Seq::empty(),
    }
}

/// The instruction at the program counter: the byte there is its upper half,
/// the byte after it the lower half. Both must lie in memory.
pub open spec fn spec_fetch(state: MachineState) -> Result<Instruction, Chip8Error> {
    let pc = state.program_counter as int;
    if pc + 1 < MEMORY_SIZE {
        Ok((state.ram[pc] * 256 + state.ram[pc + 1]) as u16)
    } else {
        Err(Chip8Error::OutOfBounds)
    }
}

/// The sum of two bytes, modulo 256.
pub open spec fn wrapping_sum(a: u8, b: u8) -> u8 {
    ((a + b) % 256) as u8
}

/// Whether instructions of this type are implemented.
pub open spec fn is_implemented(instruction_type: u8) -> bool {
    ||| instruction_type == 0x0
    ||| instruction_type == 0x1
    ||| instruction_type == 0x6
    ||| instruction_type == 0x7
    ||| instruction_type == 0xA
    ||| instruction_type == 0xD
}

/// The state after a draw instruction: the sprite of `fields.n` rows that
/// memory holds at the index register is composed onto the screen at the
/// column in `V[x]` modulo the width and the row in `V[y]` modulo the height,
/// and the flag register is set to 1 if that turned a lit pixel off, else 0.
pub open spec fn spec_draw_instruction(state: MachineState, fields: Fields) -> MachineState {
    let sprite = state.ram.subrange(
        state.index_register as int,
        state.index_register + fields.n,
    );
    let startx = state.registers[fields.x as int] as int % WIDTH as int;
    let starty = state.registers[fields.y as int] as int % HEIGHT as int;
    let flag = if spec_collision(state.display, sprite, startx, starty) {
        1u8
    } else {
        0u8
    };
    MachineState {
        display: spec_draw(state.display, sprite, startx, starty),
        registers: state.registers.update(FLAG_REGISTER as int, flag),
        ..state
    }
}

/// What executing an instruction with the given fields does: the state
/// after it, and whether the program counter is still to be advanced; or the
/// error on which the machine stops, the state being left as it was.
pub open spec fn spec_execute(state: MachineState, fields: Fields) -> Result<
    (MachineState, Flow),
    Chip8Error,
> {
    if fields.instruction_type == 0x0 {
        // Clear the screen.
        Ok((MachineState { display: blank(), ..state }, Flow::Advance))
    } else if fields.instruction_type == 0x1 {
        // Jump.
        Ok((MachineState { program_counter: fields.nnn as nat, ..state }, Flow::Jump))
    } else if fields.instruction_type == 0x6 {
        // Set a register.
        if fields.x < REGISTER_COUNT {
            Ok(
                (
                    MachineState {
                        registers: state.registers.update(fields.x as int, fields.nn),
                        ..state
                    },
                    Flow::Advance,
                ),
            )
        } else {
            Err(Chip8Error::OutOfBounds)
        }
    } else if fields.instruction_type == 0x7 {
        // Add to a register, wrapping round.
        if fields.x < REGISTER_COUNT {
            Ok(
                (
                    MachineState {
                        registers: state.registers.update(
                            fields.x as int,
                            wrapping_sum(state.registers[fields.x as int], fields.nn),
                        ),
                        ..state
                    },
                    Flow::Advance,
                ),
            )
        } else {
            Err(Chip8Error::OutOfBounds)
        }
    } else if fields.instruction_type == 0xA {
        // Set the index register.
        Ok((MachineState { index_register: fields.nnn, ..state }, Flow::Advance))
    } else if fields.instruction_type == 0xD {
        // Draw a sprite.
        if fields.x < REGISTER_COUNT && fields.y < REGISTER_COUNT && state.index_register
            + fields.n <= MEMORY_SIZE {
            Ok((spec_draw_instruction(state, fields), Flow::Advance))
        } else {
            Err(Chip8Error::OutOfBounds)
        }
    } else {
        Err(Chip8Error::UnhandledInstruction)
    }
}

/// One cycle: fetch the instruction at the program counter, decode it,
/// execute it, and move the program counter past it unless the instruction
/// set the program counter itself. On an error there is no next state.
pub open spec fn spec_step(state: MachineState) -> Result<MachineState, Chip8Error> {
    match spec_fetch(state) {
        Err(error) => Err(error),
        Ok(instruction) => match spec_execute(state, spec_decode(instruction)) {
            Err(error) => Err(error),
            Ok((next, Flow::Jump)) => Ok(next),
            Ok((next, Flow::Advance)) => Ok(
                MachineState {
                    program_counter: next.program_counter + INSTRUCTION_WIDTH as nat,
                    ..next
                },
            ),
        },
    }
}

/// Up to `cycles` cycles from `state`: the state reached, and the error that
/// ended the run before its time, if one did. The state that comes with an
/// error is the one in which the failing cycle began.
pub open spec fn spec_run(state: MachineState, cycles: nat) -> (MachineState, Option<Chip8Error>)
    decreases cycles,
{
    if cycles == 0 {
        (state, None)
    } else {
        match spec_step(state) {
            Err(error) => (state, Some(error)),
            Ok(next) => spec_run(next, (cycles - 1) as nat),
        }
    }
}

/// Executing an instruction keeps the state well formed, and no implemented
/// instruction writes to memory or to the call stack.
pub proof fn lemma_execute_keeps_memory(state: MachineState, fields: Fields)
    requires
        state.wf(),
        spec_execute(state, fields) is Ok,
    ensures
        spec_execute(state, fields)->Ok_0.0.wf(),
        spec_execute(state, fields)->Ok_0.0.ram == state.ram,
        spec_execute(state, fields)->Ok_0.0.stack == state.stack,
{
}

/// After a cycle the program counter holds the target of the jump, if the
/// instruction was a jump, and else the address just past the instruction:
/// a jump is never followed by an advance.
pub proof fn lemma_step_program_counter(state: MachineState)
    requires
        spec_step(state) is Ok,
    ensures
        spec_fetch(state) is Ok,
        spec_decode(spec_fetch(state)->Ok_0).instruction_type == 0x1 ==> spec_step(
            state,
        )->Ok_0.program_counter == spec_decode(spec_fetch(state)->Ok_0).nnn,
        spec_decode(spec_fetch(state)->Ok_0).instruction_type != 0x1 ==> spec_step(
            state,
        )->Ok_0.program_counter == state.program_counter + INSTRUCTION_WIDTH,
{
}

/// An instruction of a type that is not implemented stops the machine where
/// it stands: the cycle fails, and a run of any length ends at once with the
/// state untouched.
pub proof fn lemma_unhandled_instruction_stops(state: MachineState, cycles: nat)
    requires
        spec_fetch(state) is Ok,
        !is_implemented(spec_decode(spec_fetch(state)->Ok_0).instruction_type),
        cycles > 0,
    ensures
        spec_step(state) == Err::<MachineState, Chip8Error>(Chip8Error::UnhandledInstruction),
        spec_run(state, cycles) == (state, Some(Chip8Error::UnhandledInstruction)),
{
}

/// Running `first` cycles and then `second` more from where that run ended
/// is the same as running `first + second` cycles in one go; once a run has
/// met an error, running on changes nothing.
pub proof fn lemma_run_append(state: MachineState, first: nat, second: nat)
    ensures
        spec_run(state, first + second) == (match spec_run(state, first).1 {
            None => spec_run(spec_run(state, first).0, second),
            Some(error) => spec_run(state, first),
        }),
    decreases first,
{
    if first > 0 {
        match spec_step(state) {
            Err(error) => {},
            Ok(next) => {
                lemma_run_append(next, (first - 1) as nat, second);
                assert(spec_run(state, first + second) == spec_run(
                    next,
                    ((first - 1) as nat) + second,
                ));
            },
        }
    }
}

} // verus!
