//! An interpreter for a small subset of the CHIP-8 instruction set: clear
//! the screen, jump, set and add to a register, set the index register, and
//! draw a sprite.
//!
//! [`Chip8Cpu`] owns the whole machine: memory, registers, program counter,
//! call stack and display. Every operation on it is specified against the
//! model of the module [`state`], and none of them panics: what cannot be
//! done is reported as a [`Chip8Error`] and leaves the machine as it was.

pub mod display;
pub mod error;
pub mod instruction;
pub mod state;

use vstd::prelude::*;
use vstd::slice::slice_subrange;
use crate::display::{Display, HEIGHT, WIDTH};
use crate::error::Chip8Error;
use crate::instruction::{
    get_byte_from_u16, get_nibble_from_byte, spec_decode, Fields, Instruction,
};
use crate::state::{
    initial_state, is_implemented, spec_execute, spec_fetch, spec_load, spec_run, spec_step,
    Flow, MachineState, FLAG_REGISTER, INSTRUCTION_WIDTH, MEMORY_SIZE, PROGRAM_START,
    REGISTER_COUNT,
};

verus! {

/// The machine.
pub struct Chip8Cpu {
    display: Display,
    program_counter: usize,
    ram: [u8; MEMORY_SIZE],
    index_register: u16,
    register: [u8; REGISTER_COUNT],
    stack: Vec<u16>,
}

impl View for Chip8Cpu {
    type V = MachineState;

    closed spec fn view(&self) -> MachineState {
        MachineState {
            display: self.display@,
            program_counter: self.program_counter as nat,
            ram: self.ram@,
            index_register: self.index_register,
            registers: self.register@,
            stack: self.stack@,
        }
    }
}

impl Chip8Cpu {
    /// The state of a machine is always well formed, and its program counter
    /// is a machine word.
    pub proof fn lemma_view_wf(&self)
        ensures
            self@.wf(),
            self@.program_counter <= usize::MAX,
    {
        self.display.lemma_view_is_grid();
    }

    /// A machine with `rom` loaded, ready to run it from its first
    /// instruction. A program that does not fit between the load address
    /// and the end of memory is refused.
    pub fn new(rom: &[u8]) -> (result: Result<Chip8Cpu, Chip8Error>)
        ensures
            rom@.len() <= MEMORY_SIZE - PROGRAM_START ==> result is Ok && result->Ok_0@
                == initial_state(rom@),
            rom@.len() > MEMORY_SIZE - PROGRAM_START ==> result is Err && result->Err_0
                == Chip8Error::RomTooLarge,
    {
        let mut chip8_cpu = Chip8Cpu {
            display: Display::new(),
            program_counter: PROGRAM_START,
            ram: [0;MEMORY_SIZE],
            index_register: 0,
            register: [0;REGISTER_COUNT],
            stack: Vec::new(),
        };
        match chip8_cpu.load_rom(rom) {
            Ok(_) => {
                Ok(chip8_cpu)
            },
            Err(error) => Err(error),
        }
    }

    /// Copies `rom` into memory from the load address on, and leaves the
    /// rest of the machine alone. A program that does not fit between the
    /// load address and the end of memory is refused.
    pub fn load_rom(&mut self, rom: &[u8]) -> (result: Result<(), Chip8Error>)
        ensures
            rom@.len() <= MEMORY_SIZE - PROGRAM_START ==> result is Ok && final(self)@ == (
            MachineState { ram: spec_load(old(self)@.ram, rom@), ..old(self)@ }),
            rom@.len() > MEMORY_SIZE - PROGRAM_START ==> result == Err::<(), Chip8Error>(
                Chip8Error::RomTooLarge,
            ) && final(self)@ == old(self)@,
    {
        if rom.len() > MEMORY_SIZE - PROGRAM_START {
            return Err(Chip8Error::RomTooLarge);
        }
        let mut i: usize = 0;
        while i < rom.len()
            invariant
                i <= rom@.len() <= MEMORY_SIZE - PROGRAM_START,
                self@ == (MachineState { ram: self@.ram, ..old(self)@ }),
                forall|address: int|
                    0 <= address < MEMORY_SIZE ==> #[trigger] self.ram[address] == (if PROGRAM_START
                        <= address < PROGRAM_START + i {
                        rom@[address - PROGRAM_START]
                    } else {
                        old(self).ram[address]
                    }),
            decreases rom@.len() - i,
        {
            self.ram[PROGRAM_START + i] = rom[i];
            i += 1;
        }
        Ok(())
    }

    /// The byte of memory at `address`, or an error where there is no such
    /// address.
    pub fn read_memory(&self, address: usize) -> (result: Result<u8, Chip8Error>)
        ensures
            address < MEMORY_SIZE ==> result == Ok::<u8, Chip8Error>(self@.ram[address as int]),
            address >= MEMORY_SIZE ==> result == Err::<u8, Chip8Error>(Chip8Error::OutOfBounds),
    {
        if address < MEMORY_SIZE {
            Ok(self.ram[address])
        } else {
            Err(Chip8Error::OutOfBounds)
        }
    }

    /// Stores `value` in memory at `address` and changes nothing else, or
    /// changes nothing at all and reports an error where there is no such
    /// address.
    pub fn write_memory(&mut self, address: usize, value: u8) -> (result: Result<(), Chip8Error>)
        ensures
            address < MEMORY_SIZE ==> result is Ok && final(self)@ == (MachineState {
                ram: old(self)@.ram.update(address as int, value),
                ..old(self)@
            }),
            address >= MEMORY_SIZE ==> result == Err::<(), Chip8Error>(Chip8Error::OutOfBounds)
                && final(self)@ == old(self)@,
    {
        if address < MEMORY_SIZE {
            self.ram[address] = value;
            Ok(())
        } else {
            Err(Chip8Error::OutOfBounds)
        }
    }

    /// The value of the general register number `index`, or an error where
    /// there is no such register.
    pub fn read_register(&self, index: usize) -> (result: Result<u8, Chip8Error>)
        ensures
            index < REGISTER_COUNT ==> result == Ok::<u8, Chip8Error>(
                self@.registers[index as int],
            ),
            index >= REGISTER_COUNT ==> result == Err::<u8, Chip8Error>(Chip8Error::OutOfBounds),
    {
        if index < REGISTER_COUNT {
            Ok(self.register[index])
        } else {
            Err(Chip8Error::OutOfBounds)
        }
    }

    /// Sets the general register number `index` to `value` and changes
    /// nothing else, or changes nothing at all and reports an error where
    /// there is no such register.
    pub fn write_register(&mut self, index: usize, value: u8) -> (result: Result<(), Chip8Error>)
        ensures
            index < REGISTER_COUNT ==> result is Ok && final(self)@ == (MachineState {
                registers: old(self)@.registers.update(index as int, value),
                ..old(self)@
            }),
            index >= REGISTER_COUNT ==> result == Err::<(), Chip8Error>(Chip8Error::OutOfBounds)
                && final(self)@ == old(self)@,
    {
        if index < REGISTER_COUNT {
            self.register[index] = value;
            Ok(())
        } else {
            Err(Chip8Error::OutOfBounds)
        }
    }

    /// The index register.
    pub fn index_register(&self) -> (value: u16)
        ensures
            value == self@.index_register,
    {
        self.index_register
    }

    /// Sets the index register and changes nothing else.
    pub fn set_index_register(&mut self, value: u16)
        ensures
            final(self)@ == (MachineState { index_register: value, ..old(self)@ }),
    {
        self.index_register = value;
    }

    /// The program counter.
    pub fn program_counter(&self) -> (address: usize)
        ensures
            address == self@.program_counter,
    {
        self.program_counter
    }

    /// Sets the program counter and changes nothing else. An address outside
    /// memory is accepted here and refused by the next fetch.
    pub fn set_program_counter(&mut self, address: usize)
        ensures
            final(self)@ == (MachineState { program_counter: address as nat, ..old(self)@ }),
    {
        self.program_counter = address;
    }

    /// The return addresses of the calls under way, the latest last.
    pub fn stack(&self) -> (stack: &Vec<u16>)
        ensures
            stack@ == self@.stack,
    {
        &self.stack
    }

    /// The display, for a renderer to read.
    pub fn display(&self) -> (display: &Display)
        ensures
            display@ == self@.display,
    {
        &self.display
    }

    /// The instruction at the program counter, its first byte being the
    /// upper half. The program counter stays where it is. Fails where the
    /// two bytes do not both lie in memory.
    pub fn fetch(&self) -> (result: Result<Instruction, Chip8Error>)
        ensures
            result == spec_fetch(self@),
            self@.program_counter + 1 < MEMORY_SIZE ==> result == Ok::<Instruction, Chip8Error>(
                (self@.ram[self@.program_counter as int] * 256 + self@.ram[self@.program_counter
                    as int + 1]) as u16,
            ),
            self@.program_counter + 1 >= MEMORY_SIZE ==> result == Err::<Instruction, Chip8Error>(
                Chip8Error::OutOfBounds,
            ),
    {
        if self.program_counter >= MEMORY_SIZE - 1 {
            return Err(Chip8Error::OutOfBounds);
        }
        // Instructions are two bytes but memory holds bytes, so assemble it.
        let high = self.ram[self.program_counter] as u16;
        let low = self.ram[self.program_counter + 1] as u16;
        assert(high << 8 == high * 256) by (bit_vector)
            requires
                high < 256,
        ;
        Ok((high << 8) + low)
    }

    /// Splits an instruction into its fields. Every sixteen-bit word decodes.
    pub fn decode(instruction: Instruction) -> (fields: Fields)
        ensures
            fields == spec_decode(instruction),
    {
        let high = get_byte_from_u16(instruction, 0).unwrap();
        let low = get_byte_from_u16(instruction, 1).unwrap();
        let instruction_type = get_nibble_from_byte(high, 0).unwrap();
        let x = get_nibble_from_byte(high, 1).unwrap() as usize;
        let y = get_nibble_from_byte(low, 0).unwrap() as usize;
        let n = get_nibble_from_byte(low, 1).unwrap();
        let nn = low;
        assert((x as u16) << 8 == (x as u16) * 256) by (bit_vector)
            requires
                x < 16,
        ;
        let nnn = ((x as u16) << 8) + (nn as u16);
        Fields { instruction_type, x, y, n, nn, nnn }
    }

    /// Executes a decoded instruction. On success the result says whether
    /// the program counter is still to be advanced; the program counter
    /// itself is changed by a jump only. An instruction of a type that is
    /// not implemented, one that names a register that does not exist, and a
    /// draw whose sprite does not lie in memory are errors, and on an error
    /// the machine is left exactly as it was.
    pub fn execute(&mut self, fields: Fields) -> (result: Result<Flow, Chip8Error>)
        ensures
            (match spec_execute(old(self)@, fields) {
                Ok((state, flow)) => result == Ok::<Flow, Chip8Error>(flow) && final(self)@
                    == state,
                Err(error) => result == Err::<Flow, Chip8Error>(error),
            }),
            result is Err ==> final(self)@ == old(self)@,
            !is_implemented(fields.instruction_type) ==> result == Err::<Flow, Chip8Error>(
                Chip8Error::UnhandledInstruction,
            ),
    {
        proof {
            self.lemma_view_wf();
        }
        match fields.instruction_type {
            0x0 => {
                self.display.clear();
                Ok(Flow::Advance)
            },
            0x1 => {
                self.program_counter = fields.nnn as usize;
                Ok(Flow::Jump)
            },
            0x6 => {
                self.write_register(fields.x, fields.nn)?;
                Ok(Flow::Advance)
            },
            0x7 => {
                let value = self.read_register(fields.x)?;
                self.write_register(fields.x, value.wrapping_add(fields.nn))?;
                Ok(Flow::Advance)
            },
            0xa => {
                self.index_register = fields.nnn;
                Ok(Flow::Advance)
            },
            0xd => {
                let startx = self.read_register(fields.x)? as usize % WIDTH;
                let starty = self.read_register(fields.y)? as usize % HEIGHT;
                let index_register = self.index_register as usize;
                let n = fields.n as usize;
                if index_register + n > MEMORY_SIZE {
                    return Err(Chip8Error::OutOfBounds);
                }
                let sprite = slice_subrange(
                    self.ram.as_slice(),
                    index_register,
                    index_register + n,
                );
                let collision = self.display.draw_sprite(sprite, startx, starty);
                self.register[FLAG_REGISTER] = if collision {
                    1
                } else {
                    0
                };
                Ok(Flow::Advance)
            },
            _ => Err(Chip8Error::UnhandledInstruction),
        }
    }

    /// One cycle: fetches the instruction at the program counter, decodes
    /// and executes it, and moves the program counter past it unless the
    /// instruction set the program counter itself. On an error the machine
    /// is left exactly as it was.
    pub fn step(&mut self) -> (result: Result<(), Chip8Error>)
        ensures
            (match spec_step(old(self)@) {
                Ok(state) => result is Ok && final(self)@ == state,
                Err(error) => result == Err::<(), Chip8Error>(error) && final(self)@ == old(
                    self,
                )@,
            }),
    {
        let instruction = match self.fetch() {
            Ok(instruction) => instruction,
            Err(error) => {
                return Err(error);
            },
        };
        let fields = Chip8Cpu::decode(instruction);
        match self.execute(fields) {
            Ok(Flow::Advance) => {
                self.program_counter += INSTRUCTION_WIDTH;
                Ok(())
            },
            Ok(Flow::Jump) => Ok(()),
            Err(error) => Err(error),
        }
    }

    /// Runs the machine for up to `cycles` cycles and stops at the first
    /// error, which it returns; the machine is then in the state in which the
    /// failing cycle found it. Returns `Ok` when all the cycles were run.
    ///
    /// The instruction set has no halt: a program ends by failing or not at
    /// all. The budget of cycles is what lets a caller regain control, to
    /// render, to pace the machine or to stop it, and then run on: by
    /// `lemma_run_append`, runs made one after the other add up to one run.
    pub fn main_loop(&mut self, cycles: usize) -> (result: Result<(), Chip8Error>)
        ensures
            final(self)@ == spec_run(old(self)@, cycles as nat).0,
            (match spec_run(old(self)@, cycles as nat).1 {
                None => result is Ok,
                Some(error) => result == Err::<(), Chip8Error>(error),
            }),
    {
        let mut done: usize = 0;
        while done < cycles
            invariant
                done <= cycles,
                spec_run(self@, (cycles - done) as nat) == spec_run(old(self)@, cycles as nat),
            decreases cycles - done,
        {
            match self.step() {
                Ok(_) => {},
                Err(error) => {
                    return Err(error);
                },
            }
            done += 1;
        }
        Ok(())
    }
}

} // verus!
