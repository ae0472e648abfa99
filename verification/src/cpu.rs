//! The machine state and the operations that read and change it.

use vstd::prelude::*;
use crate::fault::Fault;
use crate::instructions::{Instruction, decoded, parse, wrapping_sum};

verus! {

/// How many general-purpose registers the machine has.
pub const NUM_OF_REGISTERS: u16 = 8;

/// The condition flags. After any operation that sets them exactly one is
/// true.
#[derive(Clone, Copy, Debug, PartialEq, Eq, Structural)]
pub struct Flags {
    /// The last value loaded was negative.
    pub neg: bool,
    /// The last value loaded was zero.
    pub zer: bool,
    /// The last value loaded was positive.
    pub pos: bool,
}

impl Flags {
    /// Exactly one of the three flags is set.
    pub open spec fn valid(self) -> bool {
        ||| self.neg && !self.zer && !self.pos
        ||| !self.neg && self.zer && !self.pos
        ||| !self.neg && !self.zer && self.pos
    }

    /// The flags that describe `value` read as a two's-complement number.
    pub open spec fn of(value: u16) -> Flags {
        Flags { neg: value >= 0x8000, zer: value == 0, pos: 0 < value < 0x8000 }
    }
}

/// The mathematical model of a [`CPU`]: what every contract speaks of.
pub struct Machine {
    /// The eight general-purpose registers.
    pub registers: Seq<u16>,
    /// The 65536 words of memory, indexed by address.
    pub memory: Seq<u16>,
    /// The program counter.
    pub pc: u16,
    /// The condition flags.
    pub flags: Flags,
    /// The instruction that was fetched last, if any.
    pub instruction: Option<Instruction>,
    /// Whether the halt trap has run.
    pub is_finished: bool,
}

impl Machine {
    /// The register file and the memory have their full size.
    pub open spec fn wf(self) -> bool {
        self.registers.len() == 8 && self.memory.len() == 0x10000
    }

    /// The machine as it is switched on: everything zero, the program
    /// counter at 0x3000, the zero flag set.
    pub open spec fn reset() -> Machine {
        Machine {
            registers: Seq::new(8, |i: int| 0u16),
            memory: Seq::new(0x10000, |i: int| 0u16),
            pc: 0x3000,
            flags: Flags { neg: false, zer: true, pos: false },
            instruction: None,
            is_finished: false,
        }
    }

    /// The content of register `reg`.
    pub open spec fn reg(self, reg: u16) -> u16 {
        self.registers[reg as int]
    }

    /// The word at address `addr`.
    pub open spec fn mem(self, addr: u16) -> u16 {
        self.memory[addr as int]
    }

    /// This machine with `value` in register `reg`.
    pub open spec fn with_register(self, reg: u16, value: u16) -> Machine {
        Machine { registers: self.registers.update(reg as int, value), ..self }
    }

    /// This machine with `value` at address `addr`.
    pub open spec fn with_memory(self, addr: u16, value: u16) -> Machine {
        Machine { memory: self.memory.update(addr as int, value), ..self }
    }

    /// This machine with the flags set from `value`.
    pub open spec fn with_flags_of(self, value: u16) -> Machine {
        Machine { flags: Flags::of(value), ..self }
    }

    /// This machine after `value` was loaded into register `reg`: the
    /// register holds it and the flags describe it.
    pub open spec fn loaded(self, reg: u16, value: u16) -> Machine {
        self.with_register(reg, value).with_flags_of(value)
    }

    /// This machine after the program image `image` was loaded: the
    /// program counter is at the image's origin, and the words that follow
    /// the origin lie in memory from there on.
    pub open spec fn with_image(self, image: Seq<u8>) -> Machine {
        let origin = image_word(image, 0) as int;
        let words = image.len() / 2 - 1;
        Machine {
            pc: image_word(image, 0),
            memory: Seq::new(
                0x10000,
                |a: int|
                    if origin <= a < origin + words {
                        image_word(image, a - origin + 1)
                    } else {
                        self.memory[a]
                    },
            ),
            ..self
        }
    }

    /// This machine after the word at the program counter was fetched and
    /// decoded.
    pub open spec fn fetching(self) -> Machine {
        Machine { instruction: Some(decoded(self.mem(self.pc))), ..self }
    }

    /// Why the fetched instruction cannot run on the given input, if it
    /// cannot.
    pub open spec fn step_fault(self, input: Option<u8>) -> Option<Fault> {
        match self.instruction {
            Some(inst) => inst.fault(input),
            None => Some(Fault::NoInstruction),
        }
    }

    /// This machine after the fetched instruction has run and the program
    /// counter has then moved on by one word, whether or not the
    /// instruction has set it: a branch lands its offset past the next
    /// instruction, a jump through a register one word past the address
    /// in the register.
    pub open spec fn stepped(self, input: Option<u8>) -> Machine {
        let after = self.instruction->0.effect(self, input);
        after.with_pc(wrapping_sum(after.pc, 1))
    }

    /// The bytes that the fetched instruction writes to the console.
    pub open spec fn step_output(self, input: Option<u8>) -> Seq<u8> {
        self.instruction->0.output(self, input)
    }

    /// Whether the fetched instruction reads a byte from the keyboard.
    pub open spec fn awaits_input(self) -> bool {
        self.instruction matches Some(inst) && inst.reads_input()
    }

    /// This machine with the program counter at `pc`.
    pub open spec fn with_pc(self, pc: u16) -> Machine {
        Machine { pc, ..self }
    }
}

/// Word `index` of a program image: two bytes, the high one first.
pub open spec fn image_word(image: Seq<u8>, index: int) -> u16 {
    (image[2 * index] * 0x100 + image[2 * index + 1]) as u16
}

/// Why a program image cannot be loaded, if it cannot: it holds no whole
/// word, or a half word at its end, or more words than memory has from the
/// origin upwards.
pub open spec fn image_fault(image: Seq<u8>) -> Option<Fault> {
    if image.len() < 2 {
        Some(Fault::EmptyImage)
    } else if image.len() % 2 != 0 || image_word(image, 0) + image.len() / 2 - 1 > 0x10000 {
        Some(Fault::MalformedImage)
    } else {
        None
    }
}

/// Reads word `index` of a program image.
fn read_image_word(image: &[u8], index: usize) -> (word: u16)
    requires
        2 * index + 1 < image.len(),
    ensures
        word == image_word(image@, index as int),
{
    let high: u8 = image[2 * index];
    let low: u8 = image[2 * index + 1];
    assert(((high as u16) << 8) | (low as u16) == high * 0x100 + low) by (bit_vector);
    ((high as u16) << 8) | (low as u16)
}

/// The simulated processor with its memory.
pub struct CPU {
    /// The general-purpose registers.
    pub registers: [u16; 8],
    /// The memory, indexed by address.
    pub memory: [u16; 65536],
    /// The program counter.
    pub pc: u16,
    /// The condition flags.
    pub flags: Flags,
    /// The instruction that was fetched last, if any.
    pub instruction: Option<Instruction>,
    /// Set by the halt trap.
    pub is_finished: bool,
}

impl View for CPU {
    type V = Machine;

    open spec fn view(&self) -> Machine {
        Machine {
            registers: self.registers@,
            memory: self.memory@,
            pc: self.pc,
            flags: self.flags,
            instruction: self.instruction,
            is_finished: self.is_finished,
        }
    }
}

impl CPU {
    /// A processor as it is switched on.
    pub fn initiate() -> (cpu: CPU)
        ensures
            cpu@ == Machine::reset(),
    {
        let cpu = CPU {
            registers: [0; 8],
            memory: [0; 65536],
            pc: 0x3000,
            flags: Flags { neg: false, zer: true, pos: false },
            instruction: None,
            is_finished: false,
        };
        assert(cpu@.registers =~= Machine::reset().registers);
        assert(cpu@.memory =~= Machine::reset().memory);
        cpu
    }

    /// Reads register `reg`; fails on an index that names no register.
    pub fn register_read(&self, reg: u16) -> (r: Result<u16, Fault>)
        ensures
            reg < 8 ==> r == Ok::<u16, Fault>(self@.reg(reg)),
            reg >= 8 ==> r == Err::<u16, Fault>(Fault::InvalidRegister(reg)),
    {
        if reg >= NUM_OF_REGISTERS {
            Err(Fault::InvalidRegister(reg))
        } else {
            Ok(self.registers[reg as usize])
        }
    }

    /// Writes `val` to register `reg`; fails, changing nothing, on an index
    /// that names no register.
    pub fn register_write(&mut self, reg: u16, val: u16) -> (r: Result<(), Fault>)
        ensures
            reg < 8 ==> r == Ok::<(), Fault>(()) && final(self)@ == old(self)@.with_register(reg, val),
            reg >= 8 ==> r == Err::<(), Fault>(Fault::InvalidRegister(reg)) && final(self)@ == old(self)@,
    {
        if reg >= NUM_OF_REGISTERS {
            Err(Fault::InvalidRegister(reg))
        } else {
            self.registers[reg as usize] = val;
            Ok(())
        }
    }

    /// Reads the word at `addr`.
    pub fn memory_read(&self, addr: u16) -> (value: u16)
        ensures
            value == self@.mem(addr),
    {
        self.memory[addr as usize]
    }

    /// Writes `value` at `addr`.
    pub fn memory_write(&mut self, addr: u16, value: u16)
        ensures
            final(self)@ == old(self)@.with_memory(addr, value),
    {
        self.memory[addr as usize] = value;
    }

    /// Sets the flags from `reg_value` read as a two's-complement number:
    /// zero, negative or positive.
    pub fn update_flags(&mut self, reg_value: u16)
        ensures
            final(self)@ == old(self)@.with_flags_of(reg_value),
            final(self).flags.valid(),
    {
        assert((reg_value >> 15 == 1) == (reg_value >= 0x8000)) by (bit_vector);
        if reg_value == 0 {
            self.flags.pos = false;
            self.flags.neg = false;
            self.flags.zer = true;
        } else if reg_value >> 15 == 1 {
            self.flags.pos = false;
            self.flags.neg = true;
            self.flags.zer = false;
        } else {
            self.flags.pos = true;
            self.flags.neg = false;
            self.flags.zer = false;
        }
    }

    /// Loads a program image: big-endian words, the first of which is the
    /// origin. The program counter is set to the origin and the other words
    /// are stored from there on. An image that cannot be loaded is a fault
    /// and changes nothing.
    pub fn load_instructions(&mut self, image: &[u8]) -> (r: Result<(), Fault>)
        ensures
            match image_fault(image@) {
                Some(fault) => r == Err::<(), Fault>(fault) && final(self)@ == old(self)@,
                None => r == Ok::<(), Fault>(()) && final(self)@ == old(self)@.with_image(image@),
            },
    {
        let len: usize = image.len();
        if len < 2 {
            return Err(Fault::EmptyImage);
        }
        let origin: u16 = read_image_word(image, 0);
        let words: usize = len / 2 - 1;
        if len % 2 != 0 || words > 0x10000 - origin as usize {
            return Err(Fault::MalformedImage);
        }
        self.pc = origin;
        let mut done: usize = 0;
        while done < words
            invariant
                done <= words,
                words == image@.len() / 2 - 1,
                image@.len() % 2 == 0,
                origin + words <= 0x10000,
                self.registers == old(self).registers,
                self.flags == old(self).flags,
                self.instruction == old(self).instruction,
                self.is_finished == old(self).is_finished,
                self.pc == origin,
                forall|a: int|
                    0 <= a < 0x10000 ==> self.memory@[a] == if origin <= a < origin + done {
                        image_word(image@, a - origin + 1)
                    } else {
                        old(self).memory@[a]
                    },
            decreases words - done,
        {
            self.memory[origin as usize + done] = read_image_word(image, done + 1);
            done = done + 1;
        }
        assert(self@.memory =~= old(self)@.with_image(image@).memory);
        Ok(())
    }

    /// Fetches the word at the program counter and decodes it.
    pub fn fetch_instruction(&mut self)
        ensures
            final(self)@ == old(self)@.fetching(),
    {
        let dword: u16 = self.memory_read(self.pc);
        self.instruction = Some(parse(dword));
    }

    /// Whether the fetched instruction reads a byte from the keyboard, so
    /// that [`CPU::execute`] must be handed one.
    pub fn awaits_input(&self) -> (b: bool)
        ensures
            b == self@.awaits_input(),
    {
        match self.instruction {
            Some(Instruction::TRAP(vector)) => vector == 0x20 || vector == 0x23,
            _ => false,
        }
    }

    /// Runs the fetched instruction, then moves the program counter on by
    /// one word, and returns what the instruction wrote to the console.
    /// `input` is the byte that the keyboard holds. A fault changes
    /// nothing.
    pub fn execute(&mut self, input: Option<u8>) -> (r: Result<Vec<u8>, Fault>)
        ensures
            match old(self)@.step_fault(input) {
                Some(fault) => r == Err::<Vec<u8>, Fault>(fault) && final(self)@ == old(self)@,
                None => r is Ok && r->Ok_0@ == old(self)@.step_output(input) && final(self)@ == old(
                    self,
                )@.stepped(input),
            },
            old(self).flags.valid() ==> final(self).flags.valid(),
    {
        let inst = match self.instruction {
            Some(i) => i,
            None => {
                return Err(Fault::NoInstruction);
            },
        };
        let out = crate::instructions::execute(inst, self, input)?;
        self.pc = self.pc.wrapping_add(1);
        Ok(out)
    }

    /// Ends a run. The simulator holds nothing that needs releasing.
    pub fn terminate(&self) {
    }
}

} // verus!
