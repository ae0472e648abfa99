//! The instruction set: decoding a word and carrying out what it says.

use vstd::prelude::*;
use vstd::arithmetic::power2::{pow2, lemma2_to64};
use crate::cpu::{CPU, Machine};
use crate::fault::Fault;

verus! {

const BIT_MASK_11: u16 = 0x7ff;

const BIT_MASK_9: u16 = 0x1ff;

const BIT_MASK_8: u16 = 0xff;

const BIT_MASK_6: u16 = 0x3f;

const BIT_MASK_5: u16 = 0x1f;

const BIT_MASK_3: u16 = 0x7;

/// A decoded instruction. Register operands are indices 0 to 7; offsets and
/// immediates are kept as the raw low bits of the word and sign-extended
/// when the instruction runs.
#[derive(Clone, Copy, Debug, PartialEq, Eq, Structural)]
pub enum Instruction {
    /// Branch: the `n`, `z`, `p` condition bits and a 9-bit offset.
    BR(bool, bool, bool, u16),
    /// Add: destination, first source, immediate mode, low five bits.
    ADD(u16, u16, bool, u16),
    /// Load: destination and a 9-bit offset.
    LD(u16, u16),
    /// Store: source and a 9-bit offset.
    ST(u16, u16),
    /// Jump to subroutine: offset mode and the low eleven bits.
    JSR(bool, u16),
    /// Bitwise and: destination, first source, immediate mode, low five bits.
    AND(u16, u16, bool, u16),
    /// Load relative to a register: destination, base, 6-bit offset.
    LDR(u16, u16, u16),
    /// Store relative to a register: source, base, 6-bit offset.
    STR(u16, u16, u16),
    /// Reserved; does nothing.
    RTI(),
    /// Bitwise complement: destination and source.
    NOT(u16, u16),
    /// Load indirect: destination and a 9-bit offset.
    LDI(u16, u16),
    /// Store indirect: source and a 9-bit offset.
    STI(u16, u16),
    /// Jump to the address in a register.
    JMP(u16),
    /// Reserved; does nothing.
    RES(),
    /// Load effective address: destination and a 9-bit offset.
    LEA(u16, u16),
    /// Call a service routine: the 8-bit trap vector.
    TRAP(u16),
}

/// The `width` bits of `word` that start at bit `low`, as a number.
pub open spec fn field(word: u16, low: nat, width: nat) -> u16 {
    ((word as int / pow2(low) as int) % pow2(width) as int) as u16
}

/// The number that a 16-bit word stands for in two's complement.
pub open spec fn signed(word: u16) -> int {
    if word >= 0x8000 {
        word - 0x10000
    } else {
        word as int
    }
}

/// The low `bit_count` bits of `x`, read as a two's-complement number of
/// that width and written as a 16-bit word: where the top bit of the field
/// is set, all higher bits are set too; else they are clear.
pub open spec fn sign_extended(x: u16, bit_count: nat) -> u16 {
    let span = pow2(bit_count) as int;
    let low = x as int % span;
    if 2 * low >= span {
        (low + 0x10000 - span) as u16
    } else {
        low as u16
    }
}

/// The instruction that `word` encodes. The top four bits choose the
/// variant; each of the sixteen values has one.
pub open spec fn decoded(word: u16) -> Instruction {
    let opcode = field(word, 12, 4);
    let first = field(word, 9, 3);
    let second = field(word, 6, 3);
    let immediate = field(word, 5, 1) == 1;
    if opcode == 0 {
        Instruction::BR(
            field(word, 11, 1) == 1,
            field(word, 10, 1) == 1,
            field(word, 9, 1) == 1,
            field(word, 0, 9),
        )
    } else if opcode == 1 {
        Instruction::ADD(first, second, immediate, field(word, 0, 5))
    } else if opcode == 2 {
        Instruction::LD(first, field(word, 0, 9))
    } else if opcode == 3 {
        Instruction::ST(first, field(word, 0, 9))
    } else if opcode == 4 {
        Instruction::JSR(field(word, 11, 1) == 1, field(word, 0, 11))
    } else if opcode == 5 {
        Instruction::AND(first, second, immediate, field(word, 0, 5))
    } else if opcode == 6 {
        Instruction::LDR(first, second, field(word, 0, 6))
    } else if opcode == 7 {
        Instruction::STR(first, second, field(word, 0, 6))
    } else if opcode == 8 {
        Instruction::RTI()
    } else if opcode == 9 {
        Instruction::NOT(first, second)
    } else if opcode == 10 {
        Instruction::LDI(first, field(word, 0, 9))
    } else if opcode == 11 {
        Instruction::STI(first, field(word, 0, 9))
    } else if opcode == 12 {
        Instruction::JMP(second)
    } else if opcode == 13 {
        Instruction::RES()
    } else if opcode == 14 {
        Instruction::LEA(first, field(word, 0, 9))
    } else {
        Instruction::TRAP(field(word, 0, 8))
    }
}

/// The sum of two words, wrapping at 16 bits.
pub open spec fn wrapping_sum(a: u16, b: u16) -> u16 {
    ((a + b) % 0x10000) as u16
}

/// The low eight bits of a word.
pub open spec fn low_byte(word: u16) -> u8 {
    (word % 0x100) as u8
}

/// The high eight bits of a word.
pub open spec fn high_byte(word: u16) -> u8 {
    (word / 0x100) as u8
}

/// The characters of the string that starts at `addr`, one in the low byte
/// of each word, up to the first zero word. The address wraps at the top of
/// memory; at most `limit` words are read.
pub open spec fn word_string(memory: Seq<u16>, addr: u16, limit: nat) -> Seq<u8>
    decreases limit,
{
    if limit == 0 || memory[addr as int] == 0 {
        Seq::empty()
    } else {
        seq![low_byte(memory[addr as int])] + word_string(
            memory,
            wrapping_sum(addr, 1),
            (limit - 1) as nat,
        )
    }
}

/// The one or two characters packed into a word: the low byte, then the
/// high byte unless it is zero.
pub open spec fn packed_chars(word: u16) -> Seq<u8> {
    if high_byte(word) == 0 {
        seq![low_byte(word)]
    } else {
        seq![low_byte(word), high_byte(word)]
    }
}

/// The characters of the packed string that starts at `addr`, up to the
/// first zero word. The address wraps at the top of memory; at most `limit`
/// words are read.
pub open spec fn packed_string(memory: Seq<u16>, addr: u16, limit: nat) -> Seq<u8>
    decreases limit,
{
    if limit == 0 || memory[addr as int] == 0 {
        Seq::empty()
    } else {
        packed_chars(memory[addr as int]) + packed_string(
            memory,
            wrapping_sum(addr, 1),
            (limit - 1) as nat,
        )
    }
}

/// The notice that the halt trap prints.
pub open spec fn halt_notice() -> Seq<u8> {
    seq![0x48u8, 0x41u8, 0x4cu8, 0x54u8]
}

/// Whether the service routine `vector` reads a byte from the keyboard.
pub open spec fn trap_reads(vector: u16) -> bool {
    vector == 0x20 || vector == 0x23
}

/// Why the service routine `vector` cannot run, if it cannot: it is not
/// one of 0x20 to 0x25, or it reads the keyboard and there is no byte.
pub open spec fn trap_fault(vector: u16, input: Option<u8>) -> Option<Fault> {
    if vector < 0x20 || vector > 0x25 {
        Some(Fault::UnknownTrap(vector))
    } else if trap_reads(vector) && input is None {
        Some(Fault::NoInput)
    } else {
        None
    }
}

/// The machine after the service routine `vector` has run.
pub open spec fn trap_effect(vector: u16, m: Machine, input: Option<u8>) -> Machine {
    if trap_reads(vector) {
        m.with_register(0, input->0 as u16)
    } else if vector == 0x25 {
        Machine { is_finished: true, ..m }
    } else {
        m
    }
}

/// The bytes that the service routine `vector` writes to the console.
pub open spec fn trap_output(vector: u16, m: Machine, input: Option<u8>) -> Seq<u8> {
    if vector == 0x21 {
        seq![low_byte(m.reg(0))]
    } else if vector == 0x22 {
        word_string(m.memory, m.reg(0), 0x10000)
    } else if vector == 0x23 {
        seq![input->0]
    } else if vector == 0x24 {
        packed_string(m.memory, m.reg(0), 0x10000)
    } else if vector == 0x25 {
        halt_notice()
    } else {
        Seq::empty()
    }
}

impl Instruction {
    /// The number of the instruction's variant: the four bits that choose
    /// it in an instruction word.
    pub open spec fn opcode(self) -> int {
        match self {
            Instruction::BR(_, _, _, _) => 0,
            Instruction::ADD(_, _, _, _) => 1,
            Instruction::LD(_, _) => 2,
            Instruction::ST(_, _) => 3,
            Instruction::JSR(_, _) => 4,
            Instruction::AND(_, _, _, _) => 5,
            Instruction::LDR(_, _, _) => 6,
            Instruction::STR(_, _, _) => 7,
            Instruction::RTI() => 8,
            Instruction::NOT(_, _) => 9,
            Instruction::LDI(_, _) => 10,
            Instruction::STI(_, _) => 11,
            Instruction::JMP(_) => 12,
            Instruction::RES() => 13,
            Instruction::LEA(_, _) => 14,
            Instruction::TRAP(_) => 15,
        }
    }

    /// The first register operand, in the order in which the instruction
    /// uses them, that names no register.
    pub open spec fn bad_register(self) -> Option<u16> {
        match self {
            Instruction::ADD(dst, src, _, _) => first_bad(src, dst),
            Instruction::AND(dst, src, _, _) => first_bad(src, dst),
            Instruction::NOT(dst, src) => first_bad(src, dst),
            Instruction::LDR(dst, base, _) => first_bad(base, dst),
            Instruction::STR(src, base, _) => first_bad(base, src),
            Instruction::LD(dst, _) => first_bad(dst, dst),
            Instruction::LDI(dst, _) => first_bad(dst, dst),
            Instruction::LEA(dst, _) => first_bad(dst, dst),
            Instruction::ST(src, _) => first_bad(src, src),
            Instruction::STI(src, _) => first_bad(src, src),
            Instruction::JMP(base) => first_bad(base, base),
            _ => None,
        }
    }

    /// Whether the instruction reads a byte from the keyboard.
    pub open spec fn reads_input(self) -> bool {
        self matches Instruction::TRAP(vector) && trap_reads(vector)
    }

    /// Why the instruction cannot run on the given input, if it cannot.
    pub open spec fn fault(self, input: Option<u8>) -> Option<Fault> {
        match self.bad_register() {
            Some(reg) => Some(Fault::InvalidRegister(reg)),
            None => match self {
                Instruction::TRAP(vector) => trap_fault(vector, input),
                _ => None,
            },
        }
    }

    /// The machine after the instruction has run on `m`, which it does
    /// before the cycle moves the program counter on. So the program
    /// counter that offsets are counted from, and that a call saves as its
    /// link, is the address of the instruction itself; and the program
    /// counter changes here only where the instruction branches or jumps.
    pub open spec fn effect(self, m: Machine, input: Option<u8>) -> Machine {
        match self {
            Instruction::BR(n, z, p, offset) => {
                if (m.flags.neg && n) || (m.flags.zer && z) || (m.flags.pos && p) {
                    m.with_pc(wrapping_sum(m.pc, sign_extended(offset, 9)))
                } else {
                    m
                }
            },
            Instruction::ADD(dst, src, mode, imr) => {
                m.loaded(dst, wrapping_sum(m.reg(src), second_operand(m, mode, imr)))
            },
            Instruction::AND(dst, src, mode, imr) => {
                m.loaded(dst, m.reg(src) & second_operand(m, mode, imr))
            },
            Instruction::NOT(dst, src) => m.loaded(dst, (0xffff - m.reg(src)) as u16),
            Instruction::LD(dst, offset) => {
                m.loaded(dst, m.mem(wrapping_sum(m.pc, sign_extended(offset, 9))))
            },
            Instruction::LDI(dst, offset) => {
                m.loaded(dst, m.mem(m.mem(wrapping_sum(m.pc, sign_extended(offset, 9)))))
            },
            Instruction::LDR(dst, base, offset) => {
                m.loaded(dst, m.mem(wrapping_sum(m.reg(base), sign_extended(offset, 6))))
            },
            Instruction::LEA(dst, offset) => {
                m.loaded(dst, wrapping_sum(m.pc, sign_extended(offset, 9)))
            },
            Instruction::ST(src, offset) => {
                m.with_memory(wrapping_sum(m.pc, sign_extended(offset, 9)), m.reg(src))
            },
            Instruction::STI(src, offset) => {
                m.with_memory(m.mem(wrapping_sum(m.pc, sign_extended(offset, 9))), m.reg(src))
            },
            Instruction::STR(src, base, offset) => {
                m.with_memory(wrapping_sum(m.reg(base), sign_extended(offset, 6)), m.reg(src))
            },
            Instruction::JMP(base) => m.with_pc(m.reg(base)),
            Instruction::JSR(mode, addr) => {
                let linked = m.with_register(7, m.pc);
                if mode {
                    linked.with_pc(wrapping_sum(m.pc, sign_extended(addr, 11)))
                } else {
                    linked.with_pc(linked.reg(field(addr, 6, 3)))
                }
            },
            Instruction::TRAP(vector) => trap_effect(vector, m, input),
            Instruction::RTI() => m,
            Instruction::RES() => m,
        }
    }

    /// The bytes that the instruction writes to the console when it runs
    /// on `m`.
    pub open spec fn output(self, m: Machine, input: Option<u8>) -> Seq<u8> {
        match self {
            Instruction::TRAP(vector) => trap_output(vector, m, input),
            _ => Seq::empty(),
        }
    }
}

/// The first of two register indices that names no register.
pub open spec fn first_bad(first: u16, second: u16) -> Option<u16> {
    if first >= 8 {
        Some(first)
    } else if second >= 8 {
        Some(second)
    } else {
        None
    }
}

/// The second operand of an addition or a conjunction: the sign-extended
/// five-bit immediate in immediate mode, else the register that the low
/// three bits name.
pub open spec fn second_operand(m: Machine, mode: bool, imr: u16) -> u16 {
    if mode {
        sign_extended(imr, 5)
    } else {
        m.reg(field(imr, 0, 3))
    }
}

/// Widens the low `bit_count` bits of `x` to a word, keeping the sign.
pub fn sign_extend(x: u16, bit_count: u8) -> (r: u16)
    requires
        1 <= bit_count <= 16,
    ensures
        r == sign_extended(x, bit_count as nat),
{
    let span: u32 = 1u32 << (bit_count as u32);
    proof {
        lemma2_to64();
        assert(span == pow2(bit_count as nat)) by {
            vstd::bits::lemma_u32_shl_is_mul(1u32, bit_count as u32);
        }
    }
    let low: u32 = (x as u32) % span;
    if low >= span / 2 {
        (low + 0x10000 - span) as u16
    } else {
        low as u16
    }
}

/// What the masks and shifts of the decoder extract.
proof fn lemma_fields(w: u16)
    ensures
        w >> 12 == field(w, 12, 4),
        (w >> 9) & BIT_MASK_3 == field(w, 9, 3),
        (w >> 6) & BIT_MASK_3 == field(w, 6, 3),
        (w >> 5) & 0x1 == field(w, 5, 1),
        (w >> 11) & 0x1 == field(w, 11, 1),
        (w >> 10) & 0x1 == field(w, 10, 1),
        (w >> 9) & 0x1 == field(w, 9, 1),
        w & BIT_MASK_11 == field(w, 0, 11),
        w & BIT_MASK_9 == field(w, 0, 9),
        w & BIT_MASK_8 == field(w, 0, 8),
        w & BIT_MASK_6 == field(w, 0, 6),
        w & BIT_MASK_5 == field(w, 0, 5),
{
    lemma2_to64();
    assert(w >> 12 == (w / 0x1000) % 0x10) by (bit_vector);
    assert((w >> 9) & 0x7 == (w / 0x200) % 8) by (bit_vector);
    assert((w >> 6) & 0x7 == (w / 0x40) % 8) by (bit_vector);
    assert((w >> 5) & 0x1 == (w / 0x20) % 2) by (bit_vector);
    assert((w >> 11) & 0x1 == (w / 0x800) % 2) by (bit_vector);
    assert((w >> 10) & 0x1 == (w / 0x400) % 2) by (bit_vector);
    assert((w >> 9) & 0x1 == (w / 0x200) % 2) by (bit_vector);
    assert(w & 0x7ff == (w / 1) % 0x800) by (bit_vector);
    assert(w & 0x1ff == (w / 1) % 0x200) by (bit_vector);
    assert(w & 0xff == (w / 1) % 0x100) by (bit_vector);
    assert(w & 0x3f == (w / 1) % 0x40) by (bit_vector);
    assert(w & 0x1f == (w / 1) % 0x20) by (bit_vector);
}

/// Decodes an instruction word. Every word decodes.
pub fn parse(dword: u16) -> (inst: Instruction)
    ensures
        inst == decoded(dword),
{
    proof {
        lemma_fields(dword);
    }
    let opcode: u16 = dword >> 12;
    match opcode {
        0b0000 => Instruction::BR(
            (dword >> 11) & 0x1 == 1,
            (dword >> 10) & 0x1 == 1,
            (dword >> 9) & 0x1 == 1,
            dword & BIT_MASK_9,
        ),
        0b0001 => Instruction::ADD(
            (dword >> 9) & BIT_MASK_3,
            (dword >> 6) & BIT_MASK_3,
            (dword >> 5) & 0x1 == 1,
            dword & BIT_MASK_5,
        ),
        0b0010 => Instruction::LD((dword >> 9) & BIT_MASK_3, dword & BIT_MASK_9),
        0b0011 => Instruction::ST((dword >> 9) & BIT_MASK_3, dword & BIT_MASK_9),
        0b0100 => Instruction::JSR((dword >> 11) & 0x1 == 1, dword & BIT_MASK_11),
        0b0101 => Instruction::AND(
            (dword >> 9) & BIT_MASK_3,
            (dword >> 6) & BIT_MASK_3,
            (dword >> 5) & 0x1 == 1,
            dword & BIT_MASK_5,
        ),
        0b0110 => Instruction::LDR(
            (dword >> 9) & BIT_MASK_3,
            (dword >> 6) & BIT_MASK_3,
            dword & BIT_MASK_6,
        ),
        0b0111 => Instruction::STR(
            (dword >> 9) & BIT_MASK_3,
            (dword >> 6) & BIT_MASK_3,
            dword & BIT_MASK_6,
        ),
        0b1000 => Instruction::RTI(),
        0b1001 => Instruction::NOT((dword >> 9) & BIT_MASK_3, (dword >> 6) & BIT_MASK_3),
        0b1010 => Instruction::LDI((dword >> 9) & BIT_MASK_3, dword & BIT_MASK_9),
        0b1011 => Instruction::STI((dword >> 9) & BIT_MASK_3, dword & BIT_MASK_9),
        0b1100 => Instruction::JMP((dword >> 6) & BIT_MASK_3),
        0b1101 => Instruction::RES(),
        0b1110 => Instruction::LEA((dword >> 9) & BIT_MASK_3, dword & BIT_MASK_9),
        _ => Instruction::TRAP(dword & BIT_MASK_8),
    }
}

/// Collects the string that starts at `start`, one character in each
/// word, up to the first zero word or, where memory holds none, once round
/// the whole of it.
fn read_word_string(cpu: &CPU, start: u16) -> (out: Vec<u8>)
    ensures
        out@ == word_string(cpu@.memory, start, 0x10000),
{
    let mut out: Vec<u8> = Vec::new();
    let mut addr: u16 = start;
    let mut left: u32 = 0x10000;
    while left > 0
        invariant
            word_string(cpu@.memory, start, 0x10000) == out@ + word_string(
                cpu@.memory,
                addr,
                left as nat,
            ),
        ensures
            out@ == word_string(cpu@.memory, start, 0x10000),
        decreases left,
    {
        let c: u16 = cpu.memory_read(addr);
        if c == 0 {
            break ;
        }
        assert(c & 0xff == c % 0x100) by (bit_vector);
        let ghost before = out@;
        let ghost rest = word_string(cpu@.memory, wrapping_sum(addr, 1), (left - 1) as nat);
        out.push((c & BIT_MASK_8) as u8);
        assert(before + (seq![low_byte(c)] + rest) =~= out@ + rest);
        addr = addr.wrapping_add(1);
        left = left - 1;
    }
    out
}

/// Collects the packed string that starts at `start`, two characters in
/// each word, up to the first zero word or, where memory holds none, once
/// round the whole of it.
fn read_packed_string(cpu: &CPU, start: u16) -> (out: Vec<u8>)
    ensures
        out@ == packed_string(cpu@.memory, start, 0x10000),
{
    let mut out: Vec<u8> = Vec::new();
    let mut addr: u16 = start;
    let mut left: u32 = 0x10000;
    while left > 0
        invariant
            packed_string(cpu@.memory, start, 0x10000) == out@ + packed_string(
                cpu@.memory,
                addr,
                left as nat,
            ),
        ensures
            out@ == packed_string(cpu@.memory, start, 0x10000),
        decreases left,
    {
        let c: u16 = cpu.memory_read(addr);
        if c == 0 {
            break ;
        }
        assert(c & 0xff == c % 0x100) by (bit_vector);
        assert(c >> 8 == c / 0x100) by (bit_vector);
        let ghost before = out@;
        let ghost rest = packed_string(cpu@.memory, wrapping_sum(addr, 1), (left - 1) as nat);
        out.push((c & BIT_MASK_8) as u8);
        let high: u16 = c >> 8;
        if high != 0 {
            out.push(high as u8);
        }
        assert(before + (packed_chars(c) + rest) =~= out@ + rest);
        addr = addr.wrapping_add(1);
        left = left - 1;
    }
    out
}

/// Runs the service routine that `trap_code` names and returns what it
/// wrote to the console. `input` is the byte that the keyboard holds for
/// the routines that read one. An unknown vector, or a read without a byte,
/// is a fault and changes nothing.
pub fn interupt(trap_code: u16, cpu: &mut CPU, input: Option<u8>) -> (r: Result<Vec<u8>, Fault>)
    ensures
        match trap_fault(trap_code, input) {
            Some(fault) => r == Err::<Vec<u8>, Fault>(fault) && final(cpu)@ == old(cpu)@,
            None => r is Ok && r->Ok_0@ == trap_output(trap_code, old(cpu)@, input) && final(cpu)@
                == trap_effect(trap_code, old(cpu)@, input),
        },
{
    let mut out: Vec<u8> = Vec::new();
    match trap_code {
        0x20 => {
            match input {
                Some(byte) => {
                    cpu.register_write(0, byte as u16)?;
                },
                None => {
                    return Err(Fault::NoInput);
                },
            }
        },
        0x21 => {
            let c: u16 = cpu.register_read(0)?;
            assert(c & 0xff == c % 0x100) by (bit_vector);
            out.push((c & BIT_MASK_8) as u8);
        },
        0x22 => {
            let start: u16 = cpu.register_read(0)?;
            out = read_word_string(cpu, start);
        },
        0x23 => {
            match input {
                Some(byte) => {
                    out.push(byte);
                    cpu.register_write(0, byte as u16)?;
                },
                None => {
                    return Err(Fault::NoInput);
                },
            }
        },
        0x24 => {
            let start: u16 = cpu.register_read(0)?;
            out = read_packed_string(cpu, start);
        },
        0x25 => {
            out.push(0x48);
            out.push(0x41);
            out.push(0x4c);
            out.push(0x54);
            cpu.is_finished = true;
        },
        _ => {
            return Err(Fault::UnknownTrap(trap_code));
        },
    }
    assert(out@ =~= trap_output(trap_code, old(cpu)@, input));
    Ok(out)
}

/// What the masks and shifts of the executor compute.
proof fn lemma_operands(w: u16)
    ensures
        w & BIT_MASK_3 == field(w, 0, 3) < 8,
        (w >> 6) & BIT_MASK_3 == field(w, 6, 3) < 8,
        !w == 0xffff - w,
{
    lemma2_to64();
    assert(w & 0x7 == (w / 1) % 8) by (bit_vector);
    assert((w >> 6) & 0x7 == (w / 0x40) % 8) by (bit_vector);
    assert(!w == 0xffff - w) by (bit_vector);
}

/// The address `offset` words from `base`, where `offset` is a signed
/// field of `bit_count` bits.
fn offset_address(base: u16, offset: u16, bit_count: u8) -> (addr: u16)
    requires
        1 <= bit_count <= 16,
    ensures
        addr == wrapping_sum(base, sign_extended(offset, bit_count as nat)),
{
    base.wrapping_add(sign_extend(offset, bit_count))
}

/// The second operand of an addition or a conjunction.
fn read_second_operand(cpu: &CPU, mode: bool, imr: u16) -> (value: u16)
    ensures
        value == second_operand(cpu@, mode, imr),
{
    if mode {
        sign_extend(imr, 5)
    } else {
        proof {
            lemma_operands(imr);
        }
        cpu.registers[(imr & BIT_MASK_3) as usize]
    }
}

/// Writes `value` to register `dst` and sets the flags from it.
fn load_register(cpu: &mut CPU, dst: u16, value: u16) -> (r: Result<Vec<u8>, Fault>)
    ensures
        dst < 8 ==> r is Ok && r->Ok_0@ == Seq::<u8>::empty() && final(cpu)@ == old(cpu)@.loaded(
            dst,
            value,
        ),
        dst >= 8 ==> r == Err::<Vec<u8>, Fault>(Fault::InvalidRegister(dst)) && final(cpu)@ == old(
            cpu,
        )@,
{
    cpu.register_write(dst, value)?;
    cpu.update_flags(value);
    Ok(Vec::new())
}

/// Carries out one instruction on `cpu` and returns what it wrote to the
/// console. `input` is the byte that the keyboard holds, for an
/// instruction that reads one. The program counter moves only where the
/// instruction branches or jumps: the step to the next word is left to
/// [`CPU::execute`]. An instruction that cannot run is a fault and changes
/// nothing.
pub fn execute(inst: Instruction, cpu: &mut CPU, input: Option<u8>) -> (r: Result<Vec<u8>, Fault>)
    ensures
        match inst.fault(input) {
            Some(fault) => r == Err::<Vec<u8>, Fault>(fault) && final(cpu)@ == old(cpu)@,
            None => r is Ok && r->Ok_0@ == inst.output(old(cpu)@, input) && final(cpu)@
                == inst.effect(old(cpu)@, input),
        },
        old(cpu).flags.valid() ==> final(cpu).flags.valid(),
{
    match inst {
        Instruction::BR(n, z, p, addr) => {
            if (cpu.flags.zer && z) || (cpu.flags.neg && n) || (cpu.flags.pos && p) {
                cpu.pc = offset_address(cpu.pc, addr, 9);
            }
            Ok(Vec::new())
        },
        Instruction::ADD(dst, src, mode, imr) => {
            let src1: u16 = cpu.register_read(src)?;
            let src2: u16 = read_second_operand(cpu, mode, imr);
            load_register(cpu, dst, src1.wrapping_add(src2))
        },
        Instruction::LD(dst, addr) => {
            let value: u16 = cpu.memory_read(offset_address(cpu.pc, addr, 9));
            load_register(cpu, dst, value)
        },
        Instruction::ST(src, addr) => {
            let value: u16 = cpu.register_read(src)?;
            cpu.memory_write(offset_address(cpu.pc, addr, 9), value);
            Ok(Vec::new())
        },
        Instruction::JSR(mode, addr) => {
            let link: u16 = cpu.pc;
            cpu.register_write(7, link)?;
            if mode {
                cpu.pc = offset_address(link, addr, 11);
            } else {
                proof {
                    lemma_operands(addr);
                }
                cpu.pc = cpu.register_read((addr >> 6) & BIT_MASK_3)?;
            }
            Ok(Vec::new())
        },
        Instruction::AND(dst, src, mode, imr) => {
            let src1: u16 = cpu.register_read(src)?;
            let src2: u16 = read_second_operand(cpu, mode, imr);
            load_register(cpu, dst, src1 & src2)
        },
        Instruction::LDR(dst, base, addr) => {
            let start: u16 = cpu.register_read(base)?;
            let value: u16 = cpu.memory_read(offset_address(start, addr, 6));
            load_register(cpu, dst, value)
        },
        Instruction::STR(src, base, addr) => {
            let start: u16 = cpu.register_read(base)?;
            let value: u16 = cpu.register_read(src)?;
            cpu.memory_write(offset_address(start, addr, 6), value);
            Ok(Vec::new())
        },
        Instruction::RTI() => Ok(Vec::new()),
        Instruction::NOT(dst, src) => {
            let src1: u16 = cpu.register_read(src)?;
            proof {
                lemma_operands(src1);
            }
            load_register(cpu, dst, !src1)
        },
        Instruction::LDI(dst, addr) => {
            let pointer: u16 = cpu.memory_read(offset_address(cpu.pc, addr, 9));
            let value: u16 = cpu.memory_read(pointer);
            load_register(cpu, dst, value)
        },
        Instruction::STI(src, addr) => {
            let value: u16 = cpu.register_read(src)?;
            let pointer: u16 = cpu.memory_read(offset_address(cpu.pc, addr, 9));
            cpu.memory_write(pointer, value);
            Ok(Vec::new())
        },
        Instruction::JMP(reg) => {
            cpu.pc = cpu.register_read(reg)?;
            Ok(Vec::new())
        },
        Instruction::RES() => Ok(Vec::new()),
        Instruction::LEA(dst, addr) => {
            let value: u16 = offset_address(cpu.pc, addr, 9);
            load_register(cpu, dst, value)
        },
        Instruction::TRAP(trap_code) => interupt(trap_code, cpu, input),
    }
}

} // verus!
