//! What holds of the simulator whatever the program: laws that relate the
//! decoder, sign extension and the instructions to one another.

use vstd::prelude::*;
use vstd::arithmetic::power2::{pow2, lemma2_to64, lemma_pow2_unfold, lemma_pow2_strictly_increases};
use vstd::arithmetic::div_mod::lemma_small_mod;
use crate::cpu::{Flags, Machine};
use crate::run::Stop;
use crate::instructions::{
    Instruction,
    decoded,
    field,
    low_byte,
    sign_extended,
    signed,
    word_string,
    wrapping_sum,
};

verus! {

/// Every word decodes, and to the variant that its top four bits number:
/// the sixteen opcodes have one variant each.
pub proof fn decode_is_total(word: u16)
    ensures
        decoded(word).opcode() == word / 0x1000,
        0 <= decoded(word).opcode() < 16,
{
    lemma2_to64();
}

/// The register operands of a decoded instruction are always indices 0 to
/// 7, so a decoded instruction never faults on a register.
pub proof fn decoded_registers_exist(word: u16)
    ensures
        decoded(word).bad_register() is None,
{
    lemma2_to64();
}

/// The powers of two up to the sixteenth fit in a word and double.
proof fn lemma_widths(n: nat)
    requires
        1 <= n <= 16,
    ensures
        pow2(n) == 2 * pow2((n - 1) as nat),
        0 < pow2((n - 1) as nat) <= 0x8000,
{
    lemma2_to64();
    lemma_pow2_unfold(n);
    if n < 16 {
        lemma_pow2_strictly_increases((n - 1) as nat, 15);
    }
    vstd::arithmetic::power2::lemma_pow2_pos((n - 1) as nat);
}

/// Sign extension of a negative field: an `n`-bit field that holds
/// `2^(n-1) + k` stands for `k - 2^(n-1)`, and is extended to the 16-bit
/// word that stands for the same number.
pub proof fn sign_extension_of_negative_field(n: nat, k: nat)
    requires
        1 <= n <= 16,
        k < pow2((n - 1) as nat),
    ensures
        signed(sign_extended((pow2((n - 1) as nat) + k) as u16, n)) == k - pow2((n - 1) as nat),
        sign_extended((pow2((n - 1) as nat) + k) as u16, n) == k - pow2((n - 1) as nat) + 0x10000,
{
    lemma_widths(n);
    let x = pow2((n - 1) as nat) + k;
    lemma_small_mod(x, pow2(n));
}

/// Sign extension of a field that is not negative: an `n`-bit field below
/// `2^(n-1)` is extended to itself.
pub proof fn sign_extension_of_nonnegative_field(n: nat, x: u16)
    requires
        1 <= n <= 16,
        x < pow2((n - 1) as nat),
    ensures
        sign_extended(x, n) == x,
        signed(sign_extended(x, n)) == x,
{
    lemma_widths(n);
    lemma_small_mod(x as nat, pow2(n));
}

/// Sign extension reads only the low `n` bits: all words whose low `n`
/// bits agree are extended alike, and the result stands for a number that
/// an `n`-bit field can hold.
pub proof fn sign_extension_range(n: nat, x: u16)
    requires
        1 <= n <= 16,
    ensures
        -pow2((n - 1) as nat) <= signed(sign_extended(x, n)) < pow2((n - 1) as nat),
        sign_extended(x, n) == sign_extended(field(x, 0, n), n),
{
    lemma_widths(n);
    lemma2_to64();
    let span = pow2(n) as int;
    let low = x as int % span;
    assert(0 <= low < span);
    assert(field(x, 0, n) == low);
    lemma_small_mod(low as nat, span as nat);
}

/// The flags of a value: zero gives Zero, a value with bit 15 set gives
/// Negative, any other gives Positive, and exactly one flag is set.
pub proof fn flags_of_value(value: u16)
    ensures
        Flags::of(value).valid(),
        Flags::of(value).zer <==> value == 0,
        Flags::of(value).neg <==> signed(value) < 0,
        Flags::of(value).pos <==> signed(value) > 0,
{
}

/// Whatever an instruction that runs does, the machine keeps its eight
/// registers and its 65536 words, and flags of which exactly one was set
/// are left so.
pub proof fn effect_keeps_shape(inst: Instruction, m: Machine, input: Option<u8>)
    requires
        m.wf(),
        inst.fault(input) is None,
    ensures
        inst.effect(m, input).wf(),
        m.flags.valid() ==> inst.effect(m, input).flags.valid(),
{
}

/// An instruction that loads a register leaves exactly one flag set, and
/// that flag describes the value now in the register.
pub proof fn load_sets_flags(m: Machine, reg: u16, value: u16)
    requires
        m.wf(),
        reg < 8,
    ensures
        m.loaded(reg, value).reg(reg) == value,
        m.loaded(reg, value).flags == Flags::of(value),
        m.loaded(reg, value).flags.valid(),
{
}

/// The conjunction of two registers that both hold zero is zero and sets
/// the Zero flag.
pub proof fn and_of_zeros(m: Machine, dst: u16, src1: u16, src2: u16)
    requires
        m.wf(),
        dst < 8,
        src1 < 8,
        src2 < 8,
        m.reg(src1) == 0,
        m.reg(src2) == 0,
    ensures
        Instruction::AND(dst, src1, false, src2).effect(m, None).reg(dst) == 0,
        Instruction::AND(dst, src1, false, src2).effect(m, None).flags == (Flags {
            neg: false,
            zer: true,
            pos: false,
        }),
{
    lemma2_to64();
    assert(field(src2, 0, 3) == src2);
    assert(0u16 & 0u16 == 0u16) by (bit_vector);
}

/// A load effective address followed by a load with the same offset from
/// the same program counter: the first yields the address, the second the
/// word that memory holds there.
pub proof fn lea_then_ld(m: Machine, first: u16, second: u16, offset: u16)
    requires
        m.wf(),
        first < 8,
        second < 8,
    ensures
        ({
            let after_lea = Instruction::LEA(first, offset).effect(m, None);
            let after_ld = Instruction::LD(second, offset).effect(after_lea, None);
            &&& after_lea.pc == m.pc
            &&& after_lea.reg(first) == wrapping_sum(m.pc, sign_extended(offset, 9))
            &&& after_ld.reg(second) == m.mem(after_lea.reg(first))
        }),
{
}

/// A jump to a subroutine followed, at any later time at which register 7
/// still holds the link, by a jump through register 7: the program counter
/// comes back to the instruction immediately after the call.
pub proof fn subroutine_returns(m: Machine, mode: bool, addr: u16, later: Machine)
    requires
        m.wf(),
        later.wf(),
        m.instruction == Some(Instruction::JSR(mode, addr)),
        later.instruction == Some(Instruction::JMP(7)),
        later.reg(7) == m.stepped(None).reg(7),
    ensures
        m.step_fault(None) is None,
        later.step_fault(None) is None,
        later.stepped(None).pc == wrapping_sum(m.pc, 1),
{
}

/// Every cycle moves the program counter one word past where the
/// instruction left it: an instruction that neither branches nor jumps
/// is followed by the next word.
pub proof fn cycle_advances(m: Machine, input: Option<u8>)
    requires
        m.instruction is Some,
    ensures
        m.stepped(input).pc == wrapping_sum(m.instruction->0.effect(m, input).pc, 1),
        !(m.instruction->0 is BR || m.instruction->0 is JMP || m.instruction->0 is JSR)
            ==> m.stepped(input).pc == wrapping_sum(m.pc, 1),
{
}

/// A machine whose program counter is at a halt trap runs exactly one
/// cycle, which prints the halt notice and sets the halt flag, however
/// many cycles it is given.
pub proof fn halt_ends_the_run(m: Machine, input: Seq<u8>, limit: nat)
    requires
        m.wf(),
        limit >= 1,
        m.mem(m.pc) == 0xF025,
    ensures
        m.run(input, limit).cycles == 1,
        m.run(input, limit).stop == Stop::Halted,
        m.run(input, limit).machine.is_finished,
        m.run(input, limit).machine.pc == wrapping_sum(m.pc, 1),
        m.run(input, limit).output == crate::instructions::halt_notice(),
        m.run(input, limit).consumed == 0,
{
    lemma2_to64();
    assert(decoded(0xF025) == Instruction::TRAP(0x25));
}

/// A run never takes more cycles than it was given, nor more input than
/// there is, and it ends out of cycles only when it has used them all.
pub proof fn run_stays_in_bounds(m: Machine, input: Seq<u8>, limit: nat)
    ensures
        m.run(input, limit).cycles <= limit,
        m.run(input, limit).consumed <= input.len(),
        m.run(input, limit).stop == Stop::OutOfCycles ==> m.run(input, limit).cycles == limit,
        m.run(input, limit).stop == Stop::Halted <==> m.run(input, limit).cycles > 0 && m.run(
            input,
            limit,
        ).machine.is_finished,
    decreases limit,
{
    if limit > 0 {
        let fetched = m.fetching();
        let byte = fetched.next_input(input);
        if fetched.step_fault(byte) is None {
            let next = fetched.stepped(byte);
            let used: nat = if byte is Some {
                1
            } else {
                0
            };
            if !next.is_finished {
                run_stays_in_bounds(next, input.skip(used as int), (limit - 1) as nat);
            }
        }
    }
}

/// The characters of `text`, one from the low byte of each word.
pub open spec fn low_bytes(text: Seq<u16>) -> Seq<u8> {
    Seq::new(text.len(), |i: int| low_byte(text[i]))
}

/// A string in memory, words that are not zero followed by a zero word, is
/// read whole and nothing after it, wherever it lies and whatever the
/// limit, as long as the limit is above its length.
pub proof fn string_is_written_whole(memory: Seq<u16>, addr: u16, text: Seq<u16>, limit: nat)
    requires
        memory.len() == 0x10000,
        text.len() < limit,
        forall|i: int|
            0 <= i < text.len() ==> text[i] != 0 && memory[(addr + i) % 0x10000] == text[i],
        memory[(addr + text.len()) % 0x10000] == 0,
    ensures
        word_string(memory, addr, limit) == low_bytes(text),
    decreases text.len(),
{
    if text.len() == 0 {
        assert(word_string(memory, addr, limit) =~= low_bytes(text));
    } else {
        let next = wrapping_sum(addr, 1);
        let rest = text.drop_first();
        assert(memory[addr as int] == text[0]);
        assert forall|i: int| 0 <= i < rest.len() implies rest[i] != 0 && memory[(next + i)
            % 0x10000] == rest[i] by {
            assert(rest[i] == text[i + 1]);
            assert((next + i) % 0x10000 == (addr + (i + 1)) % 0x10000);
        }
        assert((next + rest.len()) % 0x10000 == (addr + text.len()) % 0x10000);
        string_is_written_whole(memory, next, rest, (limit - 1) as nat);
        assert(seq![low_byte(text[0])] + low_bytes(rest) =~= low_bytes(text));
    }
}

/// The string trap, with register 0 at a string in memory (words that are
/// not zero, then a zero word), writes exactly the characters of the
/// string, one from the low byte of each word, and nothing after them; it
/// changes nothing in the machine.
pub proof fn puts_writes_the_string(m: Machine, text: Seq<u16>, input: Option<u8>)
    requires
        m.wf(),
        text.len() < 0x10000,
        forall|i: int|
            0 <= i < text.len() ==> text[i] != 0 && m.memory[(m.reg(0) + i) % 0x10000] == text[i],
        m.memory[(m.reg(0) + text.len()) % 0x10000] == 0,
    ensures
        Instruction::TRAP(0x22).fault(input) is None,
        Instruction::TRAP(0x22).output(m, input) == low_bytes(text),
        Instruction::TRAP(0x22).effect(m, input) == m,
{
    string_is_written_whole(m.memory, m.reg(0), text, 0x10000);
}

} // verus!
