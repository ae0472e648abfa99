use lc3sim::cpu::{Flags, CPU};
use lc3sim::fault::Fault;
use lc3sim::instructions::Instruction;
use lc3sim::run::Stop;

fn image(origin: u16, words: &[u16]) -> Vec<u8> {
    let mut bytes = vec![(origin >> 8) as u8, origin as u8];
    for word in words {
        bytes.push((word >> 8) as u8);
        bytes.push(*word as u8);
    }
    bytes
}

fn loaded(origin: u16, words: &[u16]) -> CPU {
    let mut cpu = CPU::initiate();
    cpu.load_instructions(&image(origin, words)).unwrap();
    cpu
}

#[test]
fn fetch_decodes_the_word_at_the_program_counter() {
    let mut cpu = loaded(0x3000, &[0x107F, 0xF025]);
    cpu.fetch_instruction();
    assert_eq!(cpu.instruction, Some(Instruction::ADD(0, 1, true, 0x1f)));
    assert_eq!(cpu.pc, 0x3000);
    cpu.pc = 0x3001;
    cpu.fetch_instruction();
    assert_eq!(cpu.instruction, Some(Instruction::TRAP(0x25)));
}

#[test]
fn execute_before_any_fetch_faults() {
    let mut cpu = CPU::initiate();
    assert_eq!(cpu.execute(None), Err(Fault::NoInstruction));
    assert_eq!(cpu.pc, 0x3000);
}

#[test]
fn a_cycle_moves_the_program_counter_by_one() {
    let mut cpu = loaded(0x3000, &[0x1021]); // ADD R0, R0, #1
    cpu.fetch_instruction();
    assert_eq!(cpu.execute(None), Ok(vec![]));
    assert_eq!(cpu.pc, 0x3001);
    assert_eq!(cpu.register_read(0), Ok(1));
}

#[test]
fn the_program_counter_wraps_after_the_last_word() {
    let mut cpu = loaded(0xFFFF, &[0x1021]);
    cpu.fetch_instruction();
    assert_eq!(cpu.execute(None), Ok(vec![]));
    assert_eq!(cpu.pc, 0x0000);
}

#[test]
fn a_taken_branch_lands_relative_to_the_next_instruction() {
    // BRnzp #2 at 0x3000: the next instruction is 0x3001, the target 0x3003
    let mut cpu = loaded(0x3000, &[0x0E02]);
    cpu.fetch_instruction();
    cpu.execute(None).unwrap();
    assert_eq!(cpu.pc, 0x3003);
}

#[test]
fn a_fault_leaves_the_program_counter_on_the_instruction() {
    let mut cpu = loaded(0x3000, &[0xF0FF]);
    cpu.fetch_instruction();
    assert_eq!(cpu.execute(None), Err(Fault::UnknownTrap(0xFF)));
    assert_eq!(cpu.pc, 0x3000);
    assert!(!cpu.is_finished);
}

#[test]
fn awaits_input_only_before_a_keyboard_trap() {
    let mut cpu = loaded(0x3000, &[0xF020, 0xF023, 0xF021, 0xF025, 0x1021]);
    assert!(!cpu.awaits_input());
    let expected = [true, true, false, false, false];
    for (i, want) in expected.iter().enumerate() {
        cpu.pc = 0x3000 + i as u16;
        cpu.fetch_instruction();
        assert_eq!(cpu.awaits_input(), *want);
    }
}

#[test]
fn jsr_then_jmp_through_r7_returns_after_the_call() {
    // 0x3000: JSR #4 (to 0x3005); 0x3005: JMP R7
    let mut cpu = loaded(0x3000, &[0x4804, 0, 0, 0, 0, 0xC1C0]);
    cpu.fetch_instruction();
    cpu.execute(None).unwrap();
    assert_eq!(cpu.pc, 0x3005);
    cpu.fetch_instruction();
    assert_eq!(cpu.instruction, Some(Instruction::JMP(7)));
    cpu.execute(None).unwrap();
    assert_eq!(cpu.pc, 0x3001);
}

#[test]
fn jsrr_then_jmp_through_r7_returns_after_the_call() {
    // 0x3000: JSRR R2 with R2 = 0x4000, so that the subroutine is at 0x4001
    let mut cpu = loaded(0x3000, &[0x4080]);
    cpu.register_write(2, 0x4000).unwrap();
    cpu.memory_write(0x4001, 0xC1C0);
    cpu.fetch_instruction();
    cpu.execute(None).unwrap();
    assert_eq!(cpu.pc, 0x4001);
    cpu.fetch_instruction();
    cpu.execute(None).unwrap();
    assert_eq!(cpu.pc, 0x3001);
}

#[test]
fn a_program_of_halt_alone_runs_the_loop_once() {
    let mut cpu = loaded(0x3000, &[0xF025]);
    let mut cycles = 0;
    let mut printed = Vec::new();
    loop {
        cpu.fetch_instruction();
        printed.extend(cpu.execute(None).unwrap());
        cycles += 1;
        if cpu.is_finished {
            break;
        }
    }
    cpu.terminate();
    assert_eq!(cycles, 1);
    assert!(cpu.is_finished);
    assert_eq!(cpu.pc, 0x3001);
    assert_eq!(printed, b"HALT".to_vec());
}

#[test]
fn run_of_halt_alone_takes_one_cycle() {
    let mut cpu = loaded(0x3000, &[0xF025]);
    let outcome = cpu.run(&[], 1000);
    assert_eq!(outcome.cycles, 1);
    assert_eq!(outcome.stop, Stop::Halted);
    assert_eq!(outcome.consumed, 0);
    assert_eq!(outcome.output, b"HALT".to_vec());
    assert!(cpu.is_finished);
    assert_eq!(cpu.pc, 0x3001);
}

#[test]
fn run_with_no_cycles_does_nothing() {
    let mut cpu = loaded(0x3000, &[0xF025]);
    let outcome = cpu.run(&[1, 2], 0);
    assert_eq!(outcome.cycles, 0);
    assert_eq!(outcome.stop, Stop::OutOfCycles);
    assert_eq!(outcome.consumed, 0);
    assert_eq!(outcome.output, Vec::<u8>::new());
    assert_eq!(cpu.pc, 0x3000);
    assert_eq!(cpu.instruction, None);
}

#[test]
fn run_prints_a_string_and_halts() {
    // LEA R0, #3 (three words on from the LEA itself); PUTS; HALT; "HI"
    let mut cpu = loaded(0x3000, &[0xE003, 0xF022, 0xF025, 0x0048, 0x0049, 0x0000]);
    let outcome = cpu.run(&[], 100);
    assert_eq!(outcome.stop, Stop::Halted);
    assert_eq!(outcome.cycles, 3);
    assert_eq!(outcome.output, b"HIHALT".to_vec());
    assert_eq!(cpu.register_read(0), Ok(0x3003));
}

#[test]
fn run_echoes_its_input() {
    // IN; GETC; OUT; HALT
    let mut cpu = loaded(0x3000, &[0xF023, 0xF020, 0xF021, 0xF025]);
    let outcome = cpu.run(b"xyz", 100);
    assert_eq!(outcome.stop, Stop::Halted);
    assert_eq!(outcome.cycles, 4);
    assert_eq!(outcome.consumed, 2);
    assert_eq!(outcome.output, b"xyHALT".to_vec());
    assert_eq!(cpu.register_read(0), Ok(b'y' as u16));
}

#[test]
fn run_faults_when_the_input_runs_out() {
    let mut cpu = loaded(0x3000, &[0xF023, 0xF020, 0xF025]);
    let outcome = cpu.run(b"x", 100);
    assert_eq!(outcome.stop, Stop::Faulted(Fault::NoInput));
    assert_eq!(outcome.cycles, 1);
    assert_eq!(outcome.consumed, 1);
    assert_eq!(outcome.output, b"x".to_vec());
    assert_eq!(cpu.pc, 0x3001);
    assert_eq!(cpu.instruction, Some(Instruction::TRAP(0x20)));
}

#[test]
fn run_stops_at_an_unknown_trap() {
    let mut cpu = loaded(0x3000, &[0x1021, 0xF000, 0xF025]);
    let outcome = cpu.run(&[], 100);
    assert_eq!(outcome.stop, Stop::Faulted(Fault::UnknownTrap(0)));
    assert_eq!(outcome.cycles, 1);
    assert_eq!(cpu.pc, 0x3001);
    assert_eq!(cpu.register_read(0), Ok(1));
    assert!(!cpu.is_finished);
}

#[test]
fn run_gives_up_when_the_cycles_are_used() {
    // 0x3000: ADD R0, R0, #1; 0x3001: BRnzp #-2
    let mut cpu = loaded(0x3000, &[0x1021, 0x0FFE]);
    let outcome = cpu.run(&[], 10);
    assert_eq!(outcome.stop, Stop::OutOfCycles);
    assert_eq!(outcome.cycles, 10);
    assert_eq!(cpu.register_read(0), Ok(5));
    assert_eq!(cpu.pc, 0x3000);
    assert_eq!(cpu.flags, Flags { neg: false, zer: false, pos: true });
}

#[test]
fn run_counts_down_in_a_loop() {
    // R0 = 3; loop: R1 += 2, R0 -= 1, BRp loop; HALT
    let program = [
        0x5020, // AND R0, R0, #0
        0x1023, // ADD R0, R0, #3
        0x1262, // ADD R1, R1, #2
        0x103F, // ADD R0, R0, #-1
        0x03FD, // BRp #-3
        0xF025, // HALT
    ];
    let mut cpu = loaded(0x3000, &program);
    let outcome = cpu.run(&[], 1000);
    assert_eq!(outcome.stop, Stop::Halted);
    assert_eq!(outcome.cycles, 2 + 3 * 3 + 1);
    assert_eq!(cpu.register_read(0), Ok(0));
    assert_eq!(cpu.register_read(1), Ok(6));
    assert_eq!(cpu.pc, 0x3006);
}

#[test]
fn run_goes_on_from_a_halted_machine_for_one_cycle_at_least() {
    let mut cpu = loaded(0x3000, &[0xF025, 0x1021]);
    assert_eq!(cpu.run(&[], 5).cycles, 1);
    // the halt flag is still set: the next run stops after its first cycle
    let outcome = cpu.run(&[], 5);
    assert_eq!(outcome.cycles, 1);
    assert_eq!(outcome.stop, Stop::Halted);
    assert_eq!(cpu.register_read(0), Ok(1));
    assert_eq!(cpu.pc, 0x3002);
}
