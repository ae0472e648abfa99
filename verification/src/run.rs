//! The fetch-execute cycle, repeated until the program halts, faults or
//! has used the cycles it was given.

use vstd::prelude::*;
use crate::cpu::{CPU, Machine};
use crate::fault::Fault;

verus! {

/// Why a run ended.
#[derive(Clone, Copy, Debug, PartialEq, Eq, Structural)]
pub enum Stop {
    /// The halt trap ran.
    Halted,
    /// An instruction could not run; the machine is as it was before it.
    Faulted(Fault),
    /// The cycles that the run was given are used up.
    OutOfCycles,
}

/// What a run did.
pub struct Outcome {
    /// How many instructions ran.
    pub cycles: u64,
    /// How many bytes of the keyboard input were read.
    pub consumed: usize,
    /// The bytes written to the console, in order.
    pub output: Vec<u8>,
    /// Why the run ended.
    pub stop: Stop,
}

/// The model of a run: the machine at its end and what the run did.
pub struct Trace {
    /// The machine when the run ended.
    pub machine: Machine,
    /// How many instructions ran.
    pub cycles: nat,
    /// How many bytes of the keyboard input were read.
    pub consumed: nat,
    /// The bytes written to the console, in order.
    pub output: Seq<u8>,
    /// Why the run ended.
    pub stop: Stop,
}

impl Trace {
    /// This trace after a first cycle that read `consumed` bytes and wrote
    /// `output`.
    pub open spec fn after_cycle(self, consumed: nat, output: Seq<u8>) -> Trace {
        Trace {
            machine: self.machine,
            cycles: self.cycles + 1,
            consumed: self.consumed + consumed,
            output: output + self.output,
            stop: self.stop,
        }
    }
}

impl Machine {
    /// The byte that the fetched instruction is handed: the first of
    /// `input` if the instruction reads the keyboard and there is one.
    pub open spec fn next_input(self, input: Seq<u8>) -> Option<u8> {
        if self.awaits_input() && input.len() > 0 {
            Some(input[0])
        } else {
            None
        }
    }

    /// The run of at most `limit` cycles from this machine with `input` on
    /// the keyboard. Each cycle fetches the word at the program counter,
    /// runs it and moves the program counter on. The run ends after the
    /// first cycle that leaves the halt flag set, or with the instruction
    /// that faults fetched and not run, or when no cycle is left.
    pub open spec fn run(self, input: Seq<u8>, limit: nat) -> Trace
        decreases limit,
    {
        if limit == 0 {
            Trace {
                machine: self,
                cycles: 0,
                consumed: 0,
                output: Seq::empty(),
                stop: Stop::OutOfCycles,
            }
        } else {
            let fetched = self.fetching();
            let byte = fetched.next_input(input);
            match fetched.step_fault(byte) {
                Some(fault) => Trace {
                    machine: fetched,
                    cycles: 0,
                    consumed: 0,
                    output: Seq::empty(),
                    stop: Stop::Faulted(fault),
                },
                None => {
                    let next = fetched.stepped(byte);
                    let used: nat = if byte is Some {
                        1
                    } else {
                        0
                    };
                    let output = fetched.step_output(byte);
                    if next.is_finished {
                        Trace { machine: next, cycles: 1, consumed: used, output, stop: Stop::Halted }
                    } else {
                        next.run(input.skip(used as int), (limit - 1) as nat).after_cycle(
                            used,
                            output,
                        )
                    }
                },
            }
        }
    }
}

impl CPU {
    /// Runs the program from the program counter for at most `max_cycles`
    /// instructions, with `input` as what the keyboard will deliver, and
    /// says how the run ended and what it wrote. The halt flag is looked at
    /// after each cycle, so at least one instruction runs where a cycle is
    /// allowed at all.
    pub fn run(&mut self, input: &[u8], max_cycles: u64) -> (outcome: Outcome)
        ensures
            final(self)@ == old(self)@.run(input@, max_cycles as nat).machine,
            outcome.cycles == old(self)@.run(input@, max_cycles as nat).cycles,
            outcome.consumed == old(self)@.run(input@, max_cycles as nat).consumed,
            outcome.output@ == old(self)@.run(input@, max_cycles as nat).output,
            outcome.stop == old(self)@.run(input@, max_cycles as nat).stop,
    {
        let mut cycles: u64 = 0;
        let mut consumed: usize = 0;
        let mut output: Vec<u8> = Vec::new();
        let mut stop = Stop::OutOfCycles;
        let ghost total = self@.run(input@, max_cycles as nat);
        assert(input@.skip(0) =~= input@);
        assert(output@ + total.output =~= total.output);
        while cycles < max_cycles
            invariant_except_break
                stop == Stop::OutOfCycles,
                ({
                    let rest = self@.run(
                        input@.skip(consumed as int),
                        (max_cycles - cycles) as nat,
                    );
                    &&& total.machine == rest.machine
                    &&& total.cycles == cycles + rest.cycles
                    &&& total.consumed == consumed + rest.consumed
                    &&& total.output == output@ + rest.output
                    &&& total.stop == rest.stop
                }),
            invariant
                cycles <= max_cycles,
                consumed <= input@.len(),
                total == old(self)@.run(input@, max_cycles as nat),
            ensures
                self@ == total.machine,
                cycles == total.cycles,
                consumed == total.consumed,
                output@ == total.output,
                stop == total.stop,
            decreases max_cycles - cycles,
        {
            let ghost before = self@;
            let ghost left = input@.skip(consumed as int);
            let ghost written = output@;
            self.fetch_instruction();
            let byte: Option<u8> = if self.awaits_input() && consumed < input.len() {
                Some(input[consumed])
            } else {
                None
            };
            assert(byte == self@.next_input(left));
            match self.execute(byte) {
                Err(fault) => {
                    stop = Stop::Faulted(fault);
                    assert(written + Seq::<u8>::empty() =~= written);
                    break ;
                },
                Ok(mut out) => {
                    let ghost emitted = out@;
                    output.append(&mut out);
                    cycles = cycles + 1;
                    if byte.is_some() {
                        consumed = consumed + 1;
                        assert(left.skip(1) =~= input@.skip(consumed as int));
                    } else {
                        assert(left.skip(0) =~= input@.skip(consumed as int));
                    }
                    if self.is_finished {
                        stop = Stop::Halted;
                        break ;
                    }
                    let ghost rest = self@.run(
                        input@.skip(consumed as int),
                        (max_cycles - cycles) as nat,
                    );
                    assert(written + (emitted + rest.output) =~= output@ + rest.output);
                },
            }
        }
        Outcome { cycles, consumed, output, stop }
    }
}

} // verus!
