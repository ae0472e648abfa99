//! An instruction-level simulator of the LC-3, a small 16-bit teaching
//! computer: eight registers, a program counter, three condition flags and
//! 65536 words of memory.
//!
//! Every function is verified against a mathematical model of the machine
//! ([`cpu::Machine`]). Console traffic is kept outside: an instruction that
//! reads the keyboard is handed the byte, and one that prints returns the
//! bytes it wrote.

pub mod cpu;
pub mod fault;
pub mod instructions;
pub mod laws;
pub mod run;
