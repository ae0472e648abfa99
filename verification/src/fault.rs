//! The conditions that stop the simulator.

use vstd::prelude::*;

verus! {

/// A fatal condition. None is recovered from: the machine is left as it was
/// before the operation that met it.
#[derive(Clone, Copy, Debug, PartialEq, Eq, Structural)]
pub enum Fault {
    /// The program image is shorter than one word.
    EmptyImage,
    /// The program image has an odd number of bytes, or more words than fit
    /// between its origin and the top of memory.
    MalformedImage,
    /// A register index of 8 or more; carries the index.
    InvalidRegister(u16),
    /// A trap vector that names no service routine; carries the vector.
    UnknownTrap(u16),
    /// A keyboard trap found no byte to read.
    NoInput,
    /// Execution was asked for before any instruction was fetched.
    NoInstruction,
}

} // verus!
