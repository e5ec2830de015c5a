//! A verified CHIP-8 virtual-machine core.
//!
//! The machine interprets the classic CHIP-8 instruction set against a
//! 4096-byte memory, sixteen byte registers, a sixteen-slot call stack,
//! two countdown timers, a 64x32 monochrome display buffer and a
//! sixteen-key input vector.  Decoding is a total function over all
//! 16-bit words; execution is a state transition that either continues,
//! enters a key-wait state, or reports a fatal fault.

use vstd::prelude::*;

pub mod draw;
pub mod exec;
pub mod isa;
pub mod laws;
pub mod machine;
pub mod step;

pub use isa::Instruction;
pub use machine::Emulator;

verus! {

/// A fatal condition raised by the loader or the executor.
///
/// Every fault is unrecoverable at the instruction level: the executor
/// reports it instead of continuing, and the driver decides what to do.
#[derive(Clone, Copy, Debug, PartialEq, Eq, Structural)]
pub enum Chip8Error {
    /// The program handed to the loader does not fit in the program region.
    RomTooLarge,
    /// An instruction would read or write outside an internal store:
    /// past the end of the 4096-byte memory, or — for the key-skip
    /// instructions — a key index beyond the sixteen-key vector.
    MemoryAccessViolation,
    /// A subroutine call was made while the call stack already held 16 entries.
    StackOverflow,
    /// A subroutine return was executed with an empty call stack.
    StackUnderflow,
    /// An instruction word that decodes to no known opcode was executed.
    InvalidOpcode,
}

/// What one executed instruction (or one step) reports back to the
/// driver.
#[derive(Clone, Copy, Debug, PartialEq, Eq, Structural)]
pub enum ExecResult {
    /// The instruction completed; execution may continue.
    Continue,
    /// The machine is suspended waiting for a key press; the program
    /// counter must not advance until a key arrives.
    AwaitingKey,
    /// A fatal condition; the machine should not be stepped further.
    Fault(Chip8Error),
}

} // verus!
