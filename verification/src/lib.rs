//! A verified interpreter for the classic 35-opcode 8-bit virtual machine:
//! 4096 bytes of memory, sixteen 8-bit registers, a 16-entry call stack,
//! two countdown timers, a 64x32 monochrome screen drawn by XOR sprites,
//! and a 16-key keypad.

use vstd::prelude::*;

pub mod state;
pub mod emu;
pub mod semantics;
pub mod ops;
pub mod step;
pub mod laws;

verus! {

/// A fault that stops the current step without changing the machine,
/// or rejects a program image at load time.
#[derive(Clone, Copy, Debug, PartialEq, Eq, Structural)]
pub enum Fault {
    /// The program counter does not leave room for a two-byte fetch.
    FetchOutOfBounds,
    /// An opcode would read or write memory past address 4095.
    MemoryOutOfBounds,
    /// A key-test opcode named a key index past 15.
    KeyOutOfBounds,
    /// A call was made with the 16-entry call stack already full.
    StackOverflow,
    /// A return was made with the call stack empty.
    StackUnderflow,
    /// A program image longer than the 3584 loadable bytes was rejected.
    RomTooLong,
}

} // verus!
