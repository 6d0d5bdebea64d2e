use vstd::prelude::*;

verus! {

/// A fatal condition of the machine.
///
/// Every condition that arises while the machine runs carries the instruction
/// word the machine holds at that moment (`insn`) and the address that word
/// was fetched from (`pc`). None of them is ever swallowed: the operation that
/// meets one returns it and leaves the machine as it found it.
#[derive(Clone, Copy, Debug, PartialEq, Eq, Structural)]
pub enum Chip8Error {
    /// The program image is longer than the memory from 0x200 to 0xFFF.
    ProgramTooLarge { len: usize },
    /// An address was computed that lies outside 0x000..=0xFFF and had to be
    /// read or written, or that no longer fits the 16-bit register it was
    /// meant for. `addr` is the first such address (negative when the program
    /// counter was rewound past zero).
    AddressOutOfRange { addr: i32, insn: u16, pc: u16 },
    /// A return was executed while the call stack was empty.
    StackUnderflow { insn: u16, pc: u16 },
    /// A call was executed while the call stack was at its maximum depth.
    StackOverflow { insn: u16, pc: u16 },
    /// The instruction word matches no known opcode pattern.
    UnimplementedInstruction { insn: u16, pc: u16 },
    /// A key instruction named a keypad slot beyond 0xF.
    KeyOutOfRange { key: u8, insn: u16, pc: u16 },
    /// The system's random source reported a failure.
    RandomSourceFailed { insn: u16, pc: u16 },
}

} // verus!
