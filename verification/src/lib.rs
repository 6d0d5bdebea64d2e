//! A CHIP-8 virtual machine: sixteen registers, 4 KB of memory, a 64x32
//! monochrome display, a call stack, two timers and a sixteen-key keypad,
//! with every instruction's effect stated over a mathematical model of the
//! machine and proved of the code that runs it.

pub mod alu;
pub mod cpu;
pub mod display;
pub mod error;
pub mod font;
pub mod instruction;
pub mod keypad;
pub mod laws;
pub mod machine;
pub mod random;

pub use cpu::Cpu;
pub use error::Chip8Error;
pub use instruction::Instruction;
