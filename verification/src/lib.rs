//! A virtual machine for an 8-bit instruction set with 4 KB of memory,
//! sixteen registers, a sixteen-level call stack, a 64x32 monochrome display,
//! two countdown timers and a sixteen-key pad.
//!
//! [`Chip8`] is the machine. [`model`] is its mathematical description:
//! every contract of the machine is stated over [`model::MachineState`], and
//! [`laws`] proves what holds of that description in general.

pub mod chip8;
pub mod consts;
pub mod error;
pub mod instruction;
pub mod laws;
pub mod model;
pub mod sprite;
pub mod utils;

pub use chip8::Chip8;
pub use error::Chip8Error;
pub use instruction::Instruction;
pub use utils::CartridgeReader;
