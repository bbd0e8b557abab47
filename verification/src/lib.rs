//! A verified CHIP-8 interpreter core: a 4096-byte memory, sixteen 8-bit
//! registers, a 64×32 monochrome display and a fetch/decode/execute cycle
//! whose effect on the machine state is specified instruction by
//! instruction and proved.
//!
//! Window creation, rendering, keyboard translation and pacing are left to
//! the embedding program, which drives the core through `setup_emulator`,
//! `load_program`, `set_input`, `emulate` and the display read access.

pub mod model;
pub mod machine;
pub mod exec;
pub mod laws;

pub use exec::emulate;
pub use machine::{setup_emulator, load_program, set_input, Chip8Cpu, Interpreter};
pub use model::Chip8Error;
