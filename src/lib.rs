//! A verified core for a Game Boy–class handheld: the register file, ALU
//! flags, the pixel-processing unit (timing state machine, background,
//! window and sprite rendering), cartridge loading with bank switching,
//! the memory bus and the CPU's fetch-decode-execute engine with
//! interrupt dispatch.

pub mod regs;
pub mod alu;
pub mod ppu;
pub mod sprite;
pub mod cartridge;
pub mod bus;
pub mod cpu;
pub mod sync;

