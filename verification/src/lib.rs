//! A headless Game Boy emulator core with a debugger's control surface.

pub mod interface;
pub mod text;
pub mod registers;
pub mod alu;
pub mod model;
pub mod bytes;
pub mod encoding;
pub mod rtc;
pub mod cartridge;
pub mod machine;
pub mod timer;
pub mod ppu;
pub mod io;
pub mod dma;
pub mod bus;
pub mod cpu;
pub mod execute;
pub mod step;
pub mod boot;
pub mod render;
pub mod disasm;
pub mod control;
pub mod snapshot;
pub mod session;
pub mod suite;
pub mod laws;
pub mod quiet;
pub mod instructions;
pub mod interrupts;
pub mod clockwork;
pub mod banking;
pub mod picture;
pub mod stepping;
pub mod memory;
pub mod protocol;
pub mod reports;
pub mod replay;
pub mod watch;
pub mod startup;
