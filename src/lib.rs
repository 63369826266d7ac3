//! Dynamic identification of functions in a compiled binary.
//!
//! The library plans every interaction with a CPU emulator (memory maps,
//! memory writes, register writes, runs) as plain data and decides, from the
//! observed effects, which known library functions a target behaves like.
//! The host program performs the planned actions on a real emulator.
use vstd::prelude::*;

pub mod args;
pub mod calling_convention;
pub mod codec;
pub mod datatypes;
pub mod dirt_engine;
pub mod emu;
pub mod emu_engine;
pub mod linux;
pub mod loader;
pub mod machine;
pub mod vmstate;
