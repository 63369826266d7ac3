//! Fixed layout of the emulated process and the engine's error type.
use vstd::prelude::*;

verus! {

/// Base of the stack region.
pub const STACK_ADDR: u64 = 0x10000000;
/// Size of the stack region.
pub const STACK_SIZE: u64 = 0x10000;
/// Base of the scratch-data region where probe arguments are laid out.
pub const EMUDATA_ADDR: u64 = 0x11000000;
/// Size of the scratch-data region.
pub const EMUDATA_SIZE: u64 = 0x10000;
/// Base of the environment (kernel hand-off) region.
pub const KERNEL_ADDR: u64 = 0x12000000;
/// Size of the environment region.
pub const KERNEL_SIZE: u64 = 0x10000;
/// Base of the thread-local storage region.
pub const TLS_ADDR: u64 = 0x13000000;
/// Size of the thread-local storage region.
pub const TLS_SIZE: u64 = 0x10000;
/// Base of the code-injection region.
pub const SHELLCODE_ADDR: u64 = 0x14000000;
/// Size of the code-injection region.
pub const SHELLCODE_SIZE: u64 = 0x10000;
/// Initial program break, base of the heap region.
pub const BRK_ADDR: u64 = 0x20000000;
/// Size of the heap region.
pub const BRK_SIZE: u64 = 0x10000;
/// Executable page used as the synthetic return address of every probe.
pub const CODE_SENTINEL: u64 = 0x80000000;
/// Size of the sentinel page.
pub const CODE_SENTINEL_SIZE: u64 = 0x1000;
/// Wall-clock budget of one emulated run, in microseconds.
pub const EMU_TIMEOUT: u64 = 1000000;
/// Instruction budget of one emulated run.
pub const EMU_MAXCOUNT: u64 = 0x10000;

/// Read permission bit of a region.
pub const PROT_READ: u32 = 1;
/// Write permission bit of a region.
pub const PROT_WRITE: u32 = 2;
/// Execute permission bit of a region.
pub const PROT_EXEC: u32 = 4;

/// Failures of the address-space manager and of emulated execution.
#[derive(Debug, Clone, Copy, PartialEq, Eq, Structural)]
pub enum Error {
    /// The emulator refused an operation; the value is its error code.
    UnicornError(u32),
    /// A region with the same name is already registered.
    MapAlreadyExists,
    /// A region would overlap one already registered, or is empty, or wraps.
    MapOverlaps,
    /// The stack region has not been registered.
    StackUninitialized,
    /// The scratch-data region has not been registered.
    EmuDataUninitialized,
    /// Emulated execution of the callee stopped on a fault; the value is the
    /// emulator's error code.
    ExecError(u32),
    /// Bytes read back from emulated memory are not UTF-8.
    FromUtf8Error,
    /// The requested operation is not supported.
    NotImplemented,
    /// No snapshot has been captured yet.
    SnapshotMissing,
    /// The captured contents do not match the registered regions.
    SnapshotMismatch,
    /// A write would leave the region it targets.
    OutOfRegion,
}

} // verus!
