//! The architectures that the kernel runs on.
//!
//! What differs between them is decided by a value of [`Arch`], so that all of
//! them are covered at once. All are little-endian.

use vstd::prelude::*;

verus! {

/// An architecture.
#[derive(Debug, Clone, Copy, PartialEq, Eq, Structural)]
pub enum Arch {
    /// 64-bit x86.
    X86_64,
    /// 64-bit ARM.
    Aarch64,
    /// 64-bit RISC-V.
    Riscv64,
    /// 64-bit LoongArch.
    Loongarch64,
}

} // verus!
