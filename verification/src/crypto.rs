//! Register-access capability for the SEJ crypto block.
//!
//! The on-die Security Engine is driven through memory-mapped register
//! reads and writes on the DA's memory-access path.  To keep the
//! crypto layer testable and free of a back-pointer to the device
//! façade, it receives a small capability — the [`CryptoIO`] trait —
//! exposing only `read32`/`write32`, plus the engine's base address in
//! a [`CryptoConfig`].

use vstd::prelude::*;

verus! {

/// A capability for 32-bit register access.  The device façade
/// implements it over the active DA protocol; a test can implement it
/// over a plain map of registers.
pub trait CryptoIO {
    /// Reads the 32-bit register at `addr`.
    fn read32(&mut self, addr: u32) -> u32;

    /// Writes the 32-bit register at `addr`.
    fn write32(&mut self, addr: u32, val: u32);
}

/// The SEJ block's location: its memory-mapped base address.
pub struct CryptoConfig {
    pub sej_base: u32,
}

impl CryptoConfig {
    /// A configuration for the SEJ block at `sej_base`.
    pub fn new(sej_base: u32) -> (r: CryptoConfig)
        ensures
            r.sej_base == sej_base,
    {
        CryptoConfig { sej_base }
    }

    /// Reads a register through the capability.
    pub fn read32<IO: CryptoIO>(&self, io: &mut IO, addr: u32) -> u32 {
        io.read32(addr)
    }

    /// Writes a register through the capability.
    pub fn write32<IO: CryptoIO>(&self, io: &mut IO, addr: u32, val: u32) {
        io.write32(addr, val)
    }
}

} // verus!
