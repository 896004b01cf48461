//! X60 custom CSRs: MSETUP (0x7C0) for caches, branch prediction and prefetch, and
//! ML2SETUP (0x7F0) for the per-hart L2 snoop bits.
use vstd::prelude::*;
use core::marker::PhantomData;
use crate::mmio::RegOp;

verus! {

/// Bit layout of MSETUP.
pub struct MSetup;
/// Bit layout of ML2SETUP.
pub struct Ml2Setup;

/// A custom CSR at address `ADDR` with bit layout `T`.
pub struct CSR<T, const ADDR: u16>(PhantomData<T>);

impl<T, const ADDR: u16> CSR<T, ADDR> {
    /// Set `flags` in this CSR (`csrs`).
    pub fn enable(plan: &mut Vec<RegOp>, flags: u64)
        ensures
            final(plan)@ == old(plan)@.push(RegOp::CsrSet { csr: ADDR, bits: flags }),
    {
        plan.push(RegOp::CsrSet { csr: ADDR, bits: flags });
    }
}

/// MSETUP: caches, branch prediction and prefetch.
pub type MSetupCSR = CSR<MSetup, 0x7C0>;
/// ML2SETUP: L2 snoop bits of this cluster.
pub type Ml2SetupCSR = CSR<Ml2Setup, 0x7F0>;

/// MSETUP data-cache enable.
pub const MSETUP_D_CACHE: u64 = 1;
/// MSETUP instruction-cache enable.
pub const MSETUP_I_CACHE: u64 = 1 << 1;
/// MSETUP branch prediction unit.
pub const MSETUP_BPU: u64 = 1 << 4;
/// MSETUP hardware prefetch.
pub const MSETUP_PREFETCH: u64 = 1 << 5;
/// ML2SETUP snoop slot 0 (harts 0 and 4).
pub const ML2SETUP_SNOOP_0: u64 = 1;

} // verus!
