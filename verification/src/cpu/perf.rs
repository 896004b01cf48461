//! Branch prediction, prefetch and L2 snoop enables.
use vstd::prelude::*;
use crate::mmio::RegOp;
use crate::cpu::csr::{MSetupCSR, Ml2SetupCSR, MSETUP_BPU, MSETUP_PREFETCH, ML2SETUP_SNOOP_0};

verus! {

/// On hart 0: set MSETUP BPU and prefetch (bits 4 and 5), then ML2SETUP snoop slot 0.
pub fn enable_perf_features(plan: &mut Vec<RegOp>)
    ensures
        final(plan)@ == old(plan)@ + seq![
            RegOp::CsrSet { csr: 0x7C0, bits: 0x30 },
            RegOp::CsrSet { csr: 0x7F0, bits: 1 },
        ],
{
    proof { crate::bits::shift_constants(); }
    MSetupCSR::enable(plan, MSETUP_BPU | MSETUP_PREFETCH);
    Ml2SetupCSR::enable(plan, ML2SETUP_SNOOP_0);
    assert(plan@ =~= old(plan)@ + seq![
        RegOp::CsrSet { csr: 0x7C0, bits: 0x30 },
        RegOp::CsrSet { csr: 0x7F0, bits: 1 },
    ]);
}

/// A hart's L2 snoop bit in its cluster's ML2SETUP: `1 << (hartid % 4)`.
pub fn snoop_slot(hartid: u64) -> (bits: u64)
    ensures
        bits == spec_snoop_slot(hartid),
{
    let slot = hartid & 0b11;
    assert((hartid & 0b11) == hartid % 4) by (bit_vector);
    assert(slot < 4 ==> (1u64 << slot) == (if slot == 0 { 1u64 } else if slot == 1 { 2u64 } else if slot == 2 { 4u64 } else { 8u64 }))
        by (bit_vector);
    1u64 << slot
}

/// `1 << (hartid % 4)`.
pub open spec fn spec_snoop_slot(hartid: u64) -> u64 {
    if hartid % 4 == 0 { 1 } else if hartid % 4 == 1 { 2 } else if hartid % 4 == 2 { 4 } else { 8 }
}

/// On a secondary hart: BPU and prefetch, then the hart's snoop bit.
pub fn enable_perf_features_for_secondary_hart(plan: &mut Vec<RegOp>, hartid: u64)
    ensures
        final(plan)@ == old(plan)@ + seq![
            RegOp::CsrSet { csr: 0x7C0, bits: 0x30 },
            RegOp::CsrSet { csr: 0x7F0, bits: spec_snoop_slot(hartid) },
        ],
{
    proof { crate::bits::shift_constants(); }
    MSetupCSR::enable(plan, MSETUP_BPU | MSETUP_PREFETCH);
    let bits = snoop_slot(hartid);
    Ml2SetupCSR::enable(plan, bits);
    assert(plan@ =~= old(plan)@ + seq![
        RegOp::CsrSet { csr: 0x7C0, bits: 0x30 },
        RegOp::CsrSet { csr: 0x7F0, bits: spec_snoop_slot(hartid) },
    ]);
}

/// Within a cluster (harts `4c .. 4c + 3`) every hart has its own snoop bit, the four bits
/// together are the low nibble, and harts `h` and `h + 4` (the same core position in the
/// two clusters) use the same bit.
pub proof fn snoop_slots_partition_cluster(h1: u64, h2: u64)
    requires
        h1 / 4 == h2 / 4,
        h1 != h2,
        h1 + 4 <= u64::MAX,
    ensures
        spec_snoop_slot(h1) != spec_snoop_slot(h2),
        spec_snoop_slot(h1) & spec_snoop_slot(h2) == 0,
        spec_snoop_slot(h1) | 0xF == 0xF,
        spec_snoop_slot(h1) == spec_snoop_slot((h1 + 4) as u64),
{
    let a = spec_snoop_slot(h1);
    let b = spec_snoop_slot(h2);
    assert(h1 % 4 != h2 % 4);
    assert((a == 1u64 || a == 2u64 || a == 4u64 || a == 8u64) && (b == 1u64 || b == 2u64 || b == 4u64 || b == 8u64) && a != b
        ==> a & b == 0) by (bit_vector);
    assert((a == 1u64 || a == 2u64 || a == 4u64 || a == 8u64) ==> a | 0xFu64 == 0xFu64) by (bit_vector);
}

} // verus!
