//! Handing the secondary harts their entry point: the reset-vector words and the CCI snoop
//! enables of both clusters.
use vstd::prelude::*;
use crate::mmio::RegOp;
use crate::soc::{apply_soc_ops, apply_soc_ops_concat, flag, reg_fields, soc_field, SocField, SocReg, SocRegs, SocStep, SocValue};

verus! {

/// Base of the CCI interconnect registers.
pub const CCI_BASE: u32 = 0xD850_0000;
/// CCI status register (bit 0: change pending).
pub const CCI_STATUS: u32 = 0xD850_000C;
/// Cluster 0 snoop control.
pub const CCI_CLUSTER_0_SNOOP_CONTROL: u32 = 0xD850_1000;
/// Cluster 1 snoop control.
pub const CCI_CLUSTER_1_SNOOP_CONTROL: u32 = 0xD850_2000;

/// The reset-vector register words of an entry address: (low 32 bits, high 32 bits).
pub fn reset_vector_words(entry: u64) -> (w: (u32, u32))
    ensures
        w.0 == entry % 0x1_0000_0000,
        w.1 == entry / 0x1_0000_0000,
{
    assert((entry as u32) == entry % 0x1_0000_0000) by (bit_vector);
    assert(((entry >> 32u64) as u32) == entry / 0x1_0000_0000) by (bit_vector);
    (entry as u32, (entry >> 32u64) as u32)
}

/// The two reset-vector words put back together are the entry address.
pub proof fn reset_vector_words_join(entry: u64, low: u32, high: u32)
    requires
        low == entry % 0x1_0000_0000,
        high == entry / 0x1_0000_0000,
    ensures
        high * 0x1_0000_0000 + low == entry,
{
}

/// Enabling snoop and DVM on a cluster interface: set both bits, fence, and wait until the
/// CCI no longer reports a pending change.
pub open spec fn spec_enable_snoop_ops(snoop_control: u32) -> Seq<RegOp> {
    seq![
        RegOp::Write { addr: snoop_control, value: 0b11 },
        RegOp::Fence,
        RegOp::WaitUntil { addr: CCI_STATUS, mask: 1, value: 0 },
    ]
}

/// Enable snoop and DVM on the interface whose snoop-control register is `snoop_control`.
pub fn enable_snoop(plan: &mut Vec<RegOp>, snoop_control: u32)
    ensures
        final(plan)@ == old(plan)@ + spec_enable_snoop_ops(snoop_control),
{
    plan.push(RegOp::Write { addr: snoop_control, value: 0b11 });
    plan.push(RegOp::Fence);
    plan.push(RegOp::WaitUntil { addr: CCI_STATUS, mask: 1, value: 0 });
    assert(plan@ =~= old(plan)@ + spec_enable_snoop_ops(snoop_control));
}

/// The reset vectors of both clusters: low then high word, cluster 0 then cluster 1.
pub open spec fn spec_reset_vector_ops(entry: u64) -> Seq<RegOp> {
    let low = (entry % 0x1_0000_0000) as u32;
    let high = (entry / 0x1_0000_0000) as u32;
    seq![
        RegOp::Soc(SocStep::ResetVector { cluster: 0, high: false, value: low }),
        RegOp::Soc(SocStep::ResetVector { cluster: 0, high: true, value: high }),
        RegOp::Soc(SocStep::ResetVector { cluster: 1, high: false, value: low }),
        RegOp::Soc(SocStep::ResetVector { cluster: 1, high: true, value: high }),
    ]
}

/// Joining cluster 1 to the coherency domain: cluster 0 snoop, cluster 1 cores 0..3 out of
/// MP idle and power-down, cluster 1 snoop.
pub open spec fn spec_join_ops() -> Seq<RegOp> {
    spec_enable_snoop_ops(CCI_CLUSTER_0_SNOOP_CONTROL)
        + seq![
            RegOp::Soc(SocStep::ClusterMpIdleClear { cluster: 1, core: 0 }),
            RegOp::Soc(SocStep::ClusterMpIdleClear { cluster: 1, core: 1 }),
            RegOp::Soc(SocStep::ClusterMpIdleClear { cluster: 1, core: 2 }),
            RegOp::Soc(SocStep::ClusterMpIdleClear { cluster: 1, core: 3 }),
        ]
        + spec_enable_snoop_ops(CCI_CLUSTER_1_SNOOP_CONTROL)
}

/// WFI reduced to clock gating on cores 1..7.
pub open spec fn spec_downgrade_wfi_ops() -> Seq<RegOp> {
    Seq::new(7, |i: int| RegOp::Soc(SocStep::CoreIdleClear((i + 1) as u8)))
}

/// The whole hand-over: reset vectors, coherency, WFI downgrade, fence and wake-up.
pub open spec fn spec_wake_ops(entry: u64) -> Seq<RegOp> {
    spec_reset_vector_ops(entry) + spec_join_ops() + spec_downgrade_wfi_ops()
        + seq![RegOp::Fence, RegOp::Soc(SocStep::WakeCores1To7)]
}

/// Start harts 1..7 at `entry`.
pub fn wake_secondary_harts(plan: &mut Vec<RegOp>, entry: u64)
    ensures
        final(plan)@ == old(plan)@ + spec_wake_ops(entry),
{
    let ghost start = plan@;
    let (low, high) = reset_vector_words(entry);
    plan.push(RegOp::Soc(SocStep::ResetVector { cluster: 0, high: false, value: low }));
    plan.push(RegOp::Soc(SocStep::ResetVector { cluster: 0, high: true, value: high }));
    plan.push(RegOp::Soc(SocStep::ResetVector { cluster: 1, high: false, value: low }));
    plan.push(RegOp::Soc(SocStep::ResetVector { cluster: 1, high: true, value: high }));
    let ghost p1 = plan@;
    assert(p1 =~= start + spec_reset_vector_ops(entry));
    enable_snoop(plan, CCI_CLUSTER_0_SNOOP_CONTROL);
    let mut core: u8 = 0;
    let ghost p2 = plan@;
    while core < 4
        invariant
            core <= 4,
            plan@ == p2 + Seq::new(core as nat, |i: int| RegOp::Soc(SocStep::ClusterMpIdleClear { cluster: 1, core: i as u8 })),
        decreases 4 - core,
    {
        plan.push(RegOp::Soc(SocStep::ClusterMpIdleClear { cluster: 1, core }));
        core = core + 1;
        assert(plan@ =~= p2 + Seq::new(core as nat, |i: int| RegOp::Soc(SocStep::ClusterMpIdleClear { cluster: 1, core: i as u8 })));
    }
    enable_snoop(plan, CCI_CLUSTER_1_SNOOP_CONTROL);
    let ghost p3 = plan@;
    assert(p3 =~= p1 + spec_join_ops());
    let mut c: u8 = 1;
    while c <= 7
        invariant
            1 <= c <= 8,
            plan@ == p3 + Seq::new((c - 1) as nat, |i: int| RegOp::Soc(SocStep::CoreIdleClear((i + 1) as u8))),
        decreases 8 - c,
    {
        plan.push(RegOp::Soc(SocStep::CoreIdleClear(c)));
        c = c + 1;
        assert(plan@ =~= p3 + Seq::new((c - 1) as nat, |i: int| RegOp::Soc(SocStep::CoreIdleClear((i + 1) as u8))));
    }
    let ghost p4 = plan@;
    assert(p4 =~= p3 + spec_downgrade_wfi_ops());
    plan.push(RegOp::Fence);
    plan.push(RegOp::Soc(SocStep::WakeCores1To7));
    assert(plan@ =~= start + spec_wake_ops(entry));
}

/// What waking the secondary harts leaves in the registers, whatever they held: both
/// clusters' reset vectors hold the entry's low and high words; cores 0..3 of cluster 1 are
/// out of MP idle, MP power-down and L2 SRAM power-down; cores 1..7 are out of core idle
/// and power-down with their GIC IRQ and FIQ unmasked (the other fields of those registers
/// kept); and core 0's wakeup register holds exactly the wake bits of cores 1..7, written
/// last.
pub proof fn wake_programs_cores(regs: SocRegs, entry: u64)
    ensures
        ({
            let r = apply_soc_ops(regs, spec_wake_ops(entry));
            &&& forall|c: u8| c < 2 ==> soc_field(r, SocReg::ClusterResetVectorLow(c), SocField::Word) == Some(
                SocValue::Bits((entry % 0x1_0000_0000) as u32),
            ) && soc_field(r, SocReg::ClusterResetVectorHigh(c), SocField::Word) == Some(
                SocValue::Bits((entry / 0x1_0000_0000) as u32),
            )
            &&& forall|core: u8, f: SocField| core < 4 ==> soc_field(r, SocReg::ClusterMpIdleCfg(1, core), f) == (
                if f == SocField::MpIdle || f == SocField::MpPwrdwn || f == SocField::L2SramPwrdwn {
                    Some(flag(false))
                } else {
                    soc_field(regs, SocReg::ClusterMpIdleCfg(1, core), f)
                })
            &&& forall|core: u8, f: SocField| 1 <= core < 8 ==> soc_field(r, SocReg::CoreIdleCfg(core), f) == (
                if f == SocField::CoreIdle || f == SocField::CorePwrdwn || f == SocField::MaskGicNirqToCore
                    || f == SocField::MaskGicNfiqToCore {
                    Some(flag(false))
                } else {
                    soc_field(regs, SocReg::CoreIdleCfg(core), f)
                })
            &&& forall|f: SocField| soc_field(r, SocReg::Core0Wakeup, f) == (if exists|i: u8| 1 <= i < 8 && f == SocField::WakeupCore(i) {
                Some(flag(true))
            } else {
                None
            })
        }),
{
    let a = spec_reset_vector_ops(entry);
    let b = spec_join_ops();
    let c = spec_downgrade_wfi_ops();
    let d = seq![RegOp::Fence, RegOp::Soc(SocStep::WakeCores1To7)];
    assert(spec_wake_ops(entry) =~= ((a + b) + c) + d);
    apply_soc_ops_concat(regs, (a + b) + c, d);
    apply_soc_ops_concat(regs, a + b, c);
    apply_soc_ops_concat(regs, a, b);
    let r1 = apply_soc_ops(regs, a);
    let r2 = apply_soc_ops(r1, b);
    let r3 = apply_soc_ops(r2, c);
    let r4 = apply_soc_ops(r3, d);
    lemma_reset_vector_effect(regs, entry);
    lemma_join_effect(r1);
    lemma_downgrade_effect(r2);
    lemma_wake_effect(r3);
    assert forall|cl: u8| cl < 2 implies soc_field(r4, SocReg::ClusterResetVectorLow(cl), SocField::Word) == Some(
        SocValue::Bits((entry % 0x1_0000_0000) as u32),
    ) && soc_field(r4, SocReg::ClusterResetVectorHigh(cl), SocField::Word) == Some(
        SocValue::Bits((entry / 0x1_0000_0000) as u32),
    ) by {
        let lo = SocReg::ClusterResetVectorLow(cl);
        let hi = SocReg::ClusterResetVectorHigh(cl);
        assert(soc_field(r1, lo, SocField::Word) == Some(SocValue::Bits((entry % 0x1_0000_0000) as u32)));
        assert(soc_field(r1, hi, SocField::Word) == Some(SocValue::Bits((entry / 0x1_0000_0000) as u32)));
        assert(!(lo is ClusterMpIdleCfg) && !(lo is CoreIdleCfg) && lo != SocReg::Core0Wakeup);
        assert(reg_fields(r2, lo) == reg_fields(r1, lo));
        assert(reg_fields(r3, lo) == reg_fields(r2, lo));
        assert(reg_fields(r4, lo) == reg_fields(r3, lo));
        assert(reg_fields(r2, hi) == reg_fields(r1, hi));
        assert(reg_fields(r3, hi) == reg_fields(r2, hi));
        assert(reg_fields(r4, hi) == reg_fields(r3, hi));
    }
    assert forall|core: u8, f: SocField| core < 4 implies soc_field(r4, SocReg::ClusterMpIdleCfg(1, core), f) == (
        if f == SocField::MpIdle || f == SocField::MpPwrdwn || f == SocField::L2SramPwrdwn {
            Some(flag(false))
        } else {
            soc_field(regs, SocReg::ClusterMpIdleCfg(1, core), f)
        }) by {
        let g = SocReg::ClusterMpIdleCfg(1, core);
        assert(!(g is ClusterResetVectorLow) && !(g is ClusterResetVectorHigh));
        assert(reg_fields(r1, g) == reg_fields(regs, g));
        assert(soc_field(r1, g, f) == soc_field(regs, g, f));
        assert(soc_field(r2, g, f) == (if f == SocField::MpIdle || f == SocField::MpPwrdwn || f == SocField::L2SramPwrdwn {
            Some(flag(false))
        } else {
            soc_field(r1, g, f)
        }));
        assert(reg_fields(r3, g) == reg_fields(r2, g));
        assert(reg_fields(r4, g) == reg_fields(r3, g));
    }
    assert forall|core: u8, f: SocField| 1 <= core < 8 implies soc_field(r4, SocReg::CoreIdleCfg(core), f) == (
        if f == SocField::CoreIdle || f == SocField::CorePwrdwn || f == SocField::MaskGicNirqToCore
            || f == SocField::MaskGicNfiqToCore {
            Some(flag(false))
        } else {
            soc_field(regs, SocReg::CoreIdleCfg(core), f)
        }) by {
        let g = SocReg::CoreIdleCfg(core);
        assert(!(g is ClusterResetVectorLow) && !(g is ClusterResetVectorHigh) && !(g is ClusterMpIdleCfg));
        assert(reg_fields(r1, g) == reg_fields(regs, g));
        assert(reg_fields(r2, g) == reg_fields(r1, g));
        assert(soc_field(r2, g, f) == soc_field(regs, g, f));
        assert(soc_field(r3, g, f) == (if f == SocField::CoreIdle || f == SocField::CorePwrdwn || f
            == SocField::MaskGicNirqToCore || f == SocField::MaskGicNfiqToCore {
            Some(flag(false))
        } else {
            soc_field(r2, g, f)
        }));
        assert(reg_fields(r4, g) == reg_fields(r3, g));
    }
}

proof fn lemma_reset_vector_effect(regs: SocRegs, entry: u64)
    ensures
        ({
            let r = apply_soc_ops(regs, spec_reset_vector_ops(entry));
            &&& forall|c: u8| c < 2 ==> soc_field(r, SocReg::ClusterResetVectorLow(c), SocField::Word) == Some(
                SocValue::Bits((entry % 0x1_0000_0000) as u32),
            ) && soc_field(r, SocReg::ClusterResetVectorHigh(c), SocField::Word) == Some(
                SocValue::Bits((entry / 0x1_0000_0000) as u32),
            )
            &&& forall|g: SocReg| !(g is ClusterResetVectorLow) && !(g is ClusterResetVectorHigh) ==> reg_fields(r, g)
                == reg_fields(regs, g)
        }),
{
    reveal_with_fuel(apply_soc_ops, 5);
    reveal_with_fuel(crate::soc::set_fields, 2);
}

proof fn lemma_join_effect(regs: SocRegs)
    ensures
        ({
            let r = apply_soc_ops(regs, spec_join_ops());
            &&& forall|core: u8, f: SocField| core < 4 ==> soc_field(r, SocReg::ClusterMpIdleCfg(1, core), f) == (
                if f == SocField::MpIdle || f == SocField::MpPwrdwn || f == SocField::L2SramPwrdwn {
                    Some(flag(false))
                } else {
                    soc_field(regs, SocReg::ClusterMpIdleCfg(1, core), f)
                })
            &&& forall|g: SocReg| !(g is ClusterMpIdleCfg) ==> reg_fields(r, g) == reg_fields(regs, g)
        }),
{
    let ops = spec_join_ops();
    assert(ops.len() == 10);
    reveal_with_fuel(apply_soc_ops, 11);
    reveal_with_fuel(crate::soc::set_fields, 4);
}

proof fn lemma_downgrade_effect(regs: SocRegs)
    ensures
        ({
            let r = apply_soc_ops(regs, spec_downgrade_wfi_ops());
            &&& forall|core: u8, f: SocField| 1 <= core < 8 ==> soc_field(r, SocReg::CoreIdleCfg(core), f) == (
                if f == SocField::CoreIdle || f == SocField::CorePwrdwn || f == SocField::MaskGicNirqToCore
                    || f == SocField::MaskGicNfiqToCore {
                    Some(flag(false))
                } else {
                    soc_field(regs, SocReg::CoreIdleCfg(core), f)
                })
            &&& forall|g: SocReg| !(g is CoreIdleCfg) ==> reg_fields(r, g) == reg_fields(regs, g)
        }),
{
    let ops = spec_downgrade_wfi_ops();
    assert(ops.len() == 7);
    reveal_with_fuel(apply_soc_ops, 8);
    reveal_with_fuel(crate::soc::set_fields, 5);
}

proof fn lemma_wake_effect(regs: SocRegs)
    ensures
        ({
            let r = apply_soc_ops(regs, seq![RegOp::Fence, RegOp::Soc(SocStep::WakeCores1To7)]);
            &&& forall|f: SocField| soc_field(r, SocReg::Core0Wakeup, f) == (if exists|i: u8| 1 <= i < 8 && f == SocField::WakeupCore(i) {
                Some(flag(true))
            } else {
                None
            })
            &&& forall|g: SocReg| g != SocReg::Core0Wakeup ==> reg_fields(r, g) == reg_fields(regs, g)
        }),
{
    reveal_with_fuel(apply_soc_ops, 3);
    reveal_with_fuel(crate::soc::set_fields, 8);
    let r = apply_soc_ops(regs, seq![RegOp::Fence, RegOp::Soc(SocStep::WakeCores1To7)]);
    assert forall|f: SocField| soc_field(r, SocReg::Core0Wakeup, f) == (if exists|i: u8| 1 <= i < 8 && f == SocField::WakeupCore(i) {
        Some(flag(true))
    } else {
        None
    }) by {
        match f {
            SocField::WakeupCore(i) => {
                if 1 <= i < 8 {
                    assert(exists|j: u8| 1 <= j < 8 && f == SocField::WakeupCore(j));
                }
            },
            _ => {},
        }
    }
}
} // verus!
