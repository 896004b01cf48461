//! CPU frequency: both clusters to 1600 MHz from PLL3.
use vstd::prelude::*;
use crate::mmio::RegOp;
use crate::soc::{apply_soc_ops, flag, reg_fields, soc_field, SocField, SocReg, SocRegs, SocStep, SocValue};

verus! {

/// Switching one cluster: select 1600 MHz, request the change, wait for it.
pub open spec fn cluster_ops(cluster: u8) -> Seq<RegOp> {
    seq![
        RegOp::Soc(SocStep::ClusterClock1600(cluster)),
        RegOp::Soc(SocStep::ClusterFreqChangeRequest(cluster)),
        RegOp::Soc(SocStep::ClusterFreqChangeWait(cluster)),
    ]
}

/// All clocks on, PLL3 and its divide-by-2 output enabled, then cluster 0 and cluster 1.
pub open spec fn spec_raise_freq_ops() -> Seq<RegOp> {
    seq![
        RegOp::Soc(SocStep::EnableAllClocks),
        RegOp::Soc(SocStep::Pll3Enable),
        RegOp::Soc(SocStep::Pll3Div2Enable),
    ] + cluster_ops(0) + cluster_ops(1)
}

fn set_cluster_freq(plan: &mut Vec<RegOp>, cluster: u8)
    ensures
        final(plan)@ == old(plan)@ + cluster_ops(cluster),
{
    plan.push(RegOp::Soc(SocStep::ClusterClock1600(cluster)));
    plan.push(RegOp::Soc(SocStep::ClusterFreqChangeRequest(cluster)));
    plan.push(RegOp::Soc(SocStep::ClusterFreqChangeWait(cluster)));
    assert(plan@ =~= old(plan)@ + cluster_ops(cluster));
}

/// Raise the CPU frequency to 1600 MHz.
pub fn raise_freq(plan: &mut Vec<RegOp>)
    ensures
        final(plan)@ == old(plan)@ + spec_raise_freq_ops(),
{
    let ghost start = plan@;
    plan.push(RegOp::Soc(SocStep::EnableAllClocks));
    plan.push(RegOp::Soc(SocStep::Pll3Enable));
    plan.push(RegOp::Soc(SocStep::Pll3Div2Enable));
    let ghost head = plan@;
    let mut cluster: u8 = 0;
    while cluster < 2
        invariant
            cluster <= 2,
            plan@ == head + (if cluster == 0 { Seq::empty() } else if cluster == 1 { cluster_ops(0) } else {
                cluster_ops(0) + cluster_ops(1)
            }),
        decreases 2 - cluster,
    {
        let ghost before = plan@;
        set_cluster_freq(plan, cluster);
        cluster = cluster + 1;
        assert(plan@ =~= head + (if cluster == 1 { cluster_ops(0) } else { cluster_ops(0) + cluster_ops(1) }));
    }
    assert(plan@ =~= start + spec_raise_freq_ops());
}

/// The registers the switch to 1600 MHz touches.
pub open spec fn raise_freq_touches(r: SocReg) -> bool {
    r == SocReg::MpmuClockGating || r == SocReg::Pll3Sw3Control || r == SocReg::Pll3Sw2Control
        || r == SocReg::ClusterClockControl(0) || r == SocReg::ClusterClockControl(1)
}

/// What raising the CPU frequency leaves in the registers, whatever they held: MPMU clock
/// gating all ones (every other field cleared); PLL3 PLL_SW_EN and PLL_DIV2_EN set with the
/// other fields of their registers kept; in both clusters' clock control, the high clock
/// select cleared, 1600 MHz selected and the change request (set, then waited on) clear,
/// the other fields kept; every other register untouched.
pub proof fn raise_freq_programs_clocks(regs: SocRegs)
    ensures
        ({
            let r = apply_soc_ops(regs, spec_raise_freq_ops());
            &&& soc_field(r, SocReg::MpmuClockGating, SocField::Word) == Some(SocValue::Bits(0xFFFF_FFFF))
            &&& forall|f: SocField| f != SocField::Word ==> soc_field(r, SocReg::MpmuClockGating, f) is None
            &&& soc_field(r, SocReg::Pll3Sw3Control, SocField::PllSwEn) == Some(flag(true))
            &&& forall|f: SocField| f != SocField::PllSwEn ==> soc_field(r, SocReg::Pll3Sw3Control, f)
                == soc_field(regs, SocReg::Pll3Sw3Control, f)
            &&& soc_field(r, SocReg::Pll3Sw2Control, SocField::PllDiv2En) == Some(flag(true))
            &&& forall|f: SocField| f != SocField::PllDiv2En ==> soc_field(r, SocReg::Pll3Sw2Control, f)
                == soc_field(regs, SocReg::Pll3Sw2Control, f)
            &&& forall|c: u8| c < 2 ==> {
                &&& soc_field(r, SocReg::ClusterClockControl(c), SocField::CxHiClkSel) == Some(flag(false))
                &&& soc_field(r, SocReg::ClusterClockControl(c), SocField::CxClkSel) == Some(SocValue::Mhz1600)
                &&& soc_field(r, SocReg::ClusterClockControl(c), SocField::CxClkFcReq) == Some(flag(false))
                &&& forall|f: SocField| f != SocField::CxHiClkSel && f != SocField::CxClkSel && f != SocField::CxClkFcReq
                    ==> soc_field(r, SocReg::ClusterClockControl(c), f) == soc_field(regs, SocReg::ClusterClockControl(c), f)
            }
            &&& forall|g: SocReg| !raise_freq_touches(g) ==> reg_fields(r, g) == reg_fields(regs, g)
        }),
{
    let ops = spec_raise_freq_ops();
    assert(ops.len() == 9);
    reveal_with_fuel(apply_soc_ops, 10);
    reveal_with_fuel(crate::soc::set_fields, 3);
}

} // verus!
