//! DDR clocking: the PHY PLL at 1200 MT, the DCLK bypass, and the controller's AHB clock.
use vstd::prelude::*;
use crate::mmio::RegOp;
use crate::soc::SocStep;
use crate::ddr::freq::DdrFreq;

verus! {

/// PLL control for 1200 MT, PLL enable and lock, PLL and sleep-type set for the initial
/// 1200 MT with DCLK bypass, the AP clock handshake on bit 26, and the AHB clock.
pub open spec fn spec_init_ops() -> Seq<RegOp> {
    seq![
        RegOp::Soc(SocStep::DdrPllControlMt1200),
        RegOp::Soc(SocStep::DdrPllEnable),
        RegOp::Soc(SocStep::DdrPllWaitLocked),
        RegOp::Soc(SocStep::DdrPllSelect(DdrFreq::Mt1200)),
        RegOp::Soc(SocStep::DdrSleepTypeBypass),
        RegOp::Soc(SocStep::ApClockRequestBit26),
        RegOp::Soc(SocStep::ApClockWaitBit26Clear),
        RegOp::Soc(SocStep::DdrAhbClockEnable),
    ]
}

/// Bring up the DDR clocks at 1200 MT.
pub fn init(plan: &mut Vec<RegOp>)
    ensures
        final(plan)@ == old(plan)@ + spec_init_ops(),
{
    plan.push(RegOp::Soc(SocStep::DdrPllControlMt1200));
    plan.push(RegOp::Soc(SocStep::DdrPllEnable));
    plan.push(RegOp::Soc(SocStep::DdrPllWaitLocked));
    plan.push(RegOp::Soc(SocStep::DdrPllSelect(DdrFreq::Mt1200)));
    plan.push(RegOp::Soc(SocStep::DdrSleepTypeBypass));
    plan.push(RegOp::Soc(SocStep::ApClockRequestBit26));
    plan.push(RegOp::Soc(SocStep::ApClockWaitBit26Clear));
    plan.push(RegOp::Soc(SocStep::DdrAhbClockEnable));
    assert(plan@ =~= old(plan)@ + spec_init_ops());
}

} // verus!
