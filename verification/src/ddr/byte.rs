//! x8 byte-mode read timing, programmed on the second bring-up pass.
use vstd::prelude::*;
use crate::mmio::{MMIO, Raw, RegOp};
use crate::ddr::register::{DDR_CTRL_CHANNEL_BASE, DDR_CTRL_PHY_CONTROL_BASE};
use crate::soc::SocStep;

verus! {

/// Whether the controller pass programs x8 byte-mode timing.
#[derive(Clone, Copy, PartialEq, Eq, Structural, Debug)]
pub enum ByteMode {
    /// Program the wider x8 read timing.
    Enable,
    /// Leave the default timing.
    Disable,
}

/// The byte-mode writes for one frequency point: channel CFG2 (0x104), PHY-control 0x3E4
/// and channel 0x1B4.
pub open spec fn byte_point_ops(cfg2: u32, phy: u32, read_timing: u32) -> Seq<RegOp> {
    seq![
        RegOp::Write { addr: 0xC000_0304u32, value: cfg2 },
        RegOp::Write { addr: 0xC000_13E4u32, value: phy },
        RegOp::Write { addr: 0xC000_03B4u32, value: read_timing },
    ]
}

/// The byte-mode writes at the 3200, 2400, 1600 and 1200 MT points, in that order.
pub open spec fn spec_byte_mode_ops() -> Seq<RegOp> {
    byte_point_ops(0xF080_0400, 0x1900_0A02, 0x0800_1400)
        + byte_point_ops(0xA080_0400, 0x1500_0802, 0x0800_1000)
        + byte_point_ops(0x5080_0400, 0x0C00_0402, 0x0800_0A00)
        + byte_point_ops(0x0080_0400, 0x0C00_0402, 0x0800_0A00)
}

fn set_point(plan: &mut Vec<RegOp>, cfg2: u32, phy: u32, read_timing: u32)
    ensures
        final(plan)@ == old(plan)@ + byte_point_ops(cfg2, phy, read_timing),
{
    let channel: MMIO<Raw> = MMIO::base(DDR_CTRL_CHANNEL_BASE);
    let phy_control: MMIO<Raw> = MMIO::base(DDR_CTRL_PHY_CONTROL_BASE);
    channel.write(plan, &[(0x0104u32, cfg2)]);
    phy_control.write(plan, &[(0x03E4u32, phy)]);
    channel.write(plan, &[(0x01B4u32, read_timing)]);
    assert(plan@ =~= old(plan)@ + byte_point_ops(cfg2, phy, read_timing));
}

/// Widen the read timing (channel 0x1B4, PHY-control 0x3E4) at each of the four frequency
/// points, selecting each point in channel CFG2 first.
pub fn set_byte_mode_parameter(plan: &mut Vec<RegOp>)
    ensures
        final(plan)@ == old(plan)@ + spec_byte_mode_ops(),
{
    set_point(plan, 0xF080_0400, 0x1900_0A02, 0x0800_1400);
    set_point(plan, 0xA080_0400, 0x1500_0802, 0x0800_1000);
    set_point(plan, 0x5080_0400, 0x0C00_0402, 0x0800_0A00);
    set_point(plan, 0x0080_0400, 0x0C00_0402, 0x0800_0A00);
    assert(plan@ =~= old(plan)@ + spec_byte_mode_ops());
}

/// The DCLK bypass reset pulse between the two passes: cleared, 100 µs, set, 100 µs.
pub open spec fn spec_prepare_reinit_ops() -> Seq<RegOp> {
    seq![
        RegOp::Soc(SocStep::DclkBypassReset(false)),
        RegOp::Sleep { micros: 100 },
        RegOp::Soc(SocStep::DclkBypassReset(true)),
        RegOp::Sleep { micros: 100 },
    ]
}

/// Pulse the DCLK bypass reset before the second, full controller and PHY pass.
pub fn prepare_reinit(plan: &mut Vec<RegOp>)
    ensures
        final(plan)@ == old(plan)@ + spec_prepare_reinit_ops(),
{
    plan.push(RegOp::Soc(SocStep::DclkBypassReset(false)));
    plan.push(RegOp::Sleep { micros: 100 });
    plan.push(RegOp::Soc(SocStep::DclkBypassReset(true)));
    plan.push(RegOp::Sleep { micros: 100 });
    assert(plan@ =~= old(plan)@ + spec_prepare_reinit_ops());
}

} // verus!
