//! The DFI handshake between controller and PHY.
use vstd::prelude::*;
use crate::mmio::{MMIO, Raw, RegOp};
use crate::ddr::register::DDR_CTRL_PHY_CONTROL_BASE;

verus! {

/// Start the DFI init (PHY-control 0x3D0 = 0x1300_0001), wait for bit 31 of 0x3FC, then
/// request the next phase (0x3D0 = 0x1300_0100) and fence.
pub open spec fn spec_handshake_ops() -> Seq<RegOp> {
    seq![
        RegOp::Write { addr: 0xC000_13D0u32, value: 0x1300_0001u32 },
        RegOp::WaitUntil { addr: 0xC000_13FCu32, mask: 0x8000_0000u32, value: 0x8000_0000u32 },
        RegOp::Write { addr: 0xC000_13D0u32, value: 0x1300_0100u32 },
        RegOp::Fence,
    ]
}

/// Append the DFI handshake.
pub fn handshake(plan: &mut Vec<RegOp>)
    ensures
        final(plan)@ == old(plan)@ + spec_handshake_ops(),
{
    let phy_control: MMIO<Raw> = MMIO::base(DDR_CTRL_PHY_CONTROL_BASE);
    phy_control.write(plan, &[(0x3D0u32, 0x1300_0001u32)]);
    phy_control.wait_until(plan, 0x3FC, 0x8000_0000, 0x8000_0000);
    phy_control.write(plan, &[(0x3D0u32, 0x1300_0100u32)]);
    plan.push(RegOp::Fence);
    assert(plan@ =~= old(plan)@ + spec_handshake_ops());
}

} // verus!
