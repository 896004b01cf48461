//! Memory-controller and PHY register windows.
use vstd::prelude::*;

verus! {

/// Memory-controller base address.
pub const DDR_CTRL_BASE: u32 = 0xC000_0000;
/// Secure alias of the controller, used to load the frequency-change tables.
pub const DDR_CTRL_SECURE_ALIAS_BASE: u32 = 0xF000_0000;
/// Channel register window offset from the controller base.
pub const DDR_CTRL_CHANNEL_OFFSET: u32 = 0x200;
/// Channel register window base.
pub const DDR_CTRL_CHANNEL_BASE: u32 = 0xC000_0200;
/// Controller-side PHY-control window offset.
pub const DDR_CTRL_PHY_CONTROL_OFFSET: u32 = 0x1000;
/// Controller-side PHY-control window base.
pub const DDR_CTRL_PHY_CONTROL_BASE: u32 = 0xC000_1000;
/// PHY base address.
pub const DDR_PHY_BASE: u32 = 0xC004_0000;
/// PHY sub-block A offset from the PHY base.
pub const DDR_PHY_SUB_A_OFFSET: u32 = 0x3000;
/// PHY sub-block A base.
pub const DDR_PHY_SUB_A_BASE: u32 = 0xC004_3000;
/// PHY sub-block B offset from the PHY base.
pub const DDR_PHY_SUB_B_OFFSET: u32 = 0x3200;
/// PHY sub-block B base.
pub const DDR_PHY_SUB_B_BASE: u32 = 0xC004_3200;
/// PHY other-control offset from the PHY base.
pub const DDR_PHY_OTHER_CONTROL_OFFSET: u32 = 0x1_0000;
/// PHY other-control base.
pub const DDR_PHY_OTHER_CONTROL_BASE: u32 = 0xC005_0000;
/// Spacing of the per-frequency PHY register windows.
pub const DDR_PHY_FREQ_POINT_STEP: u32 = 0x4000;

/// The window bases are their offsets from the parent bases.
pub proof fn windows_are_offsets()
    ensures
        DDR_CTRL_CHANNEL_BASE == DDR_CTRL_BASE + DDR_CTRL_CHANNEL_OFFSET,
        DDR_CTRL_PHY_CONTROL_BASE == DDR_CTRL_BASE + DDR_CTRL_PHY_CONTROL_OFFSET,
        DDR_PHY_SUB_A_BASE == DDR_PHY_BASE + DDR_PHY_SUB_A_OFFSET,
        DDR_PHY_SUB_B_BASE == DDR_PHY_BASE + DDR_PHY_SUB_B_OFFSET,
        DDR_PHY_OTHER_CONTROL_BASE == DDR_PHY_BASE + DDR_PHY_OTHER_CONTROL_OFFSET,
{
}

} // verus!
