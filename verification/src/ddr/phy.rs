//! PHY programming: global settings, drive strength, ODT and VREF at every frequency point of
//! both sub-blocks.
use vstd::prelude::*;
use crate::mmio::{MMIO, Raw, RegOp, write_ops};
use crate::ddr::register::{
    DDR_PHY_BASE, DDR_PHY_OTHER_CONTROL_BASE, DDR_PHY_SUB_A_BASE, DDR_PHY_SUB_B_BASE,
};
use crate::ddr::freq::DdrFreq;
use crate::soc::SocStep;

verus! {

/// The writes of `data` to register `offset` of all four frequency points of a sub-block:
/// points 1200, 1600, 2400 and 3200 MT are 0x4000 apart.
pub open spec fn point_table(offset: u32, data: u32) -> Seq<(u32, u32)> {
    seq![
        (offset, data),
        ((offset + 0x4000) as u32, data),
        ((offset + 0x8000) as u32, data),
        ((offset + 0xC000) as u32, data),
    ]
}

/// One setting at every frequency point of sub-block A and then sub-block B.
pub open spec fn all_points_ops(offset: u32, data: u32) -> Seq<RegOp> {
    write_ops(DDR_PHY_SUB_A_BASE, point_table(offset, data)) + write_ops(DDR_PHY_SUB_B_BASE, point_table(offset, data))
}

fn config_for_all_sub_and_freq(plan: &mut Vec<RegOp>, offset: u32, data: u32)
    requires
        offset <= 0x100,
    ensures
        final(plan)@ == old(plan)@ + all_points_ops(offset, data),
{
    let p1200 = DdrFreq::Mt1200.phy_offset();
    let p1600 = DdrFreq::Mt1600.phy_offset();
    let p2400 = DdrFreq::Mt2400.phy_offset();
    let p3200 = DdrFreq::Mt3200.phy_offset();
    let table = [(offset + p1200, data), (offset + p1600, data), (offset + p2400, data), (offset + p3200, data)];
    assert(table@ =~= point_table(offset, data));
    let sub_a: MMIO<Raw> = MMIO::base(DDR_PHY_SUB_A_BASE);
    let sub_b: MMIO<Raw> = MMIO::base(DDR_PHY_SUB_B_BASE);
    sub_a.write(plan, &table);
    sub_b.write(plan, &table);
    assert(plan@ =~= old(plan)@ + all_points_ops(offset, data));
}

/// Global PHY settings: both sub-blocks reset (0x0 = 0) and released (0x0 = 1), then PHY
/// register 0x64 = 0x4349 at each frequency point.
pub open spec fn spec_phy_global_ops() -> Seq<RegOp> {
    seq![
        RegOp::Write { addr: DDR_PHY_SUB_A_BASE, value: 0 },
        RegOp::Write { addr: DDR_PHY_SUB_B_BASE, value: 0 },
        RegOp::Write { addr: DDR_PHY_SUB_A_BASE, value: 1 },
        RegOp::Write { addr: DDR_PHY_SUB_B_BASE, value: 1 },
    ] + write_ops(DDR_PHY_BASE, point_table(0x64, 0x4349))
}

fn config_phy_global(plan: &mut Vec<RegOp>)
    ensures
        final(plan)@ == old(plan)@ + spec_phy_global_ops(),
{
    let sub_a: MMIO<Raw> = MMIO::base(DDR_PHY_SUB_A_BASE);
    let sub_b: MMIO<Raw> = MMIO::base(DDR_PHY_SUB_B_BASE);
    sub_a.write(plan, &[(0x0u32, 0x0u32)]);
    sub_b.write(plan, &[(0x0u32, 0x0u32)]);
    sub_a.write(plan, &[(0x0u32, 0x1u32)]);
    sub_b.write(plan, &[(0x0u32, 0x1u32)]);
    let phy: MMIO<Raw> = MMIO::base(DDR_PHY_BASE);
    let table = [
        (0x0064 + DdrFreq::Mt1200.phy_offset(), 0x4349u32),
        (0x0064 + DdrFreq::Mt1600.phy_offset(), 0x4349u32),
        (0x0064 + DdrFreq::Mt2400.phy_offset(), 0x4349u32),
        (0x0064 + DdrFreq::Mt3200.phy_offset(), 0x4349u32),
    ];
    assert(table@ =~= point_table(0x64, 0x4349));
    phy.write(plan, &table);
    assert(plan@ =~= old(plan)@ + spec_phy_global_ops());
}

/// The values of sub-block A registers 0x4, 0xC, 0x10 and 0x14 before the PHY pass.
#[derive(Clone, Copy)]
pub struct SubASettings {
    /// Register 0x4 (preamble/postamble and RX ODT).
    pub amble: u32,
    /// Register 0xC (write drive strength, ODT and VREF).
    pub drive: u32,
    /// Register 0x10.
    pub common_hi: u32,
    /// Register 0x14.
    pub common_lo: u32,
}

/// Register 0x4 after the preamble setting: bits 15..12 become 0b1010 (with bit 11).
pub open spec fn amble_value(v: u32) -> u32 {
    (v & !0xF000u32) | 0xA800u32
}

/// Register 0xC after the write drive/ODT/VREF setting: bits 15..8 become 0xD8.
pub open spec fn write_drive_value(v: u32) -> u32 {
    (v & !0xFF00u32) | 0xD800u32
}

/// Register 0xC after the RX setting: bits 21..16 become 0x24.
pub open spec fn rx_drive_value(v: u32) -> u32 {
    (v & !0x003F_0000u32) | 0x0024_0000u32
}

/// Register 0x4 after the RX ODT setting: bits 31..16 become 0x5555.
pub open spec fn rx_odt_value(v: u32) -> u32 {
    (v & !0xFFFF_0000u32) | 0x5555_0000u32
}

/// Register 0x14 after the common setting: bits 22..21 set and bit 4 cleared.
pub open spec fn common_lo_value(v: u32) -> u32 {
    (v & !0x0060_0010u32) | 0x0060_0000u32
}

/// Register 0x10 after the common setting: bit 28 set.
pub open spec fn common_hi_value(v: u32) -> u32 {
    v | 0x1000_0000u32
}

/// The drive, ODT, VREF and common settings. Each step reads sub-block A at point 1200 MT,
/// which the step before wrote if it was the same register: register 0xC is read after the
/// write-drive step and register 0x4 after the preamble step.
pub open spec fn spec_phy_settings_ops(s: SubASettings) -> Seq<RegOp> {
    all_points_ops(0x4, amble_value(s.amble))
        + all_points_ops(0xC, write_drive_value(s.drive))
        + all_points_ops(0xC, rx_drive_value(write_drive_value(s.drive)))
        + all_points_ops(0x4, rx_odt_value(amble_value(s.amble)))
        + all_points_ops(0x14, common_lo_value(s.common_lo))
        + all_points_ops(0x10, common_hi_value(s.common_hi))
}

/// The closing writes: sub-block A 0x30 = 0x1077, other-control 0x24 = 0, and bit 0 of
/// other-control 0x0 set.
pub open spec fn spec_other_control_ops() -> Seq<RegOp> {
    seq![
        RegOp::Write { addr: 0xC004_3030u32, value: 0x1077u32 },
        RegOp::Write { addr: 0xC005_0024u32, value: 0 },
        RegOp::Modify { addr: 0xC005_0000u32, clear: 0, set: 1 },
    ]
}

/// The register part of the PHY pass, for the sub-block A values it reads.
pub open spec fn spec_phy_register_ops(s: SubASettings) -> Seq<RegOp> {
    spec_phy_global_ops() + spec_phy_settings_ops(s) + spec_other_control_ops()
}

/// Program the PHY registers: global settings, preamble, write and read drive/ODT/VREF,
/// common settings and the other-control block. `s` holds the values sub-block A registers
/// 0x4, 0xC, 0x10 and 0x14 had before the pass.
pub fn config_registers(plan: &mut Vec<RegOp>, s: &SubASettings)
    ensures
        final(plan)@ == old(plan)@ + spec_phy_register_ops(*s),
{
    let ghost start = plan@;
    config_phy_global(plan);
    let ghost after_global = plan@;
    proof { crate::bits::shift_constants(); }
    let amble = (s.amble & !(0b1111_0000u32 << 8u32)) | (0b1010_1000u32 << 8u32);
    config_for_all_sub_and_freq(plan, 0x4, amble);
    let drive = (s.drive & !(0b1111_1111u32 << 8u32)) | (0b1101_1000u32 << 8u32);
    config_for_all_sub_and_freq(plan, 0xC, drive);
    let rx = (drive & !(0b0011_1111u32 << 16u32)) | (0b0010_0100u32 << 16u32);
    config_for_all_sub_and_freq(plan, 0xC, rx);
    let odt = (amble & !(0xFFFFu32 << 16u32)) | (0x5555u32 << 16u32);
    config_for_all_sub_and_freq(plan, 0x4, odt);
    let common_lo = (s.common_lo & !0x0060_0010u32) | 0x0060_0000u32;
    config_for_all_sub_and_freq(plan, 0x14, common_lo);
    let common_hi = s.common_hi | (0b0001_0000u32 << 24u32);
    config_for_all_sub_and_freq(plan, 0x10, common_hi);
    let ghost after_settings = plan@;
    assert(after_settings =~= after_global + spec_phy_settings_ops(*s));
    let sub_a: MMIO<Raw> = MMIO::base(DDR_PHY_SUB_A_BASE);
    let other: MMIO<Raw> = MMIO::base(DDR_PHY_OTHER_CONTROL_BASE);
    sub_a.write(plan, &[(0x30u32, 0x1077u32)]);
    other.write(plan, &[(0x24u32, 0x0u32)]);
    other.modify(plan, 0x0, 0, 0x1);
    assert(plan@ =~= start + spec_phy_register_ops(*s));
}

/// The whole PHY pass: PLL divider and LDO, then the register program.
pub open spec fn spec_init_ops(s: SubASettings) -> Seq<RegOp> {
    seq![RegOp::Soc(SocStep::DdrPhyPllDivInit), RegOp::Soc(SocStep::DdrPhyLdoEnable)] + spec_phy_register_ops(s)
}

/// Program the PHY: its clock and power, then the registers of `config_registers`. `s`
/// holds what sub-block A registers 0x4, 0xC, 0x10 and 0x14 read before the pass.
pub fn init(plan: &mut Vec<RegOp>, s: &SubASettings)
    ensures
        final(plan)@ == old(plan)@ + spec_init_ops(*s),
{
    let ghost start = plan@;
    plan.push(RegOp::Soc(SocStep::DdrPhyPllDivInit));
    plan.push(RegOp::Soc(SocStep::DdrPhyLdoEnable));
    config_registers(plan, s);
    assert(plan@ =~= start + spec_init_ops(*s));
}

} // verus!
