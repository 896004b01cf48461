//! Memory-controller programming: global and channel settings, the timing of the four
//! frequency points, optional x8 byte-mode timing, and the capacity address map.
use vstd::prelude::*;
use crate::mmio::{MMIO, Raw, RegOp, write_ops};
use crate::ddr::register::{DDR_CTRL_BASE, DDR_CTRL_CHANNEL_BASE, DDR_CTRL_PHY_CONTROL_BASE};
use crate::ddr::byte::{ByteMode, set_byte_mode_parameter, spec_byte_mode_ops};
use crate::ddr::dram::DdrCapacity;

verus! {

/// Global controller settings (offset, value).
pub open spec fn spec_global_table() -> Seq<(u32, u32)> {
    seq![
        (0x0044u32, 0x0004_0300u32),
        (0x0048u32, 0x0000_0001u32),
        (0x0064u32, 0x100D_0803u32),
        (0x0050u32, 0x0000_00FFu32),
        (0x0058u32, 0x3FD5_3FD5u32),
        (0x0180u32, 0x0001_0200u32),
        (0x0080u32, 0x0000_0000u32),
        (0x0A00u32, 0x0000_0000u32),
        (0x0AC0u32, 0x0000_0000u32),
        (0x0ACCu32, 0xFFFF_FFFFu32),
    ]
}

fn global_table() -> (t: [(u32, u32); 10])
    ensures
        t@ == spec_global_table(),
{
    let t = [
        (0x0044u32, 0x0004_0300u32),
        (0x0048u32, 0x0000_0001u32),
        (0x0064u32, 0x100D_0803u32),
        (0x0050u32, 0x0000_00FFu32),
        (0x0058u32, 0x3FD5_3FD5u32),
        (0x0180u32, 0x0001_0200u32),
        (0x0080u32, 0x0000_0000u32),
        (0x0A00u32, 0x0000_0000u32),
        (0x0AC0u32, 0x0000_0000u32),
        (0x0ACCu32, 0xFFFF_FFFFu32),
    ];
    assert(t@ =~= spec_global_table());
    t
}

/// Channel address-map and arbitration settings (offset, value).
pub open spec fn spec_channel_table() -> Seq<(u32, u32)> {
    seq![
        (0x0000u32, 0x0010_0001u32),
        (0x0004u32, 0x0000_0000u32),
        (0x0008u32, 0x0010_0001u32),
        (0x000Cu32, 0x0000_0001u32),
        (0x0020u32, 0x0503_0732u32),
        (0x0024u32, 0x0503_0732u32),
        (0x00C0u32, 0x1400_8000u32),
        (0x00C4u32, 0x0000_00B8u32),
        (0x00C8u32, 0x0000_FFFFu32),
        (0x00CCu32, 0x0000_0000u32),
    ]
}

fn channel_table() -> (t: [(u32, u32); 10])
    ensures
        t@ == spec_channel_table(),
{
    let t = [
        (0x0000u32, 0x0010_0001u32),
        (0x0004u32, 0x0000_0000u32),
        (0x0008u32, 0x0010_0001u32),
        (0x000Cu32, 0x0000_0001u32),
        (0x0020u32, 0x0503_0732u32),
        (0x0024u32, 0x0503_0732u32),
        (0x00C0u32, 0x1400_8000u32),
        (0x00C4u32, 0x0000_00B8u32),
        (0x00C8u32, 0x0000_FFFFu32),
        (0x00CCu32, 0x0000_0000u32),
    ];
    assert(t@ =~= spec_channel_table());
    t
}

/// Channel timing for the 3200 MT frequency point (offset, value).
pub open spec fn spec_timing_3200_table() -> Seq<(u32, u32)> {
    seq![
        (0x0104u32, 0xF080_0400u32),
        (0x0100u32, 0x0000_0E20u32),
        (0x010Cu32, 0x9D19_4314u32),
        (0x0110u32, 0x2034_0000u32),
        (0x0114u32, 0x2034_0000u32),
        (0x018Cu32, 0x0000_0030u32),
        (0x0190u32, 0x0640_0030u32),
        (0x0194u32, 0x80E0_01C0u32),
        (0x01FCu32, 0x000C_005Eu32),
        (0x0198u32, 0x01CC_01CCu32),
        (0x019Cu32, 0x0018_1818u32),
        (0x01A0u32, 0x0818_0C0Cu32),
        (0x01A4u32, 0x0000_0003u32),
        (0x01A8u32, 0x0000_0217u32),
        (0x01ACu32, 0x3065_1D44u32),
        (0x01B0u32, 0x1120_080Fu32),
        (0x01B4u32, 0x0800_1000u32),
        (0x01B8u32, 0x0000_0C00u32),
        (0x01BCu32, 0x0202_0404u32),
        (0x01C0u32, 0x1000_0004u32),
        (0x01C4u32, 0x0000_0006u32),
        (0x01D8u32, 0x0001_0190u32),
        (0x014Cu32, 0x000C_4090u32),
    ]
}

fn timing_3200_table() -> (t: [(u32, u32); 23])
    ensures
        t@ == spec_timing_3200_table(),
{
    let t = [
        (0x0104u32, 0xF080_0400u32),
        (0x0100u32, 0x0000_0E20u32),
        (0x010Cu32, 0x9D19_4314u32),
        (0x0110u32, 0x2034_0000u32),
        (0x0114u32, 0x2034_0000u32),
        (0x018Cu32, 0x0000_0030u32),
        (0x0190u32, 0x0640_0030u32),
        (0x0194u32, 0x80E0_01C0u32),
        (0x01FCu32, 0x000C_005Eu32),
        (0x0198u32, 0x01CC_01CCu32),
        (0x019Cu32, 0x0018_1818u32),
        (0x01A0u32, 0x0818_0C0Cu32),
        (0x01A4u32, 0x0000_0003u32),
        (0x01A8u32, 0x0000_0217u32),
        (0x01ACu32, 0x3065_1D44u32),
        (0x01B0u32, 0x1120_080Fu32),
        (0x01B4u32, 0x0800_1000u32),
        (0x01B8u32, 0x0000_0C00u32),
        (0x01BCu32, 0x0202_0404u32),
        (0x01C0u32, 0x1000_0004u32),
        (0x01C4u32, 0x0000_0006u32),
        (0x01D8u32, 0x0001_0190u32),
        (0x014Cu32, 0x000C_4090u32),
    ];
    assert(t@ =~= spec_timing_3200_table());
    t
}

/// PHY-control timing for the 3200 MT frequency point (offset, value).
pub open spec fn spec_phy_timing_3200_table() -> Seq<(u32, u32)> {
    seq![
        (0x03E4u32, 0x1500_0A02u32),
        (0x03ECu32, 0x0000_046Cu32),
    ]
}

fn phy_timing_3200_table() -> (t: [(u32, u32); 2])
    ensures
        t@ == spec_phy_timing_3200_table(),
{
    let t = [
        (0x03E4u32, 0x1500_0A02u32),
        (0x03ECu32, 0x0000_046Cu32),
    ];
    assert(t@ =~= spec_phy_timing_3200_table());
    t
}

/// Channel timing for the 2400 MT frequency point (offset, value).
pub open spec fn spec_timing_2400_table() -> Seq<(u32, u32)> {
    seq![
        (0x0104u32, 0xA080_0400u32),
        (0x0100u32, 0x0000_0C18u32),
        (0x010Cu32, 0x9D19_4314u32),
        (0x0110u32, 0x0034_0000u32),
        (0x0114u32, 0x0034_0000u32),
        (0x018Cu32, 0x0043_0000u32),
        (0x0190u32, 0x0535_0028u32),
        (0x0194u32, 0x80A8_0151u32),
        (0x01FCu32, 0x000C_005Eu32),
        (0x0198u32, 0x017F_017Fu32),
        (0x019Cu32, 0x0014_1414u32),
        (0x01A0u32, 0x0714_0A0Au32),
        (0x01A4u32, 0x0000_0003u32),
        (0x01A8u32, 0x0000_0213u32),
        (0x01ACu32, 0x3654_1838u32),
        (0x01B0u32, 0x1C18_0A18u32),
        (0x01B4u32, 0x0800_0E00u32),
        (0x01B8u32, 0x0000_0E00u32),
        (0x01BCu32, 0x0202_0404u32),
        (0x01C0u32, 0x1000_0004u32),
        (0x01C4u32, 0x0000_0004u32),
        (0x01D8u32, 0x0000_D94Eu32),
        (0x014Cu32, 0x0007_204Au32),
    ]
}

fn timing_2400_table() -> (t: [(u32, u32); 23])
    ensures
        t@ == spec_timing_2400_table(),
{
    let t = [
        (0x0104u32, 0xA080_0400u32),
        (0x0100u32, 0x0000_0C18u32),
        (0x010Cu32, 0x9D19_4314u32),
        (0x0110u32, 0x0034_0000u32),
        (0x0114u32, 0x0034_0000u32),
        (0x018Cu32, 0x0043_0000u32),
        (0x0190u32, 0x0535_0028u32),
        (0x0194u32, 0x80A8_0151u32),
        (0x01FCu32, 0x000C_005Eu32),
        (0x0198u32, 0x017F_017Fu32),
        (0x019Cu32, 0x0014_1414u32),
        (0x01A0u32, 0x0714_0A0Au32),
        (0x01A4u32, 0x0000_0003u32),
        (0x01A8u32, 0x0000_0213u32),
        (0x01ACu32, 0x3654_1838u32),
        (0x01B0u32, 0x1C18_0A18u32),
        (0x01B4u32, 0x0800_0E00u32),
        (0x01B8u32, 0x0000_0E00u32),
        (0x01BCu32, 0x0202_0404u32),
        (0x01C0u32, 0x1000_0004u32),
        (0x01C4u32, 0x0000_0004u32),
        (0x01D8u32, 0x0000_D94Eu32),
        (0x014Cu32, 0x0007_204Au32),
    ];
    assert(t@ =~= spec_timing_2400_table());
    t
}

/// PHY-control timing for the 2400 MT frequency point (offset, value).
pub open spec fn spec_phy_timing_2400_table() -> Seq<(u32, u32)> {
    seq![
        (0x03E4u32, 0x1300_0802u32),
        (0x03ECu32, 0x0000_0450u32),
    ]
}

fn phy_timing_2400_table() -> (t: [(u32, u32); 2])
    ensures
        t@ == spec_phy_timing_2400_table(),
{
    let t = [
        (0x03E4u32, 0x1300_0802u32),
        (0x03ECu32, 0x0000_0450u32),
    ];
    assert(t@ =~= spec_phy_timing_2400_table());
    t
}

/// Channel timing for the 1600 MT frequency point (offset, value).
pub open spec fn spec_timing_1600_table() -> Seq<(u32, u32)> {
    seq![
        (0x0104u32, 0x5080_0400u32),
        (0x0100u32, 0x0000_080Eu32),
        (0x010Cu32, 0x9D19_4314u32),
        (0x0110u32, 0x0034_0000u32),
        (0x0114u32, 0x0034_0000u32),
        (0x018Cu32, 0x0028_0018u32),
        (0x0190u32, 0x0320_0018u32),
        (0x0194u32, 0x8070_00E0u32),
        (0x01FCu32, 0x000C_005Eu32),
        (0x0198u32, 0x00E6_00E6u32),
        (0x019Cu32, 0x000C_0C0Cu32),
        (0x01A0u32, 0x050C_0606u32),
        (0x01A4u32, 0x0000_0003u32),
        (0x01A8u32, 0x0000_020Cu32),
        (0x01ACu32, 0x1833_0F22u32),
        (0x01B0u32, 0x110F_080Fu32),
        (0x01B4u32, 0x0800_0800u32),
        (0x01B8u32, 0x0000_0600u32),
        (0x01BCu32, 0x0202_0404u32),
        (0x01C0u32, 0x0000_0003u32),
        (0x01C4u32, 0x0000_0003u32),
        (0x01D8u32, 0x0000_8190u32),
        (0x014Cu32, 0x0003_0848u32),
    ]
}

fn timing_1600_table() -> (t: [(u32, u32); 23])
    ensures
        t@ == spec_timing_1600_table(),
{
    let t = [
        (0x0104u32, 0x5080_0400u32),
        (0x0100u32, 0x0000_080Eu32),
        (0x010Cu32, 0x9D19_4314u32),
        (0x0110u32, 0x0034_0000u32),
        (0x0114u32, 0x0034_0000u32),
        (0x018Cu32, 0x0028_0018u32),
        (0x0190u32, 0x0320_0018u32),
        (0x0194u32, 0x8070_00E0u32),
        (0x01FCu32, 0x000C_005Eu32),
        (0x0198u32, 0x00E6_00E6u32),
        (0x019Cu32, 0x000C_0C0Cu32),
        (0x01A0u32, 0x050C_0606u32),
        (0x01A4u32, 0x0000_0003u32),
        (0x01A8u32, 0x0000_020Cu32),
        (0x01ACu32, 0x1833_0F22u32),
        (0x01B0u32, 0x110F_080Fu32),
        (0x01B4u32, 0x0800_0800u32),
        (0x01B8u32, 0x0000_0600u32),
        (0x01BCu32, 0x0202_0404u32),
        (0x01C0u32, 0x0000_0003u32),
        (0x01C4u32, 0x0000_0003u32),
        (0x01D8u32, 0x0000_8190u32),
        (0x014Cu32, 0x0003_0848u32),
    ];
    assert(t@ =~= spec_timing_1600_table());
    t
}

/// PHY-control timing for the 1600 MT frequency point (offset, value).
pub open spec fn spec_phy_timing_1600_table() -> Seq<(u32, u32)> {
    seq![
        (0x03E4u32, 0x0A00_0402u32),
        (0x03ECu32, 0x0000_0480u32),
    ]
}

fn phy_timing_1600_table() -> (t: [(u32, u32); 2])
    ensures
        t@ == spec_phy_timing_1600_table(),
{
    let t = [
        (0x03E4u32, 0x0A00_0402u32),
        (0x03ECu32, 0x0000_0480u32),
    ];
    assert(t@ =~= spec_phy_timing_1600_table());
    t
}

/// Channel timing for the 1200 MT frequency point (offset, value).
pub open spec fn spec_timing_1200_table() -> Seq<(u32, u32)> {
    seq![
        (0x0104u32, 0x0080_0400u32),
        (0x0100u32, 0x0000_080Eu32),
        (0x010Cu32, 0x9D19_4314u32),
        (0x0110u32, 0x0034_0000u32),
        (0x0114u32, 0x0034_0000u32),
        (0x018Cu32, 0x0028_0018u32),
        (0x0190u32, 0x0320_0018u32),
        (0x0194u32, 0x8054_00A8u32),
        (0x01FCu32, 0x000C_005Eu32),
        (0x0198u32, 0x00E6_00E6u32),
        (0x019Cu32, 0x000C_0C0Cu32),
        (0x01A0u32, 0x050C_0606u32),
        (0x01A4u32, 0x0000_0003u32),
        (0x01A8u32, 0x0000_020Cu32),
        (0x01ACu32, 0x1833_0F22u32),
        (0x01B0u32, 0x110F_080Fu32),
        (0x01B4u32, 0x0800_0800u32),
        (0x01B8u32, 0x0000_0600u32),
        (0x01BCu32, 0x0202_0404u32),
        (0x01C0u32, 0x0000_0002u32),
        (0x01C4u32, 0x0000_0003u32),
        (0x01D8u32, 0x0000_8190u32),
        (0x014Cu32, 0x0003_0848u32),
    ]
}

fn timing_1200_table() -> (t: [(u32, u32); 23])
    ensures
        t@ == spec_timing_1200_table(),
{
    let t = [
        (0x0104u32, 0x0080_0400u32),
        (0x0100u32, 0x0000_080Eu32),
        (0x010Cu32, 0x9D19_4314u32),
        (0x0110u32, 0x0034_0000u32),
        (0x0114u32, 0x0034_0000u32),
        (0x018Cu32, 0x0028_0018u32),
        (0x0190u32, 0x0320_0018u32),
        (0x0194u32, 0x8054_00A8u32),
        (0x01FCu32, 0x000C_005Eu32),
        (0x0198u32, 0x00E6_00E6u32),
        (0x019Cu32, 0x000C_0C0Cu32),
        (0x01A0u32, 0x050C_0606u32),
        (0x01A4u32, 0x0000_0003u32),
        (0x01A8u32, 0x0000_020Cu32),
        (0x01ACu32, 0x1833_0F22u32),
        (0x01B0u32, 0x110F_080Fu32),
        (0x01B4u32, 0x0800_0800u32),
        (0x01B8u32, 0x0000_0600u32),
        (0x01BCu32, 0x0202_0404u32),
        (0x01C0u32, 0x0000_0002u32),
        (0x01C4u32, 0x0000_0003u32),
        (0x01D8u32, 0x0000_8190u32),
        (0x014Cu32, 0x0003_0848u32),
    ];
    assert(t@ =~= spec_timing_1200_table());
    t
}

/// PHY-control timing for the 1200 MT frequency point (offset, value).
pub open spec fn spec_phy_timing_1200_table() -> Seq<(u32, u32)> {
    seq![
        (0x03E4u32, 0x0A00_0402u32),
        (0x03ECu32, 0x0000_0480u32),
    ]
}

fn phy_timing_1200_table() -> (t: [(u32, u32); 2])
    ensures
        t@ == spec_phy_timing_1200_table(),
{
    let t = [
        (0x03E4u32, 0x0A00_0402u32),
        (0x03ECu32, 0x0000_0480u32),
    ];
    assert(t@ =~= spec_phy_timing_1200_table());
    t
}

/// Refresh and power-down timing counts (offset, value).
pub open spec fn spec_timing_count_table() -> Seq<(u32, u32)> {
    seq![
        (0x0180u32, 0x0030_D400u32),
        (0x0184u32, 0x0004_E200u32),
        (0x0188u32, 0x0C80_0000u32),
    ]
}

fn timing_count_table() -> (t: [(u32, u32); 3])
    ensures
        t@ == spec_timing_count_table(),
{
    let t = [
        (0x0180u32, 0x0030_D400u32),
        (0x0184u32, 0x0004_E200u32),
        (0x0188u32, 0x0C80_0000u32),
    ];
    assert(t@ =~= spec_timing_count_table());
    t
}

/// The timing writes of the four frequency points (3200, 2400, 1600, 1200 MT), then
/// channel 0x108 bits 27..20 set to 0x10.
pub open spec fn spec_timing_ops() -> Seq<RegOp> {
    write_ops(DDR_CTRL_CHANNEL_BASE, spec_timing_3200_table())
        + write_ops(DDR_CTRL_PHY_CONTROL_BASE, spec_phy_timing_3200_table())
        + write_ops(DDR_CTRL_CHANNEL_BASE, spec_timing_2400_table())
        + write_ops(DDR_CTRL_PHY_CONTROL_BASE, spec_phy_timing_2400_table())
        + write_ops(DDR_CTRL_CHANNEL_BASE, spec_timing_1600_table())
        + write_ops(DDR_CTRL_PHY_CONTROL_BASE, spec_phy_timing_1600_table())
        + write_ops(DDR_CTRL_CHANNEL_BASE, spec_timing_1200_table())
        + write_ops(DDR_CTRL_PHY_CONTROL_BASE, spec_phy_timing_1200_table())
        + seq![RegOp::Modify { addr: 0xC000_0308u32, clear: 0x0FF0_0000u32, set: 0x0100_0000u32 }]
}

/// Channel CFG2 (0x104) with the frequency-point select (bits 31..28) cleared.
pub open spec fn spec_select_freq_op() -> RegOp {
    RegOp::Modify { addr: 0xC000_0304u32, clear: 0xF000_0000u32, set: 0 }
}

/// The whole controller pass for `byte_mode`.
pub open spec fn spec_init_ops(byte_mode: ByteMode) -> Seq<RegOp> {
    write_ops(DDR_CTRL_BASE, spec_global_table())
        + write_ops(DDR_CTRL_CHANNEL_BASE, spec_channel_table())
        + spec_timing_ops()
        + (if byte_mode == ByteMode::Enable { spec_byte_mode_ops() } else { Seq::empty() })
        + seq![spec_select_freq_op()]
        + write_ops(DDR_CTRL_CHANNEL_BASE, spec_timing_count_table())
}

fn config_ctrl_global(plan: &mut Vec<RegOp>)
    ensures
        final(plan)@ == old(plan)@ + write_ops(DDR_CTRL_BASE, spec_global_table()),
{
    let t = global_table();
    let w: MMIO<Raw> = MMIO::base(DDR_CTRL_BASE);
    w.write(plan, &t);
}

fn config_ctrl_channal(plan: &mut Vec<RegOp>)
    ensures
        final(plan)@ == old(plan)@ + write_ops(DDR_CTRL_CHANNEL_BASE, spec_channel_table()),
{
    let t = channel_table();
    let w: MMIO<Raw> = MMIO::base(DDR_CTRL_CHANNEL_BASE);
    w.write(plan, &t);
}

fn config_timing(plan: &mut Vec<RegOp>)
    ensures
        final(plan)@ == old(plan)@ + spec_timing_ops(),
{
    let channel: MMIO<Raw> = MMIO::base(DDR_CTRL_CHANNEL_BASE);
    let phy_control: MMIO<Raw> = MMIO::base(DDR_CTRL_PHY_CONTROL_BASE);
    let t = timing_3200_table();
    channel.write(plan, &t);
    let t = phy_timing_3200_table();
    phy_control.write(plan, &t);
    let t = timing_2400_table();
    channel.write(plan, &t);
    let t = phy_timing_2400_table();
    phy_control.write(plan, &t);
    let t = timing_1600_table();
    channel.write(plan, &t);
    let t = phy_timing_1600_table();
    phy_control.write(plan, &t);
    let t = timing_1200_table();
    channel.write(plan, &t);
    let t = phy_timing_1200_table();
    phy_control.write(plan, &t);
    channel.modify(plan, 0x0108, 0b1111_1111u32 << 20u32, 0b0001_0000u32 << 20u32);
    proof { crate::bits::shift_constants(); }
    assert(plan@ =~= old(plan)@ + spec_timing_ops());
}

fn select_freq(plan: &mut Vec<RegOp>)
    ensures
        final(plan)@ == old(plan)@.push(spec_select_freq_op()),
{
    let channel: MMIO<Raw> = MMIO::base(DDR_CTRL_CHANNEL_BASE);
    proof { crate::bits::shift_constants(); }
    channel.modify(plan, 0x0104, 0xFu32 << 28u32, 0);
}

fn config_timing_count(plan: &mut Vec<RegOp>)
    ensures
        final(plan)@ == old(plan)@ + write_ops(DDR_CTRL_CHANNEL_BASE, spec_timing_count_table()),
{
    let t = timing_count_table();
    let w: MMIO<Raw> = MMIO::base(DDR_CTRL_CHANNEL_BASE);
    w.write(plan, &t);
}

/// Program the controller: global and channel settings, the timing of all four frequency
/// points, the x8 byte-mode timing when `byte_mode` asks for it, frequency point 0
/// selected, and the refresh and power-down counts.
pub fn init(byte_mode: ByteMode, plan: &mut Vec<RegOp>)
    ensures
        final(plan)@ == old(plan)@ + spec_init_ops(byte_mode),
{
    let ghost start = plan@;
    config_ctrl_global(plan);
    config_ctrl_channal(plan);
    config_timing(plan);
    let ghost before_byte = plan@;
    if matches!(byte_mode, ByteMode::Enable) {
        set_byte_mode_parameter(plan);
    }
    assert(plan@ =~= before_byte + (if byte_mode == ByteMode::Enable { spec_byte_mode_ops() } else { Seq::empty() }));
    select_freq(plan);
    config_timing_count(plan);
    assert(plan@ =~= start + spec_init_ops(byte_mode));
}

/// Area length, chip-select 1 start (high word) and row setting of the address map for a
/// capacity.
pub open spec fn addr_map_params(capacity: DdrCapacity) -> (u32, u32, u32) {
    match capacity {
        DdrCapacity::GB16 => (0x11, 2, 8),
        DdrCapacity::GB8 => (0x10, 1, 7),
    }
}

/// The address-map writes for `capacity`, given the values the channel registers 0x00,
/// 0x08, 0x20 and 0x24 held: the area length replaces bits 31..23 and 20..16 of 0x00 and
/// 0x08, 0x04 is cleared, 0x0C takes the chip-select 1 start, and the row/bank/column code
/// replaces bits 11..4 and 1..0 of 0x20 and 0x24.
pub open spec fn spec_addr_map_table(capacity: DdrCapacity, current: [u32; 4]) -> Seq<(u32, u32)> {
    let (area_length, cs1_start_high, row) = addr_map_params(capacity);
    let area = (area_length * 0x1_0000) as u32;
    let addrmap = (row * 0x100 + 0x32) as u32;
    seq![
        (0x00u32, (current[0] & !0xFF9F_0000u32) | area),
        (0x04u32, 0u32),
        (0x08u32, (current[1] & !0xFF9F_0000u32) | area),
        (0x0Cu32, cs1_start_high),
        (0x20u32, (current[2] & !0x0FF3u32) | addrmap),
        (0x24u32, (current[3] & !0x0FF3u32) | addrmap),
    ]
}

/// Program the address map for `capacity`. `current` holds the values read from channel
/// registers 0x00, 0x08, 0x20 and 0x24 before the writes.
pub fn config_addr_mapping(capacity: DdrCapacity, current: [u32; 4], plan: &mut Vec<RegOp>)
    ensures
        final(plan)@ == old(plan)@ + write_ops(DDR_CTRL_CHANNEL_BASE, spec_addr_map_table(capacity, current)),
{
    let (area_length, cs1_start_high, row): (u32, u32, u32) = match capacity {
        DdrCapacity::GB16 => (0x11, 2, 8),
        DdrCapacity::GB8 => (0x10, 1, 7),
    };
    let addrmap = (row << 8u32) | (0x3u32 << 4u32) | 0x2u32;
    let area = area_length << 16u32;
    proof { crate::bits::shift_constants(); }
    assert(row <= 8 ==> ((row << 8u32) | (0x3u32 << 4u32) | 0x2u32) == row * 0x100 + 0x32) by (bit_vector);
    assert(area_length <= 0x11 ==> (area_length << 16u32) == area_length * 0x1_0000) by (bit_vector);
    let table = [
        (0x00u32, (current[0] & !(0xFF9Fu32 << 16u32)) | area),
        (0x04u32, 0x0u32),
        (0x08u32, (current[1] & !(0xFF9Fu32 << 16u32)) | area),
        (0x0Cu32, cs1_start_high),
        (0x20u32, (current[2] & !0x0FF3u32) | addrmap),
        (0x24u32, (current[3] & !0x0FF3u32) | addrmap),
    ];
    assert(table@ =~= spec_addr_map_table(capacity, current));
    let channel: MMIO<Raw> = MMIO::base(DDR_CTRL_CHANNEL_BASE);
    channel.write(plan, &table);
}

} // verus!
