//! DRAM mode registers: the initialisation pulses, capacity and vendor decoding from MR8 and
//! MR5, and the extra MR21 pulse of 16 GB parts.
use vstd::prelude::*;
use crate::mmio::{MMIO, Raw, RegOp};
use crate::ddr::register::DDR_CTRL_BASE;

verus! {

/// Detected DRAM size.
#[derive(Clone, Copy, PartialEq, Eq, Structural, Debug)]
pub enum DdrCapacity {
    /// 8 GB in total.
    GB8,
    /// 16 GB in total.
    GB16,
}

/// DRAM vendor decoded from MR5.
#[derive(Clone, Copy, PartialEq, Eq, Structural, Debug)]
pub enum Manufacturer {
    /// MR5 = 0x01.
    Samsung,
    /// MR5 = 0x06.
    Hynix,
    /// MR5 = 0xFF.
    Micron,
    /// Any other MR5.
    Unknown,
}

/// The controller command that pulses mode-register operation `id`.
pub open spec fn mr_pulse_command(id: u32) -> u32 {
    (0x1302_0000u32 | id) as u32
}

/// A mode-register pulse: the command to controller 0x24, then a 1 µs pause.
pub open spec fn mr_pulse_ops(id: u32) -> Seq<RegOp> {
    seq![RegOp::Write { addr: 0xC000_0024u32, value: mr_pulse_command(id) }, RegOp::Sleep { micros: 1 }]
}

/// Pulse mode-register operation `id` and wait 1 µs.
pub fn mr_pulse(plan: &mut Vec<RegOp>, id: u32)
    ensures
        final(plan)@ == old(plan)@ + mr_pulse_ops(id),
{
    let ctrl: MMIO<Raw> = MMIO::base(DDR_CTRL_BASE);
    ctrl.write(plan, &[(0x24u32, 0x1302_0000u32 | id)]);
    plan.push(RegOp::Sleep { micros: 1 });
    assert(plan@ =~= old(plan)@ + mr_pulse_ops(id));
}

/// The mode-register pulses and ZQ commands after power-up, in JEDEC order.
pub open spec fn spec_mr_sequence() -> Seq<RegOp> {
    mr_pulse_ops(0x01) + mr_pulse_ops(0x02) + mr_pulse_ops(0x0D) + mr_pulse_ops(0x03)
        + mr_pulse_ops(0x16)
        + seq![
            RegOp::Write { addr: 0xC000_0020u32, value: 0x1100_2000u32 },
            RegOp::Write { addr: 0xC000_0020u32, value: 0x1100_1000u32 },
            RegOp::Write { addr: 0xC000_0020u32, value: 0x1200_2000u32 },
            RegOp::Write { addr: 0xC000_0020u32, value: 0x1200_1000u32 },
        ]
        + mr_pulse_ops(0x0C) + mr_pulse_ops(0x0E) + mr_pulse_ops(0x0B) + mr_pulse_ops(0x17)
}

/// Append the mode-register pulses and ZQ commands of `spec_mr_sequence`.
pub fn mr_sequence(plan: &mut Vec<RegOp>)
    ensures
        final(plan)@ == old(plan)@ + spec_mr_sequence(),
{
    let ghost start = plan@;
    mr_pulse(plan, 0x01);
    mr_pulse(plan, 0x02);
    mr_pulse(plan, 0x0D);
    mr_pulse(plan, 0x03);
    mr_pulse(plan, 0x16);
    let ctrl: MMIO<Raw> = MMIO::base(DDR_CTRL_BASE);
    ctrl.write(plan, &[(0x20u32, 0x1100_2000u32), (0x20u32, 0x1100_1000u32), (0x20u32, 0x1200_2000u32), (0x20u32, 0x1200_1000u32)]);
    mr_pulse(plan, 0x0C);
    mr_pulse(plan, 0x0E);
    mr_pulse(plan, 0x0B);
    mr_pulse(plan, 0x17);
    assert(plan@ =~= start + spec_mr_sequence());
}

/// DRAM initialisation: start the controller's init command (0x20 = 0x1300_0001), wait
/// until status 0x8 shows both done bits (0x11), then the mode-register sequence.
pub open spec fn spec_init_ops() -> Seq<RegOp> {
    seq![
        RegOp::Write { addr: 0xC000_0020u32, value: 0x1300_0001u32 },
        RegOp::WaitUntil { addr: 0xC000_0008u32, mask: 0x11u32, value: 0x11u32 },
    ] + spec_mr_sequence()
}

/// Issue the DRAM initialisation of `spec_init_ops`.
pub fn init(plan: &mut Vec<RegOp>)
    ensures
        final(plan)@ == old(plan)@ + spec_init_ops(),
{
    let ghost start = plan@;
    let ctrl: MMIO<Raw> = MMIO::base(DDR_CTRL_BASE);
    ctrl.write(plan, &[(0x20u32, 0x1300_0001u32)]);
    ctrl.wait_until(plan, 0x8, 0x11, 0x11);
    mr_sequence(plan);
    assert(plan@ =~= start + spec_init_ops());
}

/// The controller command that reads mode register `mr` of channel `ch`, chip-select `cs`.
pub open spec fn mr_read_command(mr: u32, ch: u32, cs: u32) -> u32 {
    (0x1001_0000u32 | (((cs + 1) as u32) << 24u32) | (ch << 18u32) | mr) as u32
}

/// Start a mode-register read: the read command to controller 0x24, then a wait until
/// bit 31 of 0x370 is set. The result is the low byte of the register whose address this
/// returns (controller 0x370).
pub fn mr_read(plan: &mut Vec<RegOp>, mr: u32, ch: u32, cs: u32) -> (result_addr: u32)
    requires
        cs < 255,
    ensures
        final(plan)@ == old(plan)@ + seq![
            RegOp::Write { addr: 0xC000_0024u32, value: mr_read_command(mr, ch, cs) },
            RegOp::WaitUntil { addr: 0xC000_0370u32, mask: 0x8000_0000u32, value: 0x8000_0000u32 },
        ],
        result_addr == 0xC000_0370u32,
{
    let ctrl: MMIO<Raw> = MMIO::base(DDR_CTRL_BASE);
    ctrl.write(plan, &[(0x24u32, 0x1001_0000u32 | ((cs + 1) << 24u32) | (ch << 18u32) | mr)]);
    proof { crate::bits::shift_constants(); }
    ctrl.wait_until(plan, 0x370, 1u32 << 31u32, 1u32 << 31u32);
    assert(plan@ =~= old(plan)@ + seq![
        RegOp::Write { addr: 0xC000_0024u32, value: mr_read_command(mr, ch, cs) },
        RegOp::WaitUntil { addr: 0xC000_0370u32, mask: 0x8000_0000u32, value: 0x8000_0000u32 },
    ]);
    ctrl.read(0x370)
}

/// Gigabytes of one channel and chip-select from its MR8: the density field (bits 5..2;
/// 4 = 1 GB, 6 = 2 GB) times the IO-width factor (bits 7..6; x16 = 1, x8 = 2). Any other
/// field value contributes 0.
pub open spec fn spec_capacity_from_mr8(mr8: u8) -> u32 {
    let density = (mr8 / 4) % 16;
    let io_width = mr8 / 64;
    let gb: u32 = if density == 4 { 1 } else if density == 6 { 2 } else { 0 };
    let factor: u32 = if io_width == 0 { 1 } else if io_width == 1 { 2 } else { 0 };
    (gb * factor) as u32
}

/// Decode one MR8 byte into its capacity in gigabytes.
pub fn capacity_from_mr8(mr8: u8) -> (gb: u32)
    ensures
        gb == spec_capacity_from_mr8(mr8),
        gb <= 4,
{
    let density = (mr8 >> 2u8) & 0xF;
    let io_width = (mr8 >> 6u8) & 0x3;
    assert(((mr8 >> 2u8) & 0xF) == (mr8 / 4) % 16) by (bit_vector);
    assert(((mr8 >> 6u8) & 0x3) == mr8 / 64) by (bit_vector);
    let gb: u32 = if density == 4 { 1 } else if density == 6 { 2 } else { 0 };
    let factor: u32 = if io_width == 0 { 1 } else if io_width == 1 { 2 } else { 0 };
    gb * factor
}

/// The total capacity over both channels and chip-selects, from the MR8 values read at
/// (ch 0, cs 0), (ch 1, cs 0), (ch 0, cs 1) and (ch 1, cs 1).
pub open spec fn spec_capacity_total(mr8: [u8; 4]) -> int {
    spec_capacity_from_mr8(mr8[0]) + spec_capacity_from_mr8(mr8[1]) + spec_capacity_from_mr8(mr8[2])
        + spec_capacity_from_mr8(mr8[3])
}

/// The total capacity in gigabytes.
pub fn capacity_total(mr8: [u8; 4]) -> (gb: u32)
    ensures
        gb == spec_capacity_total(mr8),
{
    capacity_from_mr8(mr8[0]) + capacity_from_mr8(mr8[1]) + capacity_from_mr8(mr8[2])
        + capacity_from_mr8(mr8[3])
}

/// The capacity the four MR8 values describe; only 8 GB and 16 GB parts are supported.
pub fn detect_capacity(mr8: [u8; 4]) -> (c: DdrCapacity)
    requires
        spec_capacity_total(mr8) == 8 || spec_capacity_total(mr8) == 16,
    ensures
        c == (if spec_capacity_total(mr8) == 16 { DdrCapacity::GB16 } else { DdrCapacity::GB8 }),
{
    let total = capacity_total(mr8);
    if total == 16 {
        DdrCapacity::GB16
    } else {
        DdrCapacity::GB8
    }
}

/// The vendor MR5 names.
pub open spec fn spec_manufacturer(mr5: u8) -> Manufacturer {
    if mr5 == 0x01 {
        Manufacturer::Samsung
    } else if mr5 == 0x06 {
        Manufacturer::Hynix
    } else if mr5 == 0xFF {
        Manufacturer::Micron
    } else {
        Manufacturer::Unknown
    }
}

/// Decode MR5 (read on channel 0, chip-select 0) into the DRAM vendor.
pub fn detect_manufacturer(mr5: u8) -> (m: Manufacturer)
    ensures
        m == spec_manufacturer(mr5),
{
    match mr5 {
        0x01 => Manufacturer::Samsung,
        0x06 => Manufacturer::Hynix,
        0xFF => Manufacturer::Micron,
        _ => Manufacturer::Unknown,
    }
}

/// The capacity follow-up: MR21 (pulse 0x95) on 16 GB parts, nothing on 8 GB.
pub open spec fn spec_capacity_ops(capacity: DdrCapacity) -> Seq<RegOp> {
    if capacity == DdrCapacity::GB16 { mr_pulse_ops(0x95) } else { Seq::empty() }
}

/// Pulse MR21 on 16 GB parts.
pub fn config_for_capacity(capacity: DdrCapacity, plan: &mut Vec<RegOp>)
    ensures
        final(plan)@ == old(plan)@ + spec_capacity_ops(capacity),
{
    if matches!(capacity, DdrCapacity::GB16) {
        mr_pulse(plan, 0x95);
    } else {
        assert(plan@ =~= old(plan)@ + spec_capacity_ops(capacity));
    }
}

} // verus!
