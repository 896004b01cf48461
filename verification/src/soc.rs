//! Operations on the SoC's clock, power-management and pin-control units (APMU, MPMU,
//! APBS, APBC and the pin controller). Each step is given its meaning over a model of
//! those registers by name: which register it writes (replacing every field) or modifies
//! (keeping the fields it does not name), and the value of each field it names. The bit
//! positions and the numbers behind named values belong to the SoC register map.
use vstd::prelude::*;
use crate::mmio::RegOp;
use crate::ddr::freq::DdrFreq;
use crate::ddr::dram::Manufacturer;

verus! {

/// One clock, power or pin-control operation.
#[derive(Clone, Copy, PartialEq, Eq, Structural, Debug)]
pub enum SocStep {
    /// APMU DDR PHY PLL1 control, byte 1: the 1200 MT setting.
    DdrPllControlMt1200,
    /// APMU DDR PHY PLL1 enable: set bits 8, 9 and 11.
    DdrPllEnable,
    /// Wait until APMU DDR PHY PLL1 enable reports lock (bits 16 and 17).
    DdrPllWaitLocked,
    /// APMU DDR PHY PLL1 enable: the frequency field for this data rate.
    DdrPllSelect(DdrFreq),
    /// APMU DDR hardware sleep type: DDRP0, DCLK bypass clock and reset, register table.
    DdrSleepTypeBypass,
    /// APMU DDR hardware sleep type: DDRP0, DCLK bypass reset, then PLL change mode and the
    /// register table of this data rate (bypass clock and divider for the external clock).
    DdrSleepTypeSelect(DdrFreq),
    /// APMU DDR hardware sleep type: DCLK bypass reset set (`true`) or cleared (`false`).
    DclkBypassReset(bool),
    /// APMU AP clock control: request bit 26.
    ApClockRequestBit26,
    /// Wait until APMU AP clock control bit 26 clears.
    ApClockWaitBit26Clear,
    /// APMU DDR controller AHB: AHB clock enable and HCLK reset release.
    DdrAhbClockEnable,
    /// APMU DDR PHY PLL divider, byte 1 = 0x0F.
    DdrPhyPllDivInit,
    /// APMU DDR PHY LDO control: set bits 10 and 11.
    DdrPhyLdoEnable,
    /// The vendor-specific PHY settings for this DRAM manufacturer.
    PhyForManufacturer(Manufacturer),
    /// APMU AP interrupt mask: mask the DCLK frequency-change-done interrupt.
    MaskDclkFcDoneInterrupt,
    /// APMU AP clock control: request a DDR frequency change.
    DdrFreqChangeRequest,
    /// Wait until the DDR frequency-change request clears.
    DdrFreqChangeWait,
    /// MPMU clock gating: every clock on.
    EnableAllClocks,
    /// APBS PLL3 switch control 3: PLL enable.
    Pll3Enable,
    /// APBS PLL3 switch control 2: divide-by-2 output enable.
    Pll3Div2Enable,
    /// APMU CPU cluster clock control: high clock select cleared and 1600 MHz selected.
    ClusterClock1600(u8),
    /// APMU CPU cluster clock control: request the frequency change.
    ClusterFreqChangeRequest(u8),
    /// Wait until the cluster's frequency-change request clears.
    ClusterFreqChangeWait(u8),
    /// APMU reset vector of a cluster: the low (`high == false`) or high word.
    ResetVector { cluster: u8, high: bool, value: u32 },
    /// APMU MP idle configuration of a core of a cluster: idle, power-down and L2 SRAM
    /// power-down cleared.
    ClusterMpIdleClear { cluster: u8, core: u8 },
    /// APMU idle configuration of a core: idle and power-down cleared, GIC IRQ/FIQ unmasked.
    CoreIdleClear(u8),
    /// APMU core 0 wakeup: wake cores 1 to 7.
    WakeCores1To7,
    /// MPMU clock gating: the 204.8 MHz clock on.
    Clock204p8Enable,
    /// APBS PLL1 switch control 2: divide-by-5 output enable.
    Pll1Div5Enable,
    /// Pin controller: GPIO pin to alternate function 2 (I2C).
    PinmuxI2c(u8),
    /// APBC TWSI8 clock/reset: reset.
    Twsi8Reset,
    /// APBC TWSI8 clock/reset: reset with function and bus clocks on.
    Twsi8ResetClocksOn,
    /// APBC TWSI8 clock/reset: out of reset with function and bus clocks on.
    Twsi8ClocksOn,
    /// Pin controller: a QSPI data pin to function 0, edge clear, drive 2, no pull.
    PinmuxQspiData(u8),
    /// Pin controller: the QSPI clock pin, as the data pins.
    PinmuxQspiClk,
    /// Pin controller: QSPI chip-select 1, function 0, edge clear, drive 2, pull-up.
    PinmuxQspiCs1,
    /// APMU QSPI clock/reset register cleared.
    QspiClockOff,
    /// APMU QSPI clock/reset: divider 4, 106 MHz, clock and bus clock on, out of reset.
    QspiClockOn,
}

/// A pin of the pin controller.
#[derive(Clone, Copy, PartialEq, Eq, Structural, Debug)]
pub enum SocPin {
    /// A GPIO pin, by number.
    Gpio(u8),
    /// QSPI data pin 0..3.
    QspiData(u8),
    /// The QSPI clock pin.
    QspiClk,
    /// QSPI chip-select 1.
    QspiCs1,
}

/// A register of the clock, power-management and pin-control units.
#[derive(Clone, Copy, PartialEq, Eq, Structural, Debug)]
pub enum SocReg {
    /// MPMU clock gating.
    MpmuClockGating,
    /// APBS PLL3 switch control 3.
    Pll3Sw3Control,
    /// APBS PLL3 switch control 2.
    Pll3Sw2Control,
    /// APBS PLL1 switch control 2.
    Pll1Sw2Control,
    /// APMU CPU cluster clock control.
    ClusterClockControl(u8),
    /// APMU cluster reset vector, low word.
    ClusterResetVectorLow(u8),
    /// APMU cluster reset vector, high word.
    ClusterResetVectorHigh(u8),
    /// APMU MP idle configuration of (cluster, core).
    ClusterMpIdleCfg(u8, u8),
    /// APMU idle configuration of a core.
    CoreIdleCfg(u8),
    /// APMU core 0 wakeup.
    Core0Wakeup,
    /// APMU DDR PHY PLL1 control, low word.
    DdrPhyPll1ControlLow,
    /// APMU DDR PHY PLL1 enable.
    DdrPhyPll1Enable,
    /// APMU DDR controller hardware sleep type.
    DdrCtrlHardwareSleepType,
    /// APMU AP clock control.
    ApClockControl,
    /// APMU DDR controller AHB.
    DdrCtrlAhb,
    /// APMU DDR PHY PLL divider.
    DdrPhyPllDiv,
    /// APMU DDR PHY LDO control.
    DdrPhyLdoControl,
    /// APMU AP interrupt mask.
    ApInterruptMask,
    /// A pin's configuration.
    Pin(SocPin),
    /// APBC TWSI8 clock/reset control.
    Twsi8ClockReset,
    /// APMU QSPI clock/reset control.
    QspiClockReset,
}

/// A field of those registers, by the register map's name (`Word` is a whole register).
#[derive(Clone, Copy, PartialEq, Eq, Structural, Debug)]
pub enum SocField {
    Word,
    Clk204p8m,
    PllSwEn,
    PllDiv2En,
    PllDiv5En,
    CxHiClkSel,
    CxClkSel,
    CxClkFcReq,
    MpIdle,
    MpPwrdwn,
    L2SramPwrdwn,
    CoreIdle,
    CorePwrdwn,
    MaskGicNirqToCore,
    MaskGicNfiqToCore,
    WakeupCore(u8),
    Byte1,
    Bit8,
    Bit9,
    Bit11,
    Bit16To17,
    Freq,
    Ddrp0En,
    DclkBypassClkEn,
    DclkBypassRst,
    RegTableEn,
    FreqPllChgMode,
    RegTableNum,
    DclkBypassDivBit16,
    Bit26,
    DdrFreqChgReq,
    AhbClkEn,
    HclkRst,
    Bit10To11,
    DclkFcDoneIntMsk,
    AfSel,
    EdgeClear,
    Drive2,
    PullSel,
    PullupEn,
    PulldnEn,
    Rst,
    FnClk,
    ApbClk,
    QspiClkDiv,
    QspiClkSel,
    QspiClkEn,
    QspiBusClkEn,
    QspiClkRst,
    QspiBusRst,
}

/// A field's value: a number, or a value the register map names.
#[derive(Clone, Copy, PartialEq, Eq, Structural, Debug)]
pub enum SocValue {
    Bits(u32),
    /// PLL1 control byte 1 for 1200 MT.
    Mt1200,
    /// Cluster clock select: 1600 MHz.
    Mhz1600,
    /// QSPI clock select: 106 MHz.
    Mhz106,
    /// Pin alternate function 0.
    Function0,
    /// Pin alternate function 2.
    Function2,
    /// PLL1 frequency field for this data rate.
    Freq(DdrFreq),
    /// Register table number for this data rate.
    RegTable(DdrFreq),
}

/// The registers, each as the values of its named fields.
pub type SocRegs = Map<SocReg, Map<SocField, SocValue>>;

/// `m` with the fields `fs` set, in order.
pub open spec fn set_fields(m: Map<SocField, SocValue>, fs: Seq<(SocField, SocValue)>) -> Map<SocField, SocValue>
    decreases fs.len(),
{
    if fs.len() == 0 {
        m
    } else {
        set_fields(m, fs.drop_last()).insert(fs.last().0, fs.last().1)
    }
}

/// The fields of `r`, none if it was never set.
pub open spec fn reg_fields(regs: SocRegs, r: SocReg) -> Map<SocField, SocValue> {
    if regs.contains_key(r) { regs[r] } else { Map::empty() }
}

/// The value of field `f` of `r`, if known.
pub open spec fn soc_field(regs: SocRegs, r: SocReg, f: SocField) -> Option<SocValue> {
    if reg_fields(regs, r).contains_key(f) { Some(reg_fields(regs, r)[f]) } else { None }
}

/// A write: `r` holds exactly the fields `fs` (every other field cleared).
pub open spec fn soc_write(regs: SocRegs, r: SocReg, fs: Seq<(SocField, SocValue)>) -> SocRegs {
    regs.insert(r, set_fields(Map::empty(), fs))
}

/// A read-modify-write: the fields `fs` set, the others of `r` kept.
pub open spec fn soc_modify(regs: SocRegs, r: SocReg, fs: Seq<(SocField, SocValue)>) -> SocRegs {
    regs.insert(r, set_fields(reg_fields(regs, r), fs))
}

/// Bit value of a flag.
pub open spec fn flag(b: bool) -> SocValue {
    SocValue::Bits(if b { 1 } else { 0 })
}

/// The pin setting of the QSPI data and clock pins: function 0, edge clear, drive 2, no pull.
pub open spec fn qspi_pin_fields() -> Seq<(SocField, SocValue)> {
    seq![
        (SocField::AfSel, SocValue::Function0),
        (SocField::EdgeClear, flag(true)),
        (SocField::Drive2, flag(true)),
        (SocField::PullSel, flag(false)),
    ]
}

/// The sleep-type setting for a data rate: DDRP0 and the DCLK bypass reset; for the external
/// clock the bypass clock and its divider bit, else PLL change mode and the rate's register
/// table.
pub open spec fn sleep_type_fields(f: DdrFreq) -> Seq<(SocField, SocValue)> {
    seq![(SocField::Ddrp0En, flag(true)), (SocField::DclkBypassRst, flag(true))] + if f == DdrFreq::ExternalClock {
        seq![(SocField::DclkBypassClkEn, flag(true)), (SocField::DclkBypassDivBit16, flag(true))]
    } else {
        seq![(SocField::FreqPllChgMode, flag(true)), (SocField::RegTableNum, SocValue::RegTable(f))]
    }
}

/// The registers after one step. A wait leaves its register holding the value waited for.
/// The manufacturer-specific PHY settings are not in this model.
pub open spec fn apply_soc(regs: SocRegs, step: SocStep) -> SocRegs {
    match step {
        SocStep::DdrPllControlMt1200 => soc_modify(regs, SocReg::DdrPhyPll1ControlLow, seq![(SocField::Byte1, SocValue::Mt1200)]),
        SocStep::DdrPllEnable => soc_modify(
            regs,
            SocReg::DdrPhyPll1Enable,
            seq![(SocField::Bit8, flag(true)), (SocField::Bit9, flag(true)), (SocField::Bit11, flag(true))],
        ),
        SocStep::DdrPllWaitLocked => soc_modify(regs, SocReg::DdrPhyPll1Enable, seq![(SocField::Bit16To17, SocValue::Bits(3))]),
        SocStep::DdrPllSelect(f) => soc_write(regs, SocReg::DdrPhyPll1Enable, seq![(SocField::Freq, SocValue::Freq(f))]),
        SocStep::DdrSleepTypeBypass => soc_write(
            regs,
            SocReg::DdrCtrlHardwareSleepType,
            seq![
                (SocField::Ddrp0En, flag(true)),
                (SocField::DclkBypassClkEn, flag(true)),
                (SocField::DclkBypassRst, flag(true)),
                (SocField::RegTableEn, flag(true)),
            ],
        ),
        SocStep::DdrSleepTypeSelect(f) => soc_write(regs, SocReg::DdrCtrlHardwareSleepType, sleep_type_fields(f)),
        SocStep::DclkBypassReset(b) => soc_modify(regs, SocReg::DdrCtrlHardwareSleepType, seq![(SocField::DclkBypassRst, flag(b))]),
        SocStep::ApClockRequestBit26 => soc_write(regs, SocReg::ApClockControl, seq![(SocField::Bit26, flag(true))]),
        SocStep::ApClockWaitBit26Clear => soc_modify(regs, SocReg::ApClockControl, seq![(SocField::Bit26, flag(false))]),
        SocStep::DdrAhbClockEnable => soc_modify(
            regs,
            SocReg::DdrCtrlAhb,
            seq![(SocField::AhbClkEn, flag(true)), (SocField::HclkRst, flag(true))],
        ),
        SocStep::DdrPhyPllDivInit => soc_modify(regs, SocReg::DdrPhyPllDiv, seq![(SocField::Byte1, SocValue::Bits(0x0F))]),
        SocStep::DdrPhyLdoEnable => soc_modify(regs, SocReg::DdrPhyLdoControl, seq![(SocField::Bit10To11, SocValue::Bits(3))]),
        SocStep::PhyForManufacturer(_) => regs,
        SocStep::MaskDclkFcDoneInterrupt => soc_modify(regs, SocReg::ApInterruptMask, seq![(SocField::DclkFcDoneIntMsk, flag(true))]),
        SocStep::DdrFreqChangeRequest => soc_write(regs, SocReg::ApClockControl, seq![(SocField::DdrFreqChgReq, flag(true))]),
        SocStep::DdrFreqChangeWait => soc_modify(regs, SocReg::ApClockControl, seq![(SocField::DdrFreqChgReq, flag(false))]),
        SocStep::EnableAllClocks => soc_write(regs, SocReg::MpmuClockGating, seq![(SocField::Word, SocValue::Bits(0xFFFF_FFFF))]),
        SocStep::Pll3Enable => soc_modify(regs, SocReg::Pll3Sw3Control, seq![(SocField::PllSwEn, flag(true))]),
        SocStep::Pll3Div2Enable => soc_modify(regs, SocReg::Pll3Sw2Control, seq![(SocField::PllDiv2En, flag(true))]),
        SocStep::ClusterClock1600(c) => soc_modify(
            regs,
            SocReg::ClusterClockControl(c),
            seq![(SocField::CxHiClkSel, flag(false)), (SocField::CxClkSel, SocValue::Mhz1600)],
        ),
        SocStep::ClusterFreqChangeRequest(c) => soc_modify(regs, SocReg::ClusterClockControl(c), seq![(SocField::CxClkFcReq, flag(true))]),
        SocStep::ClusterFreqChangeWait(c) => soc_modify(regs, SocReg::ClusterClockControl(c), seq![(SocField::CxClkFcReq, flag(false))]),
        SocStep::ResetVector { cluster, high, value } => soc_write(
            regs,
            if high { SocReg::ClusterResetVectorHigh(cluster) } else { SocReg::ClusterResetVectorLow(cluster) },
            seq![(SocField::Word, SocValue::Bits(value))],
        ),
        SocStep::ClusterMpIdleClear { cluster, core } => soc_modify(
            regs,
            SocReg::ClusterMpIdleCfg(cluster, core),
            seq![(SocField::MpIdle, flag(false)), (SocField::MpPwrdwn, flag(false)), (SocField::L2SramPwrdwn, flag(false))],
        ),
        SocStep::CoreIdleClear(core) => soc_modify(
            regs,
            SocReg::CoreIdleCfg(core),
            seq![
                (SocField::CoreIdle, flag(false)),
                (SocField::CorePwrdwn, flag(false)),
                (SocField::MaskGicNirqToCore, flag(false)),
                (SocField::MaskGicNfiqToCore, flag(false)),
            ],
        ),
        SocStep::WakeCores1To7 => soc_write(
            regs,
            SocReg::Core0Wakeup,
            Seq::new(7, |i: int| (SocField::WakeupCore((i + 1) as u8), flag(true))),
        ),
        SocStep::Clock204p8Enable => soc_modify(regs, SocReg::MpmuClockGating, seq![(SocField::Clk204p8m, flag(true))]),
        SocStep::Pll1Div5Enable => soc_modify(regs, SocReg::Pll1Sw2Control, seq![(SocField::PllDiv5En, flag(true))]),
        SocStep::PinmuxI2c(pin) => soc_modify(regs, SocReg::Pin(SocPin::Gpio(pin)), seq![(SocField::AfSel, SocValue::Function2)]),
        SocStep::Twsi8Reset => soc_write(regs, SocReg::Twsi8ClockReset, seq![(SocField::Rst, flag(true))]),
        SocStep::Twsi8ResetClocksOn => soc_write(
            regs,
            SocReg::Twsi8ClockReset,
            seq![(SocField::Rst, flag(true)), (SocField::FnClk, flag(true)), (SocField::ApbClk, flag(true))],
        ),
        SocStep::Twsi8ClocksOn => soc_write(
            regs,
            SocReg::Twsi8ClockReset,
            seq![(SocField::FnClk, flag(true)), (SocField::ApbClk, flag(true))],
        ),
        SocStep::PinmuxQspiData(i) => soc_write(regs, SocReg::Pin(SocPin::QspiData(i)), qspi_pin_fields()),
        SocStep::PinmuxQspiClk => soc_write(regs, SocReg::Pin(SocPin::QspiClk), qspi_pin_fields()),
        SocStep::PinmuxQspiCs1 => soc_write(
            regs,
            SocReg::Pin(SocPin::QspiCs1),
            seq![
                (SocField::AfSel, SocValue::Function0),
                (SocField::EdgeClear, flag(true)),
                (SocField::Drive2, flag(true)),
                (SocField::PullSel, flag(true)),
                (SocField::PullupEn, flag(true)),
                (SocField::PulldnEn, flag(false)),
            ],
        ),
        SocStep::QspiClockOff => soc_write(regs, SocReg::QspiClockReset, Seq::empty()),
        SocStep::QspiClockOn => soc_write(
            regs,
            SocReg::QspiClockReset,
            seq![
                (SocField::QspiClkDiv, SocValue::Bits(4)),
                (SocField::QspiClkSel, SocValue::Mhz106),
                (SocField::QspiClkEn, flag(true)),
                (SocField::QspiBusClkEn, flag(true)),
                (SocField::QspiClkRst, flag(true)),
                (SocField::QspiBusRst, flag(true)),
            ],
        ),
    }
}

/// The registers after the SoC steps of a plan, in order; other operations leave them.
pub open spec fn apply_soc_ops(regs: SocRegs, ops: Seq<RegOp>) -> SocRegs
    decreases ops.len(),
{
    if ops.len() == 0 {
        regs
    } else {
        let prev = apply_soc_ops(regs, ops.drop_last());
        match ops.last() {
            RegOp::Soc(step) => apply_soc(prev, step),
            _ => prev,
        }
    }
}

/// Running two plans one after the other on the SoC registers is running their
/// concatenation.
pub proof fn apply_soc_ops_concat(regs: SocRegs, a: Seq<RegOp>, b: Seq<RegOp>)
    ensures
        apply_soc_ops(regs, a + b) == apply_soc_ops(apply_soc_ops(regs, a), b),
    decreases b.len(),
{
    if b.len() == 0 {
        assert(a + b =~= a);
    } else {
        apply_soc_ops_concat(regs, a, b.drop_last());
        assert((a + b).drop_last() =~= a + b.drop_last());
    }
}

} // verus!
