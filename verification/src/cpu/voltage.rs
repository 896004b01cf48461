//! Core voltage: SPM8821 BUCK1 to 1.05 V over I2C.
use vstd::prelude::*;
use crate::mmio::RegOp;
use crate::i2c::operate::{reset, spec_reset_ops, spec_write_ops};

verus! {

/// SPM8821 7-bit I2C address.
pub const PMIC_I2C_ADDR: u8 = 0x41;
/// SPM8821 BUCK1 voltage-select register.
pub const SPM8821_BUCK1_VSEL_REG: u8 = 0x48;
/// BUCK1 voltage-select code for 1.05 V.
pub const VSEL_1V05: u8 = 0x6E;

/// The voltage raise: I2C reset, write [0x48, 0x6E] to the PMIC at 0x41, I2C reset, then
/// 2 ms for the rail to settle.
pub open spec fn spec_raise_voltage_ops() -> Seq<RegOp> {
    spec_reset_ops() + spec_write_ops(0x41, seq![0x48u8, 0x6Eu8]) + spec_reset_ops()
        + seq![RegOp::Sleep { micros: 2000 }]
}

/// Raise `VDD_CORE` to 1.05 V.
pub fn raise_voltage(plan: &mut Vec<RegOp>)
    ensures
        final(plan)@ == old(plan)@ + spec_raise_voltage_ops(),
{
    let ghost start = plan@;
    reset(plan);
    let data = [SPM8821_BUCK1_VSEL_REG, VSEL_1V05];
    assert(data@ =~= seq![0x48u8, 0x6Eu8]);
    crate::i2c::operate::write(plan, PMIC_I2C_ADDR, &data);
    reset(plan);
    plan.push(RegOp::Sleep { micros: 2000 });
    assert(plan@ =~= start + spec_raise_voltage_ops());
}

} // verus!
