//! Mode-register sequences without the controller's init command.
use vstd::prelude::*;
use crate::mmio::RegOp;
use crate::ddr::dram::{mr_pulse, mr_pulse_ops, mr_sequence, spec_mr_sequence};

verus! {

/// The mode-register pulses and ZQ commands, in JEDEC order.
pub fn init(plan: &mut Vec<RegOp>)
    ensures
        final(plan)@ == old(plan)@ + spec_mr_sequence(),
{
    mr_sequence(plan);
}

/// The 16 GB follow-up: pulse MR21 (0x95).
pub fn config_for_16gb(plan: &mut Vec<RegOp>)
    ensures
        final(plan)@ == old(plan)@ + mr_pulse_ops(0x95),
{
    mr_pulse(plan, 0x95);
}

} // verus!
