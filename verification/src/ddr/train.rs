//! DDR training: the parameters handed to the training image.
use vstd::prelude::*;
use crate::mmio::RegOp;
use crate::ddr::freq::DdrFreq;
use crate::ddr::register::DDR_CTRL_BASE;

verus! {

/// Where the training image is copied before it is called.
pub const TRAIN_IMAGE_START_ADDR: usize = 0xC083_2000;

/// The argument block of the training image's entry point.
#[derive(Clone, Copy)]
pub struct TrainingParams {
    /// Memory-controller base.
    pub ddr_ctrl_base: u64,
    /// Number of chip-selects (2).
    pub cs_num: u64,
    /// Frequency point to train.
    pub freq: u64,
    /// Address of the image's print callback.
    pub printf: u64,
    /// Address of the image's 4 KiB scratch input buffer.
    pub input: u64,
}

/// The training arguments for `freq`, with the callback and scratch addresses given.
pub fn training_params(freq: DdrFreq, printf: u64, input: u64) -> (p: TrainingParams)
    ensures
        p.ddr_ctrl_base == DDR_CTRL_BASE,
        p.cs_num == 2,
        p.freq == freq.point(),
        p.printf == printf,
        p.input == input,
{
    let point: u64 = match freq {
        DdrFreq::Mt1200 => 0,
        DdrFreq::Mt1600 => 1,
        DdrFreq::Mt2400 => 2,
        DdrFreq::Mt3200 => 3,
        DdrFreq::ExternalClock => 4,
    };
    TrainingParams { ddr_ctrl_base: DDR_CTRL_BASE as u64, cs_num: 2, freq: point, printf, input }
}

/// Train at `freq`: copy the image, clean it to memory and run it.
pub fn train(plan: &mut Vec<RegOp>, freq: DdrFreq)
    ensures
        final(plan)@ == old(plan)@.push(RegOp::Train(freq)),
{
    plan.push(RegOp::Train(freq));
}

} // verus!
