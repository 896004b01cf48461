//! DDR bring-up sequences: the memory controller and PHY register programs, mode-register
//! commands, capacity and vendor decoding, and the frequency-change tables.
pub mod register;
pub mod byte;
pub mod ctrl;
pub mod dram;
pub mod mr;
pub mod dfi;
pub mod freq;
pub mod phy;
pub mod verify;
pub mod clock;
pub mod train;

use vstd::prelude::*;
use crate::mmio::{RegOp, write_ops};
use crate::layout::DDR_TRAIN_VERIFY_BASE;
use crate::ddr::byte::{ByteMode, prepare_reinit, spec_prepare_reinit_ops};
use crate::ddr::dram::{
    detect_capacity, detect_manufacturer, mr_read, mr_read_command, spec_capacity_ops,
    spec_capacity_total, spec_manufacturer, DdrCapacity,
};
use crate::ddr::freq::{change_freq, init_dynamic_freq_change, spec_change_freq_ops, spec_dynamic_freq_change_ops, DdrFreq};
use crate::ddr::phy::SubASettings;
use crate::ddr::ctrl::{config_addr_mapping, spec_addr_map_table};
use crate::ddr::register::DDR_CTRL_CHANNEL_BASE;
use crate::soc::SocStep;

verus! {

/// Everything the bring-up reads back from the hardware, in the order it reads it.
#[derive(Clone, Copy)]
pub struct DdrReadback {
    /// PHY sub-block A registers before the first PHY pass.
    pub phy_first: SubASettings,
    /// MR8 of (ch 0, cs 0), (ch 1, cs 0), (ch 0, cs 1), (ch 1, cs 1).
    pub mr8: [u8; 4],
    /// MR5 of ch 0, cs 0.
    pub mr5: u8,
    /// PHY sub-block A registers before the second PHY pass.
    pub phy_second: SubASettings,
    /// Channel registers 0x00, 0x08, 0x20 and 0x24 before the address map.
    pub addr_map: [u32; 4],
    /// Controller 0x44 before the timing table.
    pub ctl0: u32,
    /// The configuration registers copied into the timing table.
    pub cfg: [u32; 22],
    /// Channel CFG2 (0x104) before the timing table.
    pub cfg2: u32,
    /// The timing registers of each frequency point.
    pub timing: [[u32; 24]; 4],
}

/// The capacity the readback describes.
pub open spec fn readback_capacity(r: DdrReadback) -> DdrCapacity {
    if spec_capacity_total(r.mr8) == 16 { DdrCapacity::GB16 } else { DdrCapacity::GB8 }
}

/// A mode-register read: the command, then the wait for its result.
pub open spec fn mr_read_ops(mr: u32, ch: u32, cs: u32) -> Seq<RegOp> {
    seq![
        RegOp::Write { addr: 0xC000_0024u32, value: mr_read_command(mr, ch, cs) },
        RegOp::WaitUntil { addr: 0xC000_0370u32, mask: 0x8000_0000u32, value: 0x8000_0000u32 },
    ]
}

/// The first pass: clocks, controller without byte mode, PHY, DFI handshake, DRAM init,
/// training at 1200 MT, and the MR8 and MR5 reads.
pub open spec fn spec_first_pass_ops(r: DdrReadback) -> Seq<RegOp> {
    crate::ddr::clock::spec_init_ops()
        + crate::ddr::ctrl::spec_init_ops(ByteMode::Disable)
        + crate::ddr::phy::spec_init_ops(r.phy_first)
        + crate::ddr::dfi::spec_handshake_ops()
        + crate::ddr::dram::spec_init_ops()
        + seq![RegOp::Train(DdrFreq::Mt1200)]
        + mr_read_ops(8, 0, 0) + mr_read_ops(8, 1, 0) + mr_read_ops(8, 0, 1) + mr_read_ops(8, 1, 1)
        + mr_read_ops(5, 0, 0)
}

/// The second pass: DCLK bypass reset, controller with byte mode, PHY with the vendor
/// settings, DFI handshake, DRAM init, address map and frequency-change tables for the
/// capacity, training at 1200, 1600 and 2400 MT with a switch before each higher rate, the
/// capacity follow-up, a final switch to 2400 MT and the pattern check.
pub open spec fn spec_second_pass_ops(r: DdrReadback) -> Seq<RegOp> {
    spec_prepare_reinit_ops()
        + crate::ddr::ctrl::spec_init_ops(ByteMode::Enable)
        + crate::ddr::phy::spec_init_ops(r.phy_second)
        + seq![RegOp::Soc(SocStep::PhyForManufacturer(spec_manufacturer(r.mr5)))]
        + crate::ddr::dfi::spec_handshake_ops()
        + crate::ddr::dram::spec_init_ops()
        + write_ops(DDR_CTRL_CHANNEL_BASE, spec_addr_map_table(readback_capacity(r), r.addr_map))
        + spec_dynamic_freq_change_ops(r.ctl0, r.cfg, r.cfg2, r.timing)
        + seq![RegOp::Train(DdrFreq::Mt1200)]
        + spec_change_freq_ops(DdrFreq::Mt1600)
        + seq![RegOp::Train(DdrFreq::Mt1600)]
        + spec_change_freq_ops(DdrFreq::Mt2400)
        + seq![RegOp::Train(DdrFreq::Mt2400)]
        + spec_capacity_ops(readback_capacity(r))
        + spec_change_freq_ops(DdrFreq::Mt2400)
        + seq![RegOp::VerifyPattern { base: 0x0001_0000u64 }]
}

/// The whole DDR bring-up, for the values it reads back.
pub open spec fn spec_init_ops(r: DdrReadback) -> Seq<RegOp> {
    spec_first_pass_ops(r) + spec_second_pass_ops(r)
}

proof fn lemma_add_assoc(a: Seq<RegOp>, b: Seq<RegOp>, c: Seq<RegOp>)
    ensures
        (a + b) + c == a + (b + c),
{
    assert((a + b) + c =~= a + (b + c));
}

fn first_pass(plan: &mut Vec<RegOp>, r: &DdrReadback)
    ensures
        final(plan)@ == old(plan)@ + spec_first_pass_ops(*r),
{
    let ghost s0 = plan@;
    crate::ddr::clock::init(plan);
    let ghost s1 = plan@;
    crate::ddr::ctrl::init(ByteMode::Disable, plan);
    let ghost s2 = plan@;
    crate::ddr::phy::init(plan, &r.phy_first);
    let ghost s3 = plan@;
    crate::ddr::dfi::handshake(plan);
    let ghost s4 = plan@;
    crate::ddr::dram::init(plan);
    let ghost s5 = plan@;
    crate::ddr::train::train(plan, DdrFreq::Mt1200);
    let ghost s6 = plan@;
    mr_read(plan, 8, 0, 0);
    let ghost s7 = plan@;
    mr_read(plan, 8, 1, 0);
    let ghost s8 = plan@;
    mr_read(plan, 8, 0, 1);
    let ghost s9 = plan@;
    mr_read(plan, 8, 1, 1);
    let ghost s10 = plan@;
    mr_read(plan, 5, 0, 0);
    proof {
        let a1 = crate::ddr::clock::spec_init_ops();
        let a2 = crate::ddr::ctrl::spec_init_ops(ByteMode::Disable);
        let a3 = crate::ddr::phy::spec_init_ops(r.phy_first);
        let a4 = crate::ddr::dfi::spec_handshake_ops();
        let a5 = crate::ddr::dram::spec_init_ops();
        let a6 = seq![RegOp::Train(DdrFreq::Mt1200)];
        assert(s6 == s5.push(RegOp::Train(DdrFreq::Mt1200)));
        assert(s5.push(RegOp::Train(DdrFreq::Mt1200)) =~= s5 + a6);
        lemma_add_assoc(s0, a1, a2);
        lemma_add_assoc(s0, a1 + a2, a3);
        lemma_add_assoc(s0, a1 + a2 + a3, a4);
        lemma_add_assoc(s0, a1 + a2 + a3 + a4, a5);
        lemma_add_assoc(s0, a1 + a2 + a3 + a4 + a5, a6);
        let b = a1 + a2 + a3 + a4 + a5 + a6;
        assert(s6 == s0 + b);
        lemma_add_assoc(s0, b, mr_read_ops(8, 0, 0));
        let b = b + mr_read_ops(8, 0, 0);
        lemma_add_assoc(s0, b, mr_read_ops(8, 1, 0));
        let b = b + mr_read_ops(8, 1, 0);
        lemma_add_assoc(s0, b, mr_read_ops(8, 0, 1));
        let b = b + mr_read_ops(8, 0, 1);
        lemma_add_assoc(s0, b, mr_read_ops(8, 1, 1));
        let b = b + mr_read_ops(8, 1, 1);
        lemma_add_assoc(s0, b, mr_read_ops(5, 0, 0));
    }
}

fn second_pass(plan: &mut Vec<RegOp>, r: &DdrReadback, capacity: DdrCapacity)
    requires
        capacity == readback_capacity(*r),
    ensures
        final(plan)@ == old(plan)@ + spec_second_pass_ops(*r),
{
    let ghost s0 = plan@;
    let manufacturer = detect_manufacturer(r.mr5);
    prepare_reinit(plan);
    let ghost s1 = plan@;
    crate::ddr::ctrl::init(ByteMode::Enable, plan);
    let ghost s2 = plan@;
    crate::ddr::phy::init(plan, &r.phy_second);
    let ghost s3 = plan@;
    plan.push(RegOp::Soc(SocStep::PhyForManufacturer(manufacturer)));
    let ghost s4 = plan@;
    crate::ddr::dfi::handshake(plan);
    let ghost s5 = plan@;
    crate::ddr::dram::init(plan);
    let ghost s6 = plan@;
    config_addr_mapping(capacity, r.addr_map, plan);
    let ghost s7 = plan@;
    init_dynamic_freq_change(plan, r.ctl0, &r.cfg, r.cfg2, &r.timing);
    let ghost s8 = plan@;
    crate::ddr::train::train(plan, DdrFreq::Mt1200);
    let ghost s9 = plan@;
    change_freq(plan, DdrFreq::Mt1600);
    let ghost s10 = plan@;
    crate::ddr::train::train(plan, DdrFreq::Mt1600);
    let ghost s11 = plan@;
    change_freq(plan, DdrFreq::Mt2400);
    let ghost s12 = plan@;
    crate::ddr::train::train(plan, DdrFreq::Mt2400);
    let ghost s13 = plan@;
    crate::ddr::dram::config_for_capacity(capacity, plan);
    let ghost s14 = plan@;
    change_freq(plan, DdrFreq::Mt2400);
    let ghost s15 = plan@;
    plan.push(RegOp::VerifyPattern { base: DDR_TRAIN_VERIFY_BASE });
    proof {
        let parts = seq![
            spec_prepare_reinit_ops(),
            crate::ddr::ctrl::spec_init_ops(ByteMode::Enable),
            crate::ddr::phy::spec_init_ops(r.phy_second),
            seq![RegOp::Soc(SocStep::PhyForManufacturer(spec_manufacturer(r.mr5)))],
            crate::ddr::dfi::spec_handshake_ops(),
            crate::ddr::dram::spec_init_ops(),
            write_ops(DDR_CTRL_CHANNEL_BASE, spec_addr_map_table(readback_capacity(*r), r.addr_map)),
            spec_dynamic_freq_change_ops(r.ctl0, r.cfg, r.cfg2, r.timing),
            seq![RegOp::Train(DdrFreq::Mt1200)],
            spec_change_freq_ops(DdrFreq::Mt1600),
            seq![RegOp::Train(DdrFreq::Mt1600)],
            spec_change_freq_ops(DdrFreq::Mt2400),
            seq![RegOp::Train(DdrFreq::Mt2400)],
            spec_capacity_ops(readback_capacity(*r)),
            spec_change_freq_ops(DdrFreq::Mt2400),
            seq![RegOp::VerifyPattern { base: 0x0001_0000u64 }],
        ];
        let st = seq![s0, s1, s2, s3, s4, s5, s6, s7, s8, s9, s10, s11, s12, s13, s14, s15, plan@];
        assert(s4 =~= s3 + parts[3]);
        assert(s9 =~= s8 + parts[8]);
        assert(s11 =~= s10 + parts[10]);
        assert(s13 =~= s12 + parts[12]);
        assert(plan@ =~= s15 + parts[15]);
        assert forall|k: int| 0 <= k < 16 implies st[k + 1] == st[k] + #[trigger] parts[k] by {}
        lemma_chain(st, parts, 16);
        assert(sum_parts(parts, 16) == spec_second_pass_ops(*r)) by {
            reveal_with_fuel(sum_parts, 17);
        }
    }
}

/// The concatenation of the first `n` of `parts`.
spec fn sum_parts(parts: Seq<Seq<RegOp>>, n: int) -> Seq<RegOp>
    decreases n,
{
    if n <= 0 { Seq::empty() } else { sum_parts(parts, n - 1) + parts[n - 1] }
}

proof fn lemma_chain(st: Seq<Seq<RegOp>>, parts: Seq<Seq<RegOp>>, n: int)
    requires
        0 <= n < st.len(),
        n <= parts.len(),
        forall|k: int| 0 <= k < n ==> st[k + 1] == st[k] + #[trigger] parts[k],
    ensures
        st[n] == st[0] + sum_parts(parts, n),
    decreases n,
{
    if n == 0 {
        assert(st[0] + Seq::<RegOp>::empty() =~= st[0]);
    } else {
        lemma_chain(st, parts, n - 1);
        lemma_add_assoc(st[0], sum_parts(parts, n - 1), parts[n - 1]);
    }
}

/// Bring up DDR in two passes, ending at 2400 MT with a pattern check. `r` holds what the
/// sequence reads back; only 8 GB and 16 GB parts are supported.
pub fn init(plan: &mut Vec<RegOp>, r: &DdrReadback)
    requires
        spec_capacity_total(r.mr8) == 8 || spec_capacity_total(r.mr8) == 16,
    ensures
        final(plan)@ == old(plan)@ + spec_init_ops(*r),
{
    let ghost start = plan@;
    first_pass(plan, r);
    let capacity = detect_capacity(r.mr8);
    second_pass(plan, r, capacity);
    proof {
        lemma_add_assoc(start, spec_first_pass_ops(*r), spec_second_pass_ops(*r));
    }
}

} // verus!
