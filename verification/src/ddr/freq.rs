//! Frequency points and the dynamic frequency-change tables that the controller runs from
//! its internal table (loaded through the secure alias).
use vstd::prelude::*;
use crate::mmio::{MMIO, Raw, RegOp, write_ops};
use crate::ddr::register::{DDR_CTRL_BASE, DDR_CTRL_CHANNEL_BASE, DDR_PHY_BASE, DDR_PHY_FREQ_POINT_STEP};
use crate::soc::{apply_soc_ops, flag, reg_fields, set_fields, sleep_type_fields, soc_field, SocField, SocReg, SocRegs, SocStep, SocValue};

verus! {

/// A DDR data rate, by frequency point.
#[derive(Clone, Copy, PartialEq, Eq, Structural, Debug)]
pub enum DdrFreq {
    /// 1200 MT/s, point 0.
    Mt1200,
    /// 1600 MT/s, point 1.
    Mt1600,
    /// 2400 MT/s, point 2.
    Mt2400,
    /// 3200 MT/s, point 3.
    Mt3200,
    /// External clock, point 4.
    ExternalClock,
}

impl DdrFreq {
    /// The frequency-point number.
    pub open spec fn point(self) -> u32 {
        match self {
            DdrFreq::Mt1200 => 0,
            DdrFreq::Mt1600 => 1,
            DdrFreq::Mt2400 => 2,
            DdrFreq::Mt3200 => 3,
            DdrFreq::ExternalClock => 4,
        }
    }

    /// Offset of this point's PHY register window: the point number times 0x4000.
    pub fn phy_offset(&self) -> (off: u32)
        ensures
            off == self.point() * 0x4000,
    {
        let point: u32 = match self {
            DdrFreq::Mt1200 => 0,
            DdrFreq::Mt1600 => 1,
            DdrFreq::Mt2400 => 2,
            DdrFreq::Mt3200 => 3,
            DdrFreq::ExternalClock => 4,
        };
        point * DDR_PHY_FREQ_POINT_STEP
    }
}

/// Loading one entry of the controller's internal table: data to alias 0x74, the target
/// controller address to 0x78, then the slot number to 0x70.
pub open spec fn alias_entry_ops(slot: u32, data: u32, addr: u32) -> Seq<RegOp> {
    seq![
        RegOp::Write { addr: 0xF000_0074u32, value: data },
        RegOp::Write { addr: 0xF000_0078u32, value: addr },
        RegOp::Write { addr: 0xF000_0070u32, value: slot },
    ]
}

/// Loading `table` (data, address) into consecutive slots from `offset`.
pub open spec fn alias_ops(offset: u32, table: Seq<(u32, u32)>) -> Seq<RegOp>
    decreases table.len(),
{
    if table.len() == 0 {
        Seq::empty()
    } else {
        alias_ops(offset, table.drop_last()) + alias_entry_ops(
            (offset + table.len() - 1) as u32,
            table.last().0,
            table.last().1,
        )
    }
}

/// Entry `k` of `table` is loaded by operations `3k`, `3k+1`, `3k+2`, into slot `offset + k`.
pub proof fn alias_ops_layout(offset: u32, table: Seq<(u32, u32)>, k: int)
    requires
        0 <= k < table.len(),
        offset + table.len() <= u32::MAX,
    ensures
        alias_ops(offset, table).len() == 3 * table.len(),
        alias_ops(offset, table)[3 * k] == (RegOp::Write { addr: 0xF000_0074u32, value: table[k].0 }),
        alias_ops(offset, table)[3 * k + 1] == (RegOp::Write { addr: 0xF000_0078u32, value: table[k].1 }),
        alias_ops(offset, table)[3 * k + 2] == (RegOp::Write { addr: 0xF000_0070u32, value: (offset + k) as u32 }),
    decreases table.len(),
{
    lemma_alias_ops_len(offset, table);
    if k < table.len() - 1 {
        alias_ops_layout(offset, table.drop_last(), k);
        lemma_alias_ops_len(offset, table.drop_last());
    }
}

proof fn lemma_alias_ops_len(offset: u32, table: Seq<(u32, u32)>)
    ensures
        alias_ops(offset, table).len() == 3 * table.len(),
    decreases table.len(),
{
    if table.len() > 0 {
        lemma_alias_ops_len(offset, table.drop_last());
    }
}

/// Load `table` into consecutive slots of the internal table from `offset`; the result is
/// the slot after the last one written.
pub fn ddr_ctrl_secure_alias_write_table(plan: &mut Vec<RegOp>, offset: u32, table: &[(u32, u32)]) -> (next: u32)
    requires
        offset + table.len() <= u32::MAX,
    ensures
        final(plan)@ == old(plan)@ + alias_ops(offset, table@),
        next == offset + table.len(),
{
    let ghost start = plan@;
    let alias: MMIO<Raw> = MMIO::base(0xF000_0000);
    let mut i: usize = 0;
    while i < table.len()
        invariant
            i <= table.len(),
            offset + table.len() <= u32::MAX,
            alias.spec_addr() == 0xF000_0000u32,
            plan@ == start + alias_ops(offset, table@.take(i as int)),
        decreases table.len() - i,
    {
        let (data, addr) = table[i];
        let slot = offset + i as u32;
        alias.write(plan, &[(0x74u32, data), (0x78u32, addr), (0x70u32, slot)]);
        i = i + 1;
        assert(table@.take(i as int).drop_last() =~= table@.take(i - 1));
        assert(plan@ =~= start + alias_ops(offset, table@.take(i as int)));
    }
    assert(table@.take(table.len() as int) =~= table@);
    offset + table.len() as u32
}

/// Frequency-change sequence loaded at table offset 0 (data, controller address).
pub open spec fn spec_fc_table_main() -> Seq<(u32, u32)> {
    seq![
        (0x0004_0303u32, 0x0000_0044u32),
        (0x1300_0008u32, 0x0000_0020u32),
        (0x1301_0000u32, 0x0000_0028u32),
        (0x1302_000Du32, 0x0000_0024u32),
        (0x1302_0001u32, 0x0000_0024u32),
        (0x1302_0002u32, 0x0000_0024u32),
        (0x1302_0003u32, 0x0000_0024u32),
        (0x1302_000Bu32, 0x0000_0024u32),
        (0x1302_000Cu32, 0x0000_0024u32),
        (0x1302_000Eu32, 0x0000_0024u32),
        (0x1302_0016u32, 0x0000_0024u32),
        (0x1300_8000u32, 0x0000_0028u32),
        (0x1302_000Du32, 0x0000_0024u32),
        (0x1300_0010u32, 0x0000_0020u32),
        (0x0000_0002u32, 0x0000_2008u32),
        (0x0000_0002u32, 0x0000_2008u32),
        (0x1300_0001u32, 0x0000_13D0u32),
        (0x0000_8000u32, 0x0000_33FCu32),
        (0x0000_0000u32, 0x0000_33FCu32),
        (0x0004_0303u32, 0x0001_0044u32),
        (0x1000_0100u32, 0x0000_13D0u32),
        (0x0000_8000u32, 0x0000_33FCu32),
        (0x0000_8000u32, 0x0000_33FCu32),
        (0x1300_0004u32, 0x0000_0020u32),
        (0x1302_000Du32, 0x0000_0024u32),
        (0x1302_0095u32, 0x0000_0024u32),
        (0x0000_0002u32, 0x0000_2008u32),
        (0x0000_0000u32, 0x0000_2008u32),
        (0x0004_0380u32, 0x0002_0044u32),
    ]
}

fn fc_table_main() -> (t: [(u32, u32); 29])
    ensures
        t@ == spec_fc_table_main(),
{
    let t = [
        (0x0004_0303u32, 0x0000_0044u32),
        (0x1300_0008u32, 0x0000_0020u32),
        (0x1301_0000u32, 0x0000_0028u32),
        (0x1302_000Du32, 0x0000_0024u32),
        (0x1302_0001u32, 0x0000_0024u32),
        (0x1302_0002u32, 0x0000_0024u32),
        (0x1302_0003u32, 0x0000_0024u32),
        (0x1302_000Bu32, 0x0000_0024u32),
        (0x1302_000Cu32, 0x0000_0024u32),
        (0x1302_000Eu32, 0x0000_0024u32),
        (0x1302_0016u32, 0x0000_0024u32),
        (0x1300_8000u32, 0x0000_0028u32),
        (0x1302_000Du32, 0x0000_0024u32),
        (0x1300_0010u32, 0x0000_0020u32),
        (0x0000_0002u32, 0x0000_2008u32),
        (0x0000_0002u32, 0x0000_2008u32),
        (0x1300_0001u32, 0x0000_13D0u32),
        (0x0000_8000u32, 0x0000_33FCu32),
        (0x0000_0000u32, 0x0000_33FCu32),
        (0x0004_0303u32, 0x0001_0044u32),
        (0x1000_0100u32, 0x0000_13D0u32),
        (0x0000_8000u32, 0x0000_33FCu32),
        (0x0000_8000u32, 0x0000_33FCu32),
        (0x1300_0004u32, 0x0000_0020u32),
        (0x1302_000Du32, 0x0000_0024u32),
        (0x1302_0095u32, 0x0000_0024u32),
        (0x0000_0002u32, 0x0000_2008u32),
        (0x0000_0000u32, 0x0000_2008u32),
        (0x0004_0380u32, 0x0002_0044u32),
    ];
    assert(t@ =~= spec_fc_table_main());
    t
}

/// Frequency-change sequence loaded at table offset 0x180 (data, controller address).
pub open spec fn spec_fc_table_low() -> Seq<(u32, u32)> {
    seq![
        (0x0004_0B43u32, 0x0000_0044u32),
        (0x1300_0010u32, 0x0000_0020u32),
        (0x0000_0002u32, 0x0000_2008u32),
        (0x0000_0002u32, 0x0000_2008u32),
        (0x1300_0001u32, 0x0000_13D0u32),
        (0x0000_8000u32, 0x0000_33FCu32),
        (0x0000_0000u32, 0x0000_33FCu32),
        (0x0004_0B43u32, 0x0001_0044u32),
        (0x1000_0100u32, 0x0000_13D0u32),
        (0x0000_8000u32, 0x0000_33FCu32),
        (0x0000_8000u32, 0x0000_33FCu32),
        (0x1302_000Du32, 0x0000_0024u32),
        (0x1302_0095u32, 0x0000_0024u32),
        (0x0000_0002u32, 0x0000_2008u32),
        (0x0000_0000u32, 0x0000_2008u32),
        (0x0004_0B00u32, 0x0002_0044u32),
    ]
}

fn fc_table_low() -> (t: [(u32, u32); 16])
    ensures
        t@ == spec_fc_table_low(),
{
    let t = [
        (0x0004_0B43u32, 0x0000_0044u32),
        (0x1300_0010u32, 0x0000_0020u32),
        (0x0000_0002u32, 0x0000_2008u32),
        (0x0000_0002u32, 0x0000_2008u32),
        (0x1300_0001u32, 0x0000_13D0u32),
        (0x0000_8000u32, 0x0000_33FCu32),
        (0x0000_0000u32, 0x0000_33FCu32),
        (0x0004_0B43u32, 0x0001_0044u32),
        (0x1000_0100u32, 0x0000_13D0u32),
        (0x0000_8000u32, 0x0000_33FCu32),
        (0x0000_8000u32, 0x0000_33FCu32),
        (0x1302_000Du32, 0x0000_0024u32),
        (0x1302_0095u32, 0x0000_0024u32),
        (0x0000_0002u32, 0x0000_2008u32),
        (0x0000_0000u32, 0x0000_2008u32),
        (0x0004_0B00u32, 0x0002_0044u32),
    ];
    assert(t@ =~= spec_fc_table_low());
    t
}

/// The constant head of the closing sequence of the timing table (data, controller address).
pub open spec fn spec_fc_table_tail() -> Seq<(u32, u32)> {
    seq![
        (0x0002_0200u32, 0x0000_13E0u32),
        (0x1300_0010u32, 0x0000_13D0u32),
        (0x0001_0000u32, 0x0000_33FCu32),
        (0x0001_0000u32, 0x0000_33FCu32),
        (0x1300_0008u32, 0x0000_0020u32),
        (0x1300_0004u32, 0x0000_0020u32),
        (0x1302_0000u32, 0x0000_0028u32),
        (0x1300_0001u32, 0x0000_13D0u32),
        (0x0000_8000u32, 0x0000_33FCu32),
        (0x0000_8000u32, 0x0000_33FCu32),
        (0x1000_0100u32, 0x0000_13D0u32),
        (0x0000_8000u32, 0x0000_33FCu32),
        (0x0000_8000u32, 0x0000_33FCu32),
        (0x1302_000Du32, 0x0000_0024u32),
        (0x1302_0003u32, 0x0000_0024u32),
    ]
}

fn fc_table_tail() -> (t: [(u32, u32); 15])
    ensures
        t@ == spec_fc_table_tail(),
{
    let t = [
        (0x0002_0200u32, 0x0000_13E0u32),
        (0x1300_0010u32, 0x0000_13D0u32),
        (0x0001_0000u32, 0x0000_33FCu32),
        (0x0001_0000u32, 0x0000_33FCu32),
        (0x1300_0008u32, 0x0000_0020u32),
        (0x1300_0004u32, 0x0000_0020u32),
        (0x1302_0000u32, 0x0000_0028u32),
        (0x1300_0001u32, 0x0000_13D0u32),
        (0x0000_8000u32, 0x0000_33FCu32),
        (0x0000_8000u32, 0x0000_33FCu32),
        (0x1000_0100u32, 0x0000_13D0u32),
        (0x0000_8000u32, 0x0000_33FCu32),
        (0x0000_8000u32, 0x0000_33FCu32),
        (0x1302_000Du32, 0x0000_0024u32),
        (0x1302_0003u32, 0x0000_0024u32),
    ];
    assert(t@ =~= spec_fc_table_tail());
    t
}

/// PHY frequency-change control writes (offset from the PHY base, value).
pub open spec fn spec_phy_fc_table() -> Seq<(u32, u32)> {
    seq![
        (0x0001_0104u32, 0x0000_1100u32),
        (0x0001_0108u32, 0x0001_0000u32),
        (0x0001_0100u32, 0x0000_0020u32),
        (0x0001_0104u32, 0x0000_00FFu32),
        (0x0001_0108u32, 0x0001_001Cu32),
        (0x0001_0100u32, 0x0000_0021u32),
        (0x0001_0104u32, 0x0000_0000u32),
        (0x0001_0108u32, 0x0005_001Cu32),
        (0x0001_0100u32, 0x0000_0022u32),
    ]
}

fn phy_fc_table() -> (t: [(u32, u32); 9])
    ensures
        t@ == spec_phy_fc_table(),
{
    let t = [
        (0x0001_0104u32, 0x0000_1100u32),
        (0x0001_0108u32, 0x0001_0000u32),
        (0x0001_0100u32, 0x0000_0020u32),
        (0x0001_0104u32, 0x0000_00FFu32),
        (0x0001_0108u32, 0x0001_001Cu32),
        (0x0001_0100u32, 0x0000_0021u32),
        (0x0001_0104u32, 0x0000_0000u32),
        (0x0001_0108u32, 0x0005_001Cu32),
        (0x0001_0100u32, 0x0000_0022u32),
    ];
    assert(t@ =~= spec_phy_fc_table());
    t
}

/// Controller configuration registers copied into the timing table.
pub open spec fn spec_cfg_addrs() -> Seq<u32> {
    seq![
        0x0048u32,
        0x0054u32,
        0x0058u32,
        0x0060u32,
        0x0064u32,
        0x0148u32,
        0x014Cu32,
        0x0200u32,
        0x0204u32,
        0x0208u32,
        0x020Cu32,
        0x0220u32,
        0x0224u32,
        0x02C4u32,
        0x02C0u32,
        0x0380u32,
        0x0384u32,
        0x0388u32,
        0x0080u32,
        0x0A00u32,
        0x0AC0u32,
        0x0ACCu32,
    ]
}

fn cfg_addrs() -> (t: [u32; 22])
    ensures
        t@ == spec_cfg_addrs(),
{
    let t = [
        0x0048u32,
        0x0054u32,
        0x0058u32,
        0x0060u32,
        0x0064u32,
        0x0148u32,
        0x014Cu32,
        0x0200u32,
        0x0204u32,
        0x0208u32,
        0x020Cu32,
        0x0220u32,
        0x0224u32,
        0x02C4u32,
        0x02C0u32,
        0x0380u32,
        0x0384u32,
        0x0388u32,
        0x0080u32,
        0x0A00u32,
        0x0AC0u32,
        0x0ACCu32,
    ];
    assert(t@ =~= spec_cfg_addrs());
    t
}

/// Controller timing registers copied for each frequency point.
pub open spec fn spec_timing_addrs() -> Seq<u32> {
    seq![
        0x0300u32,
        0x030Cu32,
        0x0310u32,
        0x0314u32,
        0x038Cu32,
        0x0390u32,
        0x0394u32,
        0x0398u32,
        0x039Cu32,
        0x03A0u32,
        0x03A4u32,
        0x03A8u32,
        0x03ACu32,
        0x03B0u32,
        0x03B4u32,
        0x03B8u32,
        0x03BCu32,
        0x03C0u32,
        0x03C4u32,
        0x0400u32,
        0x03D8u32,
        0x034Cu32,
        0x13E4u32,
        0x13ECu32,
    ]
}

fn timing_addrs() -> (t: [u32; 24])
    ensures
        t@ == spec_timing_addrs(),
{
    let t = [
        0x0300u32,
        0x030Cu32,
        0x0310u32,
        0x0314u32,
        0x038Cu32,
        0x0390u32,
        0x0394u32,
        0x0398u32,
        0x039Cu32,
        0x03A0u32,
        0x03A4u32,
        0x03A8u32,
        0x03ACu32,
        0x03B0u32,
        0x03B4u32,
        0x03B8u32,
        0x03BCu32,
        0x03C0u32,
        0x03C4u32,
        0x0400u32,
        0x03D8u32,
        0x034Cu32,
        0x13E4u32,
        0x13ECu32,
    ];
    assert(t@ =~= spec_timing_addrs());
    t
}

/// Pair each read value with the address it was read from: (value, address).
pub open spec fn read_table(values: Seq<u32>, addrs: Seq<u32>) -> Seq<(u32, u32)> {
    Seq::new(addrs.len(), |i: int| (values[i], addrs[i]))
}

fn pair_with(values: &[u32], addrs: &[u32]) -> (t: Vec<(u32, u32)>)
    requires
        values.len() == addrs.len(),
    ensures
        t@ == read_table(values@, addrs@),
{
    let mut t: Vec<(u32, u32)> = Vec::new();
    let mut i: usize = 0;
    while i < addrs.len()
        invariant
            i <= addrs.len(),
            values.len() == addrs.len(),
            t@ == read_table(values@, addrs@).take(i as int),
        decreases addrs.len() - i,
    {
        t.push((values[i], addrs[i]));
        i = i + 1;
        assert(t@ =~= read_table(values@, addrs@).take(i as int));
    }
    assert(read_table(values@, addrs@).take(addrs.len() as int) =~= read_table(values@, addrs@));
    t
}

/// The three frequency-change sequences: at slot 0, slot 0x12E, and slot 0x180.
pub open spec fn spec_fc_sequence_ops() -> Seq<RegOp> {
    alias_ops(0, spec_fc_table_main())
        + alias_ops(0x12E, seq![(0x0004_0380u32, 0x0002_0044u32)])
        + alias_ops(0x180, spec_fc_table_low())
}

fn config_dynamic_freq_change_table(plan: &mut Vec<RegOp>)
    ensures
        final(plan)@ == old(plan)@ + spec_fc_sequence_ops(),
{
    let ghost start = plan@;
    let t = fc_table_main();
    ddr_ctrl_secure_alias_write_table(plan, 0x0, &t);
    let ghost p1 = plan@;
    let single = [(0x0004_0380u32, 0x0002_0044u32)];
    assert(single@ =~= seq![(0x0004_0380u32, 0x0002_0044u32)]);
    ddr_ctrl_secure_alias_write_table(plan, 0x012E, &single);
    let ghost p2 = plan@;
    assert(p2 == p1 + alias_ops(0x12E, seq![(0x0004_0380u32, 0x0002_0044u32)]));
    let t = fc_table_low();
    ddr_ctrl_secure_alias_write_table(plan, 0x0180, &t);
    assert(plan@ =~= start + spec_fc_sequence_ops());
}

/// Channel CFG2 with frequency point `tag` selected (bits 31..28).
pub open spec fn fp_select(cfg2: u32, tag: u32) -> u32 {
    ((cfg2 & !0xF000_0000u32) | (tag * 0x1000_0000) as u32) as u32
}

/// One frequency point of the timing table: select it in channel CFG2, load CFG2 (with bits
/// 29..28 cleared) into slot `slot`, then the point's timing registers from `slot + 1`.
pub open spec fn fp_ops(cfg2: u32, tag: u32, slot: u32, timing: Seq<u32>) -> Seq<RegOp> {
    let fp = fp_select(cfg2, tag);
    seq![RegOp::Write { addr: 0xC000_0304u32, value: fp }]
        + alias_ops(slot, seq![(fp & !0x3000_0000u32, 0x0304u32)])
        + alias_ops((slot + 1) as u32, read_table(timing, spec_timing_addrs()))
}

/// The controller timing table. `ctl0` is controller 0x44, `cfg` the configuration
/// registers of `spec_cfg_addrs`, `cfg2` channel 0x104, and `timing[k]` the timing registers
/// of `spec_timing_addrs` as read while frequency point `k` was selected.
pub open spec fn spec_timing_table_ops(ctl0: u32, cfg: [u32; 22], cfg2: u32, timing: [[u32; 24]; 4]) -> Seq<RegOp> {
    let cleared = cfg2 & !0xF000_0000u32;
    alias_ops(0x200, seq![(ctl0 | 0x1004u32, 0x0001_0044u32)])
        + alias_ops(0x201, read_table(cfg@, spec_cfg_addrs()))
        + seq![RegOp::Write { addr: 0xC000_0304u32, value: cleared }]
        + alias_ops(0x217, seq![(cleared, 0x0304u32)])
        + alias_ops(0x218, read_table(timing[0]@, spec_timing_addrs()))
        + fp_ops(cfg2, 0b0101, 0x230, timing[1]@)
        + fp_ops(cfg2, 0b1010, 0x249, timing[2]@)
        + fp_ops(cfg2, 0b1111, 0x262, timing[3]@)
        + alias_ops(0x27B, spec_fc_table_tail().push((ctl0, 0x0002_0044u32)))
        + write_ops(DDR_PHY_BASE, spec_phy_fc_table())
        + seq![RegOp::Write { addr: 0xC000_0304u32, value: cfg2 }]
}

fn copy_ddr_ctrl_timing_registers(plan: &mut Vec<RegOp>, next_offset: u32, values: &[u32; 24]) -> (next: u32)
    requires
        next_offset + 24 <= u32::MAX,
    ensures
        final(plan)@ == old(plan)@ + alias_ops(next_offset, read_table(values@, spec_timing_addrs())),
        next == next_offset + 24,
{
    let addrs = timing_addrs();
    let table = pair_with(values, &addrs);
    ddr_ctrl_secure_alias_write_table(plan, next_offset, table.as_slice())
}

fn fp_point(plan: &mut Vec<RegOp>, cfg2: u32, tag: u32, next_offset: u32, values: &[u32; 24]) -> (next: u32)
    requires
        tag < 16,
        next_offset + 25 <= u32::MAX,
    ensures
        final(plan)@ == old(plan)@ + fp_ops(cfg2, tag, next_offset, values@),
        next == next_offset + 25,
{
    let ghost start = plan@;
    proof { crate::bits::shift_constants(); }
    assert(tag < 16 ==> (tag << 28u32) == tag * 0x1000_0000) by (bit_vector);
    let fp = (cfg2 & !(0b1111u32 << 28u32)) | (tag << 28u32);
    let fp_cleared = fp & !(0b0011u32 << 28u32);
    assert(fp == fp_select(cfg2, tag));
    let channel: MMIO<Raw> = MMIO::base(DDR_CTRL_CHANNEL_BASE);
    channel.write(plan, &[(0x0104u32, fp)]);
    let ghost p1 = plan@;
    assert(p1 == start + seq![RegOp::Write { addr: 0xC000_0304u32, value: fp }]);
    let single = [(fp_cleared, 0x0304u32)];
    assert(single@ =~= seq![(fp_cleared, 0x0304u32)]);
    let next = ddr_ctrl_secure_alias_write_table(plan, next_offset, &single);
    let ghost p2 = plan@;
    let next = copy_ddr_ctrl_timing_registers(plan, next, values);
    assert(plan@ =~= start + fp_ops(cfg2, tag, next_offset, values@));
    next
}

fn config_ddr_ctrl_timing_table(plan: &mut Vec<RegOp>, ctl0: u32, cfg: &[u32; 22], cfg2: u32, timing: &[[u32; 24]; 4])
    ensures
        final(plan)@ == old(plan)@ + spec_timing_table_ops(ctl0, *cfg, cfg2, *timing),
{
    let ghost start = plan@;
    proof { crate::bits::shift_constants(); }
    let first = [(ctl0 | ((1u32 << 2u32) | (1u32 << 12u32)), 0x0001_0044u32)];
    assert(first@ =~= seq![(ctl0 | 0x1004u32, 0x0001_0044u32)]);
    let next = ddr_ctrl_secure_alias_write_table(plan, 0x200, &first);
    let addrs = cfg_addrs();
    let cfg_table = pair_with(cfg, &addrs);
    let next = ddr_ctrl_secure_alias_write_table(plan, next, cfg_table.as_slice());
    let ghost after_cfg = plan@;
    let cleared = cfg2 & !(0b1111u32 << 28u32);
    let channel: MMIO<Raw> = MMIO::base(DDR_CTRL_CHANNEL_BASE);
    channel.write(plan, &[(0x0104u32, cleared)]);
    let single = [(cleared, 0x0304u32)];
    assert(single@ =~= seq![(cleared, 0x0304u32)]);
    let next = ddr_ctrl_secure_alias_write_table(plan, next, &single);
    let next = copy_ddr_ctrl_timing_registers(plan, next, &timing[0]);
    let ghost after_first = plan@;
    let next = fp_point(plan, cfg2, 0b0101, next, &timing[1]);
    let next = fp_point(plan, cfg2, 0b1010, next, &timing[2]);
    let next = fp_point(plan, cfg2, 0b1111, next, &timing[3]);
    let ghost after_points = plan@;
    assert(next == 0x27B);
    let tail = fc_table_tail();
    let mut closing: Vec<(u32, u32)> = Vec::new();
    let mut i: usize = 0;
    while i < 15
        invariant
            i <= 15,
            tail@ == spec_fc_table_tail(),
            closing@ == spec_fc_table_tail().take(i as int),
        decreases 15 - i,
    {
        closing.push(tail[i]);
        i = i + 1;
        assert(closing@ =~= spec_fc_table_tail().take(i as int));
    }
    closing.push((ctl0, 0x0002_0044u32));
    assert(closing@ =~= spec_fc_table_tail().push((ctl0, 0x0002_0044u32)));
    ddr_ctrl_secure_alias_write_table(plan, next, closing.as_slice());
    let phy: MMIO<Raw> = MMIO::base(DDR_PHY_BASE);
    let t = phy_fc_table();
    phy.write(plan, &t);
    channel.write(plan, &[(0x0104u32, cfg2)]);
    assert(plan@ =~= start + spec_timing_table_ops(ctl0, *cfg, cfg2, *timing));
}

/// Everything `init_dynamic_freq_change` loads, for the register values it reads.
pub open spec fn spec_dynamic_freq_change_ops(ctl0: u32, cfg: [u32; 22], cfg2: u32, timing: [[u32; 24]; 4]) -> Seq<RegOp> {
    spec_fc_sequence_ops() + spec_timing_table_ops(ctl0, cfg, cfg2, timing)
}

/// Load the frequency-change sequences and the per-point timing table into the controller.
/// `ctl0` is controller 0x44, `cfg` the registers of `spec_cfg_addrs`, `cfg2` channel 0x104,
/// and `timing[k]` the registers of `spec_timing_addrs` as read with point `k` selected.
pub fn init_dynamic_freq_change(
    plan: &mut Vec<RegOp>,
    ctl0: u32,
    cfg: &[u32; 22],
    cfg2: u32,
    timing: &[[u32; 24]; 4],
)
    ensures
        final(plan)@ == old(plan)@ + spec_dynamic_freq_change_ops(ctl0, *cfg, cfg2, *timing),
{
    let ghost start = plan@;
    config_dynamic_freq_change_table(plan);
    config_ddr_ctrl_timing_table(plan, ctl0, cfg, cfg2, timing);
    assert(plan@ =~= start + spec_dynamic_freq_change_ops(ctl0, *cfg, cfg2, *timing));
}

/// The slots of the internal table that the frequency-change load writes do not overlap:
/// 0..29 (main sequence), 0x12E, 0x180..0x190 (low sequence) and 0x200..0x28B (timing).
pub proof fn freq_change_slots_are_disjoint()
    ensures
        spec_fc_table_main().len() <= 0x12E,
        0x12E + 1 <= 0x180,
        0x180 + spec_fc_table_low().len() <= 0x200,
        0x27B + spec_fc_table_tail().len() + 1 == 0x28B,
{
}

/// A frequency change: mask the change-done interrupt, controller 0x148 = 0x80AC_0000,
/// select the PLL and register table of `freq`, request the change and wait for it.
pub open spec fn spec_change_freq_ops(freq: DdrFreq) -> Seq<RegOp> {
    seq![
        RegOp::Soc(SocStep::MaskDclkFcDoneInterrupt),
        RegOp::Write { addr: 0xC000_0148u32, value: 0x80AC_0000u32 },
        RegOp::Soc(SocStep::DdrPllSelect(freq)),
        RegOp::Soc(SocStep::DdrSleepTypeSelect(freq)),
        RegOp::Soc(SocStep::DdrFreqChangeRequest),
        RegOp::Soc(SocStep::DdrFreqChangeWait),
    ]
}

/// What a frequency change leaves in the clock registers, whatever they held: the DCLK
/// frequency-change-done interrupt masked, the PHY PLL1 enable register holding exactly the
/// rate's frequency field, the hardware sleep type holding exactly the rate's setting, and
/// the change request (made, then waited on) clear.
pub proof fn change_freq_selects_rate(regs: SocRegs, freq: DdrFreq)
    ensures
        ({
            let r = apply_soc_ops(regs, spec_change_freq_ops(freq));
            &&& soc_field(r, SocReg::ApInterruptMask, SocField::DclkFcDoneIntMsk) == Some(flag(true))
            &&& reg_fields(r, SocReg::DdrPhyPll1Enable) == set_fields(
                Map::empty(),
                seq![(SocField::Freq, SocValue::Freq(freq))],
            )
            &&& reg_fields(r, SocReg::DdrCtrlHardwareSleepType) == set_fields(Map::empty(), sleep_type_fields(freq))
            &&& soc_field(r, SocReg::ApClockControl, SocField::DdrFreqChgReq) == Some(flag(false))
        }),
{
    reveal_with_fuel(apply_soc_ops, 7);
    reveal_with_fuel(set_fields, 2);
}

/// Switch the DDR to `freq` through the loaded frequency-change table.
pub fn change_freq(plan: &mut Vec<RegOp>, freq: DdrFreq)
    ensures
        final(plan)@ == old(plan)@ + spec_change_freq_ops(freq),
{
    plan.push(RegOp::Soc(SocStep::MaskDclkFcDoneInterrupt));
    let ctrl: MMIO<Raw> = MMIO::base(DDR_CTRL_BASE);
    ctrl.write(plan, &[(0x148u32, 0x80AC_0000u32)]);
    plan.push(RegOp::Soc(SocStep::DdrPllSelect(freq)));
    plan.push(RegOp::Soc(SocStep::DdrSleepTypeSelect(freq)));
    plan.push(RegOp::Soc(SocStep::DdrFreqChangeRequest));
    plan.push(RegOp::Soc(SocStep::DdrFreqChangeWait));
    assert(plan@ =~= old(plan)@ + spec_change_freq_ops(freq));
}


// ---- what the controller's internal table holds after a load ----

/// One access as the secure alias sees it. The state is the pending data (alias 0x74),
/// the pending target address (alias 0x78) and the internal table, slot to (data,
/// address). Writing a slot number to alias 0x70 stores the pending pair in that slot;
/// other operations leave the table alone.
pub open spec fn alias_step(st: (u32, u32, Map<u32, (u32, u32)>), op: RegOp) -> (u32, u32, Map<u32, (u32, u32)>) {
    match op {
        RegOp::Write { addr, value } => if addr == 0xF000_0074u32 {
            (value, st.1, st.2)
        } else if addr == 0xF000_0078u32 {
            (st.0, value, st.2)
        } else if addr == 0xF000_0070u32 {
            (st.0, st.1, st.2.insert(value, (st.0, st.1)))
        } else {
            st
        },
        _ => st,
    }
}

/// The alias state after `ops`, in order, from `st`.
pub open spec fn alias_run(st: (u32, u32, Map<u32, (u32, u32)>), ops: Seq<RegOp>) -> (u32, u32, Map<u32, (u32, u32)>)
    decreases ops.len(),
{
    if ops.len() == 0 {
        st
    } else {
        alias_step(alias_run(st, ops.drop_last()), ops.last())
    }
}

/// No operation of `ops` stores into slot `slot`.
pub open spec fn keeps_slot(ops: Seq<RegOp>, slot: u32) -> bool {
    forall|i: int| 0 <= i < ops.len() ==> #[trigger] ops[i] != (RegOp::Write { addr: 0xF000_0070u32, value: slot })
}

proof fn lemma_alias_run_concat(st: (u32, u32, Map<u32, (u32, u32)>), a: Seq<RegOp>, b: Seq<RegOp>)
    ensures
        alias_run(st, a + b) == alias_run(alias_run(st, a), b),
    decreases b.len(),
{
    if b.len() == 0 {
        assert(a + b =~= a);
    } else {
        lemma_alias_run_concat(st, a, b.drop_last());
        assert((a + b).drop_last() =~= a + b.drop_last());
        assert((a + b).last() == b.last());
    }
}

proof fn lemma_keeps_concat(a: Seq<RegOp>, b: Seq<RegOp>, slot: u32)
    requires
        keeps_slot(a, slot),
        keeps_slot(b, slot),
    ensures
        keeps_slot(a + b, slot),
{
    assert forall|i: int| 0 <= i < (a + b).len() implies #[trigger] (a + b)[i] != (RegOp::Write { addr: 0xF000_0070u32, value: slot }) by {
        if i < a.len() {
            assert((a + b)[i] == a[i]);
        } else {
            assert((a + b)[i] == b[i - a.len()]);
        }
    }
}

proof fn lemma_run_keeps(st: (u32, u32, Map<u32, (u32, u32)>), ops: Seq<RegOp>, slot: u32)
    requires
        keeps_slot(ops, slot),
    ensures
        alias_run(st, ops).2.contains_key(slot) == st.2.contains_key(slot),
        alias_run(st, ops).2[slot] == st.2[slot],
    decreases ops.len(),
{
    if ops.len() > 0 {
        let d = ops.drop_last();
        assert forall|i: int| 0 <= i < d.len() implies #[trigger] d[i] != (RegOp::Write { addr: 0xF000_0070u32, value: slot }) by {
            assert(d[i] == ops[i]);
        }
        lemma_run_keeps(st, d, slot);
        assert(ops.last() == ops[ops.len() - 1]);
    }
}

proof fn lemma_run_entry(st: (u32, u32, Map<u32, (u32, u32)>), slot: u32, data: u32, addr: u32)
    ensures
        alias_run(st, alias_entry_ops(slot, data, addr)).2 == st.2.insert(slot, (data, addr)),
{
    let e = alias_entry_ops(slot, data, addr);
    assert(e.drop_last().drop_last().drop_last() =~= Seq::<RegOp>::empty());
    assert(e.drop_last().drop_last().last() == RegOp::Write { addr: 0xF000_0074u32, value: data });
    assert(e.drop_last().last() == RegOp::Write { addr: 0xF000_0078u32, value: addr });
    assert(e.last() == RegOp::Write { addr: 0xF000_0070u32, value: slot });
    reveal_with_fuel(alias_run, 4);
}

proof fn lemma_keeps_alias(offset: u32, table: Seq<(u32, u32)>, slot: u32)
    requires
        offset + table.len() <= u32::MAX,
        slot < offset || slot >= offset + table.len(),
    ensures
        keeps_slot(alias_ops(offset, table), slot),
    decreases table.len(),
{
    if table.len() > 0 {
        lemma_keeps_alias(offset, table.drop_last(), slot);
        let e = alias_entry_ops((offset + table.len() - 1) as u32, table.last().0, table.last().1);
        assert forall|i: int| 0 <= i < e.len() implies #[trigger] e[i] != (RegOp::Write { addr: 0xF000_0070u32, value: slot }) by {}
        lemma_keeps_concat(alias_ops(offset, table.drop_last()), e, slot);
    }
}

proof fn lemma_alias_loads(st: (u32, u32, Map<u32, (u32, u32)>), offset: u32, table: Seq<(u32, u32)>, k: int)
    requires
        offset + table.len() <= u32::MAX,
        0 <= k < table.len(),
    ensures
        alias_run(st, alias_ops(offset, table)).2.contains_key((offset + k) as u32),
        alias_run(st, alias_ops(offset, table)).2[(offset + k) as u32] == table[k],
    decreases table.len(),
{
    let n = table.len();
    let head = alias_ops(offset, table.drop_last());
    let e = alias_entry_ops((offset + n - 1) as u32, table.last().0, table.last().1);
    assert(alias_ops(offset, table) == head + e);
    lemma_alias_run_concat(st, head, e);
    lemma_run_entry(alias_run(st, head), (offset + n - 1) as u32, table.last().0, table.last().1);
    if k < n - 1 {
        lemma_alias_loads(st, offset, table.drop_last(), k);
    }
}

proof fn lemma_slot_after(
    st: (u32, u32, Map<u32, (u32, u32)>),
    x: Seq<RegOp>,
    offset: u32,
    table: Seq<(u32, u32)>,
    y: Seq<RegOp>,
    k: int,
)
    requires
        offset + table.len() <= u32::MAX,
        0 <= k < table.len(),
        keeps_slot(y, (offset + k) as u32),
    ensures
        alias_run(st, x + alias_ops(offset, table) + y).2.contains_key((offset + k) as u32),
        alias_run(st, x + alias_ops(offset, table) + y).2[(offset + k) as u32] == table[k],
{
    let a = alias_ops(offset, table);
    lemma_alias_run_concat(st, x + a, y);
    lemma_alias_run_concat(st, x, a);
    lemma_alias_loads(alias_run(st, x), offset, table, k);
    lemma_run_keeps(alias_run(st, x + a), y, (offset + k) as u32);
}

proof fn lemma_keeps_channel_write(value: u32, slot: u32)
    ensures
        keeps_slot(seq![RegOp::Write { addr: 0xC000_0304u32, value: value }], slot),
{
}

proof fn lemma_keeps_fp(cfg2: u32, tag: u32, base: u32, timing: Seq<u32>, slot: u32)
    requires
        timing.len() == 24,
        base + 25 <= u32::MAX,
        slot < base || slot >= base + 25,
    ensures
        keeps_slot(fp_ops(cfg2, tag, base, timing), slot),
{
    let fp = fp_select(cfg2, tag);
    let w = seq![RegOp::Write { addr: 0xC000_0304u32, value: fp }];
    let one = seq![(fp & !0x3000_0000u32, 0x0304u32)];
    let rt = read_table(timing, spec_timing_addrs());
    lemma_keeps_channel_write(fp, slot);
    lemma_keeps_alias(base, one, slot);
    lemma_keeps_alias((base + 1) as u32, rt, slot);
    lemma_keeps_concat(w, alias_ops(base, one), slot);
    lemma_keeps_concat(w + alias_ops(base, one), alias_ops((base + 1) as u32, rt), slot);
}

proof fn lemma_keeps_closing(ctl0: u32, cfg2: u32, slot: u32)
    requires
        slot < 0x27B,
    ensures
        keeps_slot(
            alias_ops(0x27B, spec_fc_table_tail().push((ctl0, 0x0002_0044u32)))
                + write_ops(DDR_PHY_BASE, spec_phy_fc_table())
                + seq![RegOp::Write { addr: 0xC000_0304u32, value: cfg2 }],
            slot,
        ),
{
    let tail = spec_fc_table_tail().push((ctl0, 0x0002_0044u32));
    lemma_keeps_alias(0x27B, tail, slot);
    let phy = write_ops(DDR_PHY_BASE, spec_phy_fc_table());
    let t = spec_phy_fc_table();
    assert forall|i: int| 0 <= i < phy.len() implies #[trigger] phy[i] != (RegOp::Write { addr: 0xF000_0070u32, value: slot }) by {
        if i == 0 {} else if i == 1 {} else if i == 2 {} else if i == 3 {} else if i == 4 {}
        else if i == 5 {} else if i == 6 {} else if i == 7 {} else { assert(i == 8); }
        assert(t[i].0 <= 0x0001_0108u32);
    }
    lemma_keeps_channel_write(cfg2, slot);
    lemma_keeps_concat(alias_ops(0x27B, tail), phy, slot);
    lemma_keeps_concat(alias_ops(0x27B, tail) + phy, seq![RegOp::Write { addr: 0xC000_0304u32, value: cfg2 }], slot);
}

/// The frequency-change load gives each frequency point its own timing registers: from any
/// alias state, after `spec_dynamic_freq_change_ops`, slot `0x218 + 25p + k` of the internal
/// table holds `timing[p][k]` with the address of timing register `k`, for every point
/// `p < 4` and register `k < 24` (so slots 0x231.. carry point 1, 0x24A.. point 2).
pub proof fn timing_table_loads_each_point(
    st: (u32, u32, Map<u32, (u32, u32)>),
    ctl0: u32,
    cfg: [u32; 22],
    cfg2: u32,
    timing: [[u32; 24]; 4],
    p: int,
    k: int,
)
    requires
        0 <= p < 4,
        0 <= k < 24,
    ensures
        alias_run(st, spec_dynamic_freq_change_ops(ctl0, cfg, cfg2, timing)).2.contains_key((0x218 + 25 * p + k) as u32),
        alias_run(st, spec_dynamic_freq_change_ops(ctl0, cfg, cfg2, timing)).2[(0x218 + 25 * p + k) as u32]
            == (timing@[p]@[k], spec_timing_addrs()[k]),
{
    let cleared = cfg2 & !0xF000_0000u32;
    let s0 = spec_fc_sequence_ops();
    let pre = alias_ops(0x200, seq![(ctl0 | 0x1004u32, 0x0001_0044u32)])
        + alias_ops(0x201, read_table(cfg@, spec_cfg_addrs()))
        + seq![RegOp::Write { addr: 0xC000_0304u32, value: cleared }]
        + alias_ops(0x217, seq![(cleared, 0x0304u32)]);
    let rt0 = read_table(timing[0]@, spec_timing_addrs());
    let rt1 = read_table(timing[1]@, spec_timing_addrs());
    let rt2 = read_table(timing[2]@, spec_timing_addrs());
    let rt3 = read_table(timing[3]@, spec_timing_addrs());
    let a0 = alias_ops(0x218, rt0);
    let f1 = fp_ops(cfg2, 0b0101, 0x230, timing[1]@);
    let f2 = fp_ops(cfg2, 0b1010, 0x249, timing[2]@);
    let f3 = fp_ops(cfg2, 0b1111, 0x262, timing[3]@);
    let post = alias_ops(0x27B, spec_fc_table_tail().push((ctl0, 0x0002_0044u32)))
        + write_ops(DDR_PHY_BASE, spec_phy_fc_table())
        + seq![RegOp::Write { addr: 0xC000_0304u32, value: cfg2 }];
    let ops = spec_dynamic_freq_change_ops(ctl0, cfg, cfg2, timing);
    assert(ops =~= s0 + pre + a0 + f1 + f2 + f3 + post);
    let slot = (0x218 + 25 * p + k) as u32;
    lemma_keeps_closing(ctl0, cfg2, slot);
    assert(spec_timing_addrs().len() == 24);
    let head = |tag: u32, base: u32| {
        let fp = fp_select(cfg2, tag);
        seq![RegOp::Write { addr: 0xC000_0304u32, value: fp }] + alias_ops(base, seq![(fp & !0x3000_0000u32, 0x0304u32)])
    };
    if p == 0 {
        lemma_keeps_fp(cfg2, 0b0101, 0x230, timing[1]@, slot);
        lemma_keeps_fp(cfg2, 0b1010, 0x249, timing[2]@, slot);
        lemma_keeps_fp(cfg2, 0b1111, 0x262, timing[3]@, slot);
        lemma_keeps_concat(f1, f2, slot);
        lemma_keeps_concat(f1 + f2, f3, slot);
        lemma_keeps_concat(f1 + f2 + f3, post, slot);
        assert(ops =~= (s0 + pre) + a0 + (f1 + f2 + f3 + post));
        lemma_slot_after(st, s0 + pre, 0x218, rt0, f1 + f2 + f3 + post, k);
    } else if p == 1 {
        lemma_keeps_fp(cfg2, 0b1010, 0x249, timing[2]@, slot);
        lemma_keeps_fp(cfg2, 0b1111, 0x262, timing[3]@, slot);
        lemma_keeps_concat(f2, f3, slot);
        lemma_keeps_concat(f2 + f3, post, slot);
        assert(f1 =~= head(0b0101, 0x230) + alias_ops(0x231, rt1));
        assert(ops =~= (s0 + pre + a0 + head(0b0101, 0x230)) + alias_ops(0x231, rt1) + (f2 + f3 + post));
        lemma_slot_after(st, s0 + pre + a0 + head(0b0101, 0x230), 0x231, rt1, f2 + f3 + post, k);
    } else if p == 2 {
        lemma_keeps_fp(cfg2, 0b1111, 0x262, timing[3]@, slot);
        lemma_keeps_concat(f3, post, slot);
        assert(f2 =~= head(0b1010, 0x249) + alias_ops(0x24A, rt2));
        assert(ops =~= (s0 + pre + a0 + f1 + head(0b1010, 0x249)) + alias_ops(0x24A, rt2) + (f3 + post));
        lemma_slot_after(st, s0 + pre + a0 + f1 + head(0b1010, 0x249), 0x24A, rt2, f3 + post, k);
    } else {
        assert(f3 =~= head(0b1111, 0x262) + alias_ops(0x263, rt3));
        assert(ops =~= (s0 + pre + a0 + f1 + f2 + head(0b1111, 0x262)) + alias_ops(0x263, rt3) + post);
        lemma_slot_after(st, s0 + pre + a0 + f1 + f2 + head(0b1111, 0x262), 0x263, rt3, post, k);
    }
}

} // verus!
