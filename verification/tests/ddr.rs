use k1_musebook::ddr::byte::{prepare_reinit, set_byte_mode_parameter, ByteMode};
use k1_musebook::ddr::ctrl::config_addr_mapping;
use k1_musebook::ddr::dram::{
    capacity_from_mr8, capacity_total, config_for_capacity, detect_capacity, detect_manufacturer, mr_pulse,
    mr_read, DdrCapacity, Manufacturer,
};
use k1_musebook::ddr::freq::{change_freq, ddr_ctrl_secure_alias_write_table, init_dynamic_freq_change, DdrFreq};
use k1_musebook::ddr::phy::{config_registers, SubASettings};
use k1_musebook::ddr::train::training_params;
use k1_musebook::ddr::verify::{first_mismatch, pattern_value, test_pattern};
use k1_musebook::ddr::{DdrReadback, init};
use k1_musebook::mmio::RegOp;
use k1_musebook::soc::SocStep;

#[test]
fn mr8_capacity_decoding() {
    assert_eq!(capacity_from_mr8(0x10), 1);
    assert_eq!(capacity_from_mr8(0x50), 2);
    assert_eq!(capacity_from_mr8(0x18), 2);
    assert_eq!(capacity_from_mr8(0x58), 4);
    assert_eq!(capacity_from_mr8(0x00), 0);
    assert_eq!(capacity_from_mr8(0x90), 0);
    assert_eq!(capacity_from_mr8(0x14), 0);
    assert_eq!(capacity_total([0x58; 4]), 16);
    assert_eq!(capacity_total([0x50, 0x50, 0x50, 0x50]), 8);
    assert_eq!(capacity_total([0x10, 0x18, 0x00, 0x58]), 7);
    assert_eq!(detect_capacity([0x58; 4]), DdrCapacity::GB16);
    assert_eq!(detect_capacity([0x18, 0x18, 0x18, 0x18]), DdrCapacity::GB8);
}

#[test]
fn mr5_vendor_decoding() {
    assert_eq!(detect_manufacturer(0x01), Manufacturer::Samsung);
    assert_eq!(detect_manufacturer(0x06), Manufacturer::Hynix);
    assert_eq!(detect_manufacturer(0xFF), Manufacturer::Micron);
    assert_eq!(detect_manufacturer(0x03), Manufacturer::Unknown);
}

#[test]
fn mode_register_commands() {
    let mut plan = Vec::new();
    let addr = mr_read(&mut plan, 8, 1, 0);
    assert_eq!(addr, 0xC000_0370);
    mr_read(&mut plan, 5, 0, 1);
    mr_pulse(&mut plan, 0x95);
    assert_eq!(
        plan,
        vec![
            RegOp::Write { addr: 0xC000_0024, value: 0x1105_0008 },
            RegOp::WaitUntil { addr: 0xC000_0370, mask: 0x8000_0000, value: 0x8000_0000 },
            RegOp::Write { addr: 0xC000_0024, value: 0x1201_0005 },
            RegOp::WaitUntil { addr: 0xC000_0370, mask: 0x8000_0000, value: 0x8000_0000 },
            RegOp::Write { addr: 0xC000_0024, value: 0x1302_0095 },
            RegOp::Sleep { micros: 1 },
        ]
    );
}

#[test]
fn capacity_follow_up_only_on_16gb() {
    let mut plan = Vec::new();
    config_for_capacity(DdrCapacity::GB8, &mut plan);
    assert!(plan.is_empty());
    config_for_capacity(DdrCapacity::GB16, &mut plan);
    assert_eq!(plan[0], RegOp::Write { addr: 0xC000_0024, value: 0x1302_0095 });
    let mut other = Vec::new();
    k1_musebook::ddr::mr::config_for_16gb(&mut other);
    assert_eq!(plan, other);
}

#[test]
fn frequency_points() {
    assert_eq!(DdrFreq::Mt1200.phy_offset(), 0);
    assert_eq!(DdrFreq::Mt1600.phy_offset(), 0x4000);
    assert_eq!(DdrFreq::Mt2400.phy_offset(), 0x8000);
    assert_eq!(DdrFreq::Mt3200.phy_offset(), 0xC000);
    assert_eq!(DdrFreq::ExternalClock.phy_offset(), 0x1_0000);
    let p = training_params(DdrFreq::Mt2400, 0x100, 0x200);
    assert_eq!((p.ddr_ctrl_base, p.cs_num, p.freq, p.printf, p.input), (0xC000_0000, 2, 2, 0x100, 0x200));
}

#[test]
fn controller_pass_sizes_and_ends() {
    let mut plain = Vec::new();
    k1_musebook::ddr::ctrl::init(ByteMode::Disable, &mut plain);
    assert_eq!(plain.len(), 125);
    assert_eq!(plain[0], RegOp::Write { addr: 0xC000_0044, value: 0x0004_0300 });
    assert_eq!(plain[123 - 0], RegOp::Write { addr: 0xC000_0384, value: 0x0004_E200 });
    assert_eq!(plain[121], RegOp::Modify { addr: 0xC000_0304, clear: 0xF000_0000, set: 0 });
    assert_eq!(plain[120], RegOp::Modify { addr: 0xC000_0308, clear: 0x0FF0_0000, set: 0x0100_0000 });
    let mut byte = Vec::new();
    k1_musebook::ddr::ctrl::init(ByteMode::Enable, &mut byte);
    assert_eq!(byte.len(), 137);
    let mut only = Vec::new();
    set_byte_mode_parameter(&mut only);
    assert_eq!(&byte[121..133], &only[..]);
    assert_eq!(only[0], RegOp::Write { addr: 0xC000_0304, value: 0xF080_0400 });
    assert_eq!(only[11], RegOp::Write { addr: 0xC000_03B4, value: 0x0800_0A00 });
}

#[test]
fn address_map_by_capacity() {
    let mut plan = Vec::new();
    config_addr_mapping(DdrCapacity::GB16, [0xFFFF_FFFF; 4], &mut plan);
    assert_eq!(
        plan,
        vec![
            RegOp::Write { addr: 0xC000_0200, value: 0x0071_FFFF },
            RegOp::Write { addr: 0xC000_0204, value: 0 },
            RegOp::Write { addr: 0xC000_0208, value: 0x0071_FFFF },
            RegOp::Write { addr: 0xC000_020C, value: 2 },
            RegOp::Write { addr: 0xC000_0220, value: 0xFFFF_F83E },
            RegOp::Write { addr: 0xC000_0224, value: 0xFFFF_F83E },
        ]
    );
    let mut plan = Vec::new();
    config_addr_mapping(DdrCapacity::GB8, [0x1234_5678; 4], &mut plan);
    assert_eq!(plan[0], RegOp::Write { addr: 0xC000_0200, value: 0x0030_5678 });
    assert_eq!(plan[3], RegOp::Write { addr: 0xC000_020C, value: 1 });
    assert_eq!(plan[4], RegOp::Write { addr: 0xC000_0220, value: 0x1234_573A });
}

#[test]
fn secure_alias_table_load() {
    let mut plan = Vec::new();
    let next = ddr_ctrl_secure_alias_write_table(&mut plan, 0x10, &[(1, 2), (3, 4)]);
    assert_eq!(next, 0x12);
    assert_eq!(
        plan,
        vec![
            RegOp::Write { addr: 0xF000_0074, value: 1 },
            RegOp::Write { addr: 0xF000_0078, value: 2 },
            RegOp::Write { addr: 0xF000_0070, value: 0x10 },
            RegOp::Write { addr: 0xF000_0074, value: 3 },
            RegOp::Write { addr: 0xF000_0078, value: 4 },
            RegOp::Write { addr: 0xF000_0070, value: 0x11 },
        ]
    );
}

#[test]
fn frequency_change_tables_use_disjoint_slots() {
    let mut plan = Vec::new();
    let timing = [[0x55u32; 24]; 4];
    init_dynamic_freq_change(&mut plan, 0x0004_0300, &[7; 22], 0xA080_0400, &timing);
    let slots: Vec<u32> = plan
        .iter()
        .filter_map(|op| match op {
            RegOp::Write { addr: 0xF000_0070, value } => Some(*value),
            _ => None,
        })
        .collect();
    assert_eq!(slots.len(), 46 + 139);
    assert!(slots.windows(2).all(|w| w[0] < w[1]));
    assert_eq!((slots[0], slots[28], slots[29], slots[30], slots[45]), (0, 28, 0x12E, 0x180, 0x18F));
    assert_eq!((slots[46], slots[184]), (0x200, 0x28A));
    assert!(plan.contains(&RegOp::Write { addr: 0xF000_0074, value: 0x0004_1304 }));
    let cfg2_writes: Vec<u32> = plan
        .iter()
        .filter_map(|op| match op {
            RegOp::Write { addr: 0xC000_0304, value } => Some(*value),
            _ => None,
        })
        .collect();
    assert_eq!(cfg2_writes, vec![0x0080_0400, 0x5080_0400, 0xA080_0400, 0xF080_0400, 0xA080_0400]);
}

#[test]
fn frequency_switch_sequence() {
    let mut plan = Vec::new();
    change_freq(&mut plan, DdrFreq::Mt1600);
    assert_eq!(
        plan,
        vec![
            RegOp::Soc(SocStep::MaskDclkFcDoneInterrupt),
            RegOp::Write { addr: 0xC000_0148, value: 0x80AC_0000 },
            RegOp::Soc(SocStep::DdrPllSelect(DdrFreq::Mt1600)),
            RegOp::Soc(SocStep::DdrSleepTypeSelect(DdrFreq::Mt1600)),
            RegOp::Soc(SocStep::DdrFreqChangeRequest),
            RegOp::Soc(SocStep::DdrFreqChangeWait),
        ]
    );
    let mut plan = Vec::new();
    prepare_reinit(&mut plan);
    assert_eq!(plan.len(), 4);
    assert_eq!(plan[1], RegOp::Sleep { micros: 100 });
}

#[test]
fn phy_reads_chain_through_writes() {
    let s = SubASettings { amble: 0x1234_5678, drive: 0xFFFF_FFFF, common_hi: 0x1, common_lo: 0xFFFF_FFFF };
    let mut plan = Vec::new();
    config_registers(&mut plan, &s);
    assert_eq!(plan.len(), 4 + 4 + 6 * 8 + 3);
    let at = |i: usize| plan[i];
    assert_eq!(at(8), RegOp::Write { addr: 0xC004_3004, value: 0x1234_AE78 });
    assert_eq!(at(12), RegOp::Write { addr: 0xC004_3204, value: 0x1234_AE78 });
    assert_eq!(at(16), RegOp::Write { addr: 0xC004_300C, value: 0xFFFF_D8FF });
    assert_eq!(at(24), RegOp::Write { addr: 0xC004_300C, value: 0xFFE4_D8FF });
    assert_eq!(at(32), RegOp::Write { addr: 0xC004_3004, value: 0x5555_AE78 });
    assert_eq!(at(33), RegOp::Write { addr: 0xC004_7004, value: 0x5555_AE78 });
    assert_eq!(at(40), RegOp::Write { addr: 0xC004_3014, value: 0xFFFF_FFEF });
    assert_eq!(at(48), RegOp::Write { addr: 0xC004_3010, value: 0x1000_0001 });
    assert_eq!(at(58), RegOp::Modify { addr: 0xC005_0000, clear: 0, set: 1 });
}

#[test]
fn verify_pattern_values() {
    assert_eq!(pattern_value(0), 0xDEAD_BEEF_CAFE_BABE);
    assert_eq!(pattern_value(1), 0x409A_C756_B5B4_C6AB);
    let p = test_pattern();
    assert_eq!(p.len(), 64);
    assert_eq!(p[63], 0x310B_4A49_99AA_3395);
    assert_eq!(first_mismatch(&p), None);
    let mut bad = p.clone();
    bad[40] ^= 1;
    bad[50] ^= 1;
    assert_eq!(first_mismatch(&bad), Some(40));
}

fn readback(mr8: [u8; 4], mr5: u8) -> DdrReadback {
    let s = SubASettings { amble: 0, drive: 0, common_hi: 0, common_lo: 0 };
    DdrReadback {
        phy_first: s,
        mr8,
        mr5,
        phy_second: s,
        addr_map: [0; 4],
        ctl0: 0,
        cfg: [0; 22],
        cfg2: 0,
        timing: [[0; 24]; 4],
    }
}

#[test]
fn full_bring_up_order() {
    let mut plan16 = Vec::new();
    init(&mut plan16, &readback([0x58; 4], 0x06));
    let mut plan8 = Vec::new();
    init(&mut plan8, &readback([0x50; 4], 0x01));
    assert_eq!(plan16.len(), plan8.len() + 2);
    assert_eq!(*plan16.last().unwrap(), RegOp::VerifyPattern { base: 0x1_0000 });
    assert!(plan16.contains(&RegOp::Soc(SocStep::PhyForManufacturer(Manufacturer::Hynix))));
    assert!(plan8.contains(&RegOp::Soc(SocStep::PhyForManufacturer(Manufacturer::Samsung))));
    let trains: Vec<DdrFreq> = plan16
        .iter()
        .filter_map(|op| match op {
            RegOp::Train(f) => Some(*f),
            _ => None,
        })
        .collect();
    assert_eq!(trains, vec![DdrFreq::Mt1200, DdrFreq::Mt1200, DdrFreq::Mt1600, DdrFreq::Mt2400]);
    let switches: Vec<DdrFreq> = plan16
        .iter()
        .filter_map(|op| match op {
            RegOp::Soc(SocStep::DdrSleepTypeSelect(f)) => Some(*f),
            _ => None,
        })
        .collect();
    assert_eq!(switches, vec![DdrFreq::Mt1600, DdrFreq::Mt2400, DdrFreq::Mt2400]);
    assert!(plan16.contains(&RegOp::Write { addr: 0xC000_020C, value: 2 }));
    assert!(plan8.contains(&RegOp::Write { addr: 0xC000_020C, value: 1 }));
}
