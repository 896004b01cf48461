use k1_musebook::cpu::cache::{clean, enable, inval};
use k1_musebook::cpu::csr::MSetupCSR;
use k1_musebook::cpu::freq::raise_freq;
use k1_musebook::cpu::multicore::{enable_snoop, reset_vector_words, wake_secondary_harts};
use k1_musebook::cpu::perf::{enable_perf_features, enable_perf_features_for_secondary_hart, snoop_slot};
use k1_musebook::cpu::voltage::raise_voltage;
use k1_musebook::i2c::register::{I2C_CONTROL, I2C_DATA_BUFFER};
use k1_musebook::mmio::{RegOp, MMIO, Raw};
use k1_musebook::soc::SocStep;

#[test]
fn cache_enable_and_maintenance_lines() {
    let mut plan = Vec::new();
    enable(&mut plan);
    assert_eq!(plan, vec![RegOp::CsrSet { csr: 0x7C0, bits: 0b11 }]);
    let mut plan = Vec::new();
    inval(&mut plan, 0x1000, 130);
    assert_eq!(
        plan,
        vec![
            RegOp::CboInval { line: 0x1000 },
            RegOp::CboInval { line: 0x1040 },
            RegOp::CboInval { line: 0x1080 },
            RegOp::Fence,
            RegOp::FenceI,
        ]
    );
    let mut plan = Vec::new();
    clean(&mut plan, 0x1000, 128);
    assert_eq!(
        plan,
        vec![RegOp::CboClean { line: 0x1000 }, RegOp::CboClean { line: 0x1040 }, RegOp::Fence, RegOp::FenceI]
    );
    let mut plan = Vec::new();
    inval(&mut plan, 0x3000, 0);
    assert_eq!(plan, vec![RegOp::Fence, RegOp::FenceI]);
}

#[test]
fn csr_enable_sets_bits() {
    let mut plan = Vec::new();
    MSetupCSR::enable(&mut plan, 0x30);
    assert_eq!(plan, vec![RegOp::CsrSet { csr: 0x7C0, bits: 0x30 }]);
}

#[test]
fn perf_features_and_snoop_slots() {
    let mut plan = Vec::new();
    enable_perf_features(&mut plan);
    assert_eq!(plan, vec![RegOp::CsrSet { csr: 0x7C0, bits: 0x30 }, RegOp::CsrSet { csr: 0x7F0, bits: 1 }]);
    assert_eq!((snoop_slot(0), snoop_slot(1), snoop_slot(2), snoop_slot(3)), (1, 2, 4, 8));
    assert_eq!((snoop_slot(4), snoop_slot(5), snoop_slot(7)), (1, 2, 8));
    let mut plan = Vec::new();
    enable_perf_features_for_secondary_hart(&mut plan, 6);
    assert_eq!(plan[1], RegOp::CsrSet { csr: 0x7F0, bits: 4 });
}

#[test]
fn voltage_raise_writes_pmic() {
    let mut plan = Vec::new();
    raise_voltage(&mut plan);
    assert_eq!(plan.len(), 9 + 26 + 9 + 1);
    let data: Vec<u32> = plan
        .iter()
        .filter_map(|op| match op {
            RegOp::Write { addr, value } if *addr == I2C_DATA_BUFFER => Some(*value),
            _ => None,
        })
        .collect();
    assert_eq!(data, vec![0x82, 0x48, 0x6E]);
    assert_eq!(*plan.last().unwrap(), RegOp::Sleep { micros: 2000 });
    let starts = plan.iter().filter(|op| **op == RegOp::Modify { addr: I2C_CONTROL, clear: 1, set: 1 }).count();
    let stops = plan.iter().filter(|op| **op == RegOp::Modify { addr: I2C_CONTROL, clear: 2, set: 2 }).count();
    assert_eq!((starts, stops), (1, 1));
}

#[test]
fn i2c_write_frames_start_and_stop() {
    let mut plan = Vec::new();
    k1_musebook::i2c::operate::write(&mut plan, 0x41, &[]);
    assert_eq!(plan.len(), 10);
    assert!(plan.contains(&RegOp::Modify { addr: I2C_CONTROL, clear: 1, set: 1 }));
    assert!(plan.contains(&RegOp::Modify { addr: I2C_CONTROL, clear: 2, set: 2 }));
    let mut plan = Vec::new();
    k1_musebook::i2c::operate::write(&mut plan, 0xC1, &[9]);
    assert_eq!(plan[2], RegOp::Write { addr: I2C_DATA_BUFFER, value: 0x82 });
    let mut plan = Vec::new();
    k1_musebook::i2c::operate::reset(&mut plan);
    assert_eq!(plan[5], RegOp::Write { addr: I2C_CONTROL, value: 0x0078_2100 });
    let mut plan = Vec::new();
    k1_musebook::i2c::operate::init(&mut plan);
    assert_eq!(plan[2], RegOp::Soc(SocStep::PinmuxI2c(118)));
    assert_eq!(plan.len(), 8);
}

#[test]
fn frequency_raise_switches_both_clusters() {
    let mut plan = Vec::new();
    raise_freq(&mut plan);
    assert_eq!(plan.len(), 9);
    assert_eq!(plan[3], RegOp::Soc(SocStep::ClusterClock1600(0)));
    assert_eq!(plan[8], RegOp::Soc(SocStep::ClusterFreqChangeWait(1)));
}

#[test]
fn secondary_hart_handover() {
    assert_eq!(reset_vector_words(0x1_2345_6789), (0x2345_6789, 1));
    let mut plan = Vec::new();
    wake_secondary_harts(&mut plan, 0x1_2345_6789);
    assert_eq!(plan.len(), 4 + 10 + 7 + 2);
    assert_eq!(plan[0], RegOp::Soc(SocStep::ResetVector { cluster: 0, high: false, value: 0x2345_6789 }));
    assert_eq!(plan[3], RegOp::Soc(SocStep::ResetVector { cluster: 1, high: true, value: 1 }));
    assert_eq!(plan[4], RegOp::Write { addr: 0xD850_1000, value: 0b11 });
    assert_eq!(plan[11], RegOp::Write { addr: 0xD850_2000, value: 0b11 });
    assert_eq!(plan[20], RegOp::Soc(SocStep::CoreIdleClear(7)));
    assert_eq!(plan[22], RegOp::Soc(SocStep::WakeCores1To7));
    let mut plan = Vec::new();
    enable_snoop(&mut plan, 0xD850_1000);
    assert_eq!(plan[2], RegOp::WaitUntil { addr: 0xD850_000C, mask: 1, value: 0 });
}

#[test]
fn register_window_operations() {
    let w: MMIO<Raw> = MMIO::base(0x1000);
    assert_eq!(w.addr(), 0x1000);
    let mut plan = Vec::new();
    w.write(&mut plan, &[(4, 5), (8, 9)]);
    w.modify(&mut plan, 0xC, 0xF0, 0x30);
    w.wait_until(&mut plan, 0x10, 1, 0);
    assert_eq!(
        plan,
        vec![
            RegOp::Write { addr: 0x1004, value: 5 },
            RegOp::Write { addr: 0x1008, value: 9 },
            RegOp::Modify { addr: 0x100C, clear: 0xF0, set: 0x30 },
            RegOp::WaitUntil { addr: 0x1010, mask: 1, value: 0 },
        ]
    );
    assert_eq!(w.read(0x20), 0x1020);
}

#[test]
fn repeated_register_writes_keep_their_order() {
    let w: MMIO<Raw> = MMIO::base(0x2000);
    let mut plan = Vec::new();
    w.write(&mut plan, &[(0, 1), (4, 2), (0, 3)]);
    let last_to_base = plan
        .iter()
        .rev()
        .find(|op| matches!(op, RegOp::Write { addr: 0x2000, .. }));
    assert_eq!(last_to_base, Some(&RegOp::Write { addr: 0x2000, value: 3 }));
    assert_eq!(plan.len(), 3);
}

#[test]
fn cache_maintenance_covers_unaligned_ranges() {
    let mut plan = Vec::new();
    clean(&mut plan, 32, 64);
    assert_eq!(
        plan,
        vec![RegOp::CboClean { line: 0 }, RegOp::CboClean { line: 64 }, RegOp::Fence, RegOp::FenceI]
    );
    let mut plan = Vec::new();
    inval(&mut plan, 0x2030, 1);
    assert_eq!(plan, vec![RegOp::CboInval { line: 0x2000 }, RegOp::Fence, RegOp::FenceI]);
}
