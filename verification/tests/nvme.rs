use k1_musebook::mmio::RegOp;
use k1_musebook::nvme::{doorbell_offset, init_controller, Cqe, Nvme, Sqe};

fn controller() -> Nvme {
    let mut plan = Vec::new();
    Nvme::open(&mut plan, 2u64 << 32)
}

fn stored(plan: &[RegOp]) -> Vec<(u64, Sqe)> {
    plan.iter()
        .filter_map(|op| match *op {
            RegOp::StoreSqe { slot, sqe } => Some((slot, sqe)),
            _ => None,
        })
        .collect()
}

#[test]
fn doorbell_offsets_follow_stride() {
    assert_eq!(doorbell_offset(0, 0, false), 0);
    assert_eq!(doorbell_offset(0, 0, true), 4);
    assert_eq!(doorbell_offset(0, 1, false), 8);
    assert_eq!(doorbell_offset(0, 1, true), 12);
    assert_eq!(doorbell_offset(2, 1, true), 48);
    assert_eq!(doorbell_offset(15, 1, true), 3 * (4 << 15));
}

#[test]
fn open_creates_the_io_queues() {
    let mut plan = Vec::new();
    let nvme = Nvme::open(&mut plan, 2u64 << 32);
    let cmds = stored(&plan);
    assert_eq!(cmds.len(), 2);
    let (slot, cq) = cmds[0];
    assert_eq!(slot, 0x0400_0000);
    assert_eq!((cq.cdw0.opcode, cq.cdw0.psdt_fuse, cq.cdw0.cid), (0x05, 0, 1));
    assert_eq!((cq.nsid, cq.prp1, cq.prp2), (0, 0x0400_3000, 0));
    assert_eq!((cq.cdw10, cq.cdw11), (0x003F_0001, 1));
    let (slot, sq) = cmds[1];
    assert_eq!(slot, 0x0400_0040);
    assert_eq!((sq.cdw0.opcode, sq.cdw0.cid), (0x01, 2));
    assert_eq!(sq.prp1, 0x0400_2000);
    assert_eq!((sq.cdw10, sq.cdw11), (0x003F_0001, 0x0001_0001));
    assert_eq!((sq.cdw12, sq.cdw13, sq.cdw14, sq.cdw15, sq.rsvd, sq.mptr), (0, 0, 0, 0, 0, 0));
    // Doorbell stride 2: admin SQ doorbell at 0, admin CQ doorbell at 16.
    assert!(plan.contains(&RegOp::Write { addr: 0xA200_1000, value: 1 }));
    assert!(plan.contains(&RegOp::WaitCqe { slot: 0x0400_1000, phase: 1 }));
    assert!(plan.contains(&RegOp::Write { addr: 0xA200_1010, value: 1 }));
    assert!(plan.contains(&RegOp::Write { addr: 0xA200_1000, value: 2 }));
    assert!(plan.contains(&RegOp::WaitCqe { slot: 0x0400_1010, phase: 1 }));
    assert_eq!(plan.last(), Some(&RegOp::Write { addr: 0xA200_1010, value: 2 }));
    assert_eq!(nvme.admin_cq_slot(), (0x0400_1020, 1));
    assert_eq!(nvme.io_cq_slot(), (0x0400_3000, 1));
}

#[test]
fn admin_submission_and_completion() {
    let mut nvme = controller();
    let s = nvme.submit_admin();
    assert_eq!(s.slot, 0x0400_0080);
    assert_eq!((s.doorbell.offset, s.doorbell.value), (0, 3));
    let s = nvme.submit_admin();
    assert_eq!(s.slot, 0x0400_00C0);
    assert_eq!(s.doorbell.value, 4);
    assert_eq!(nvme.admin_cq_slot(), (0x0400_1020, 1));
    let d = nvme.complete_admin();
    assert_eq!((d.offset, d.value), (16, 3));
    assert_eq!(nvme.admin_cq_slot(), (0x0400_1030, 1));
}

#[test]
fn io_queue_wraps_and_flips_phase() {
    let mut nvme = controller();
    for i in 0..63u32 {
        let s = nvme.submit_io();
        assert_eq!(s.slot, 0x0400_2000 + 64 * i as u64);
        let d = nvme.complete_io();
        assert_eq!((d.offset, d.value), (48, i + 1));
    }
    assert_eq!(nvme.io_cq_slot(), (0x0400_3000 + 63 * 16, 1));
    let s = nvme.submit_io();
    assert_eq!((s.doorbell.offset, s.doorbell.value), (32, 0));
    let d = nvme.complete_io();
    assert_eq!(d.value, 0);
    assert_eq!(nvme.io_cq_slot(), (0x0400_3000, 0));
    for _ in 0..64 {
        nvme.complete_io();
    }
    assert_eq!(nvme.io_cq_slot(), (0x0400_3000, 1));
}

#[test]
fn read_and_write_commands() {
    let mut nvme = controller();
    let mut plan = Vec::new();
    nvme.read_chunk(&mut plan, 0x1_0000_0005, 0, 4096);
    let (_, r) = stored(&plan)[0];
    assert_eq!((r.cdw0.opcode, r.cdw0.cid, r.nsid, r.prp1, r.prp2), (0x02, 3, 1, 0x0400_5000, 0x0400_6000));
    assert_eq!((r.cdw10, r.cdw11, r.cdw12), (5, 1, 7));
    assert_eq!(plan.last(), Some(&RegOp::DmaToBuffer { offset: 0, len: 4096 }));
    let mut plan = Vec::new();
    nvme.write_chunk(&mut plan, 77, 512, 512);
    assert_eq!(plan[0], RegOp::BufferToDma { offset: 512, len: 512 });
    assert_eq!(plan[1], RegOp::CboClean { line: 0x0400_5000 });
    let (_, w) = stored(&plan)[0];
    assert_eq!((w.cdw0.opcode, w.cdw0.cid, w.cdw10, w.cdw11, w.cdw12), (0x01, 4, 77, 0, 0));
}

#[test]
fn command_ids_wrap() {
    let mut nvme = controller();
    let mut last = 0;
    for _ in 0..65533 {
        last = nvme.alloc_cid();
    }
    assert_eq!(last, u16::MAX);
    assert_eq!(nvme.alloc_cid(), 0);
    assert_eq!(nvme.alloc_cid(), 1);
}

#[test]
fn transfers_cut_into_4k_chunks() {
    let mut nvme = controller();
    let mut plan = Vec::new();
    nvme.read(&mut plan, 100, 8704);
    let cmds: Vec<(u16, u32, u32)> =
        stored(&plan).iter().map(|(_, q)| (q.cdw0.cid, q.cdw10, q.cdw12)).collect();
    assert_eq!(cmds, vec![(3, 100, 7), (4, 108, 7), (5, 116, 0)]);
    let copies: Vec<RegOp> = plan
        .iter()
        .filter(|op| matches!(op, RegOp::DmaToBuffer { .. }))
        .copied()
        .collect();
    assert_eq!(
        copies,
        vec![
            RegOp::DmaToBuffer { offset: 0, len: 4096 },
            RegOp::DmaToBuffer { offset: 4096, len: 4096 },
            RegOp::DmaToBuffer { offset: 8192, len: 512 },
        ]
    );
    let mut plan = Vec::new();
    nvme.write(&mut plan, 0, 8192);
    let cmds: Vec<(u8, u16, u32)> =
        stored(&plan).iter().map(|(_, q)| (q.cdw0.opcode, q.cdw0.cid, q.cdw10)).collect();
    assert_eq!(cmds, vec![(0x01, 6, 0), (0x01, 7, 8)]);
    assert_eq!(nvme.io_cq_slot(), (0x0400_3000 + 5 * 16, 1));
    let v = Nvme::chunks(100, 9000);
    let got: Vec<(u64, usize, usize)> = v.iter().map(|c| (c.lba, c.offset, c.len)).collect();
    assert_eq!(got, vec![(100, 0, 4096), (108, 4096, 4096), (116, 8192, 808)]);
    assert!(Nvme::chunks(5, 0).is_empty());
}

#[test]
fn completion_phase_bit() {
    let cqe = Cqe { result: 0, rsvd: 0, sq_head: 0, sq_id: 0, cid: 3, status_phase: 0x0003 };
    assert!(cqe.has_phase(1));
    assert!(!cqe.has_phase(0));
    let cqe = Cqe { status_phase: 0x0002, ..cqe };
    assert!(cqe.has_phase(0));
}

#[test]
fn controller_bring_up_sequence() {
    let mut plan = Vec::new();
    init_controller(&mut plan);
    let lines = 0x7000 / 64;
    assert_eq!(plan.len(), 2 + 1 + lines + 2 + 6);
    assert_eq!(
        plan[..3],
        [
            RegOp::Modify { addr: 0xA200_0014, clear: 1, set: 0 },
            RegOp::WaitUntil { addr: 0xA200_001C, mask: 1, value: 0 },
            RegOp::ZeroMemory { base: 0x0400_0000, bytes: 0x7000 },
        ]
    );
    for k in 0..lines {
        assert_eq!(plan[3 + k], RegOp::CboClean { line: 0x0400_0000 + 64 * k });
    }
    assert_eq!(
        plan[3 + lines..],
        [
            RegOp::Fence,
            RegOp::FenceI,
            RegOp::Write { addr: 0xA200_0024, value: 0x003F_003F },
            RegOp::Write64 { addr: 0xA200_0028, data: 0x0400_0000 },
            RegOp::Write64 { addr: 0xA200_0030, data: 0x0400_1000 },
            RegOp::Write { addr: 0xA200_0014, value: 0x0046_0000 },
            RegOp::Modify { addr: 0xA200_0014, clear: 1, set: 1 },
            RegOp::WaitUntil { addr: 0xA200_001C, mask: 1, value: 1 },
        ]
    );
}
