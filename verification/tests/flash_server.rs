use k1_musebook::nor::{ip_wait_idle_step, poll_error, wait_ready_step, Poll, POLL_LIMIT};
use k1_musebook::mmio::RegOp;
use k1_musebook::nor::{
    erase, fill_tx, init, program_lut_fast_read, program_lut_ip, read_rx, read_window, trigger_ipcr,
    DataPhase, QSPI_AHB_SIZE,
};
use k1_musebook::protocol::{nor_read, nvme_read, nvme_write, ping, FlashServerError, NorRange, NvmeChunk, NvmeRange, CHUNK_BYTES};
use k1_musebook::usb::{is_version_probe, rom_status, BromFuncError, RX_BUFFER_SIZE, TX_BUFFER_BASE};
use k1_musebook::wire::{UsbWireRx, UsbWireTx, WireTxError};
use k1_musebook::client::usb::frame_prefix;

#[test]
fn read_window_bounds() {
    assert_eq!(read_window(0, 1), Ok(0xB800_0000));
    assert_eq!(read_window(0x10, 100), Ok(0xB800_0010));
    assert_eq!(read_window(0xCF_FFFF, 1), Ok(0xB8CF_FFFF));
    assert_eq!(read_window(0xCF_FFFF, 2), Err(FlashServerError::Args));
    assert_eq!(read_window(0, 0), Err(FlashServerError::Args));
    assert_eq!(read_window(0, QSPI_AHB_SIZE + 1), Err(FlashServerError::Args));
}

#[derive(Debug, PartialEq)]
enum Cmd {
    Addr(u32),
    Op(u32),
    Trigger(u32),
    Ready,
}

fn commands(plan: &[RegOp]) -> Vec<Cmd> {
    let mut out = Vec::new();
    for op in plan {
        match *op {
            RegOp::Write { addr: 0xD420_C100, value } => out.push(Cmd::Addr(value - 0xB800_0000)),
            RegOp::Write { addr: 0xD420_C320, value } => out.push(Cmd::Op(value & 0xFF)),
            RegOp::Write { addr: 0xD420_C008, value } => out.push(Cmd::Trigger(value & 0xFFFF)),
            RegOp::WaitFlashReady { .. } => out.push(Cmd::Ready),
            _ => {}
        }
    }
    out
}

fn ahb_invalidate_tail() -> Vec<RegOp> {
    vec![
        RegOp::Modify { addr: 0xD420_C000, clear: 3, set: 3 },
        RegOp::Sleep { micros: 1 },
        RegOp::Modify { addr: 0xD420_C000, clear: 3, set: 0 },
    ]
}

#[test]
fn write_splits_at_page_boundaries() {
    let data: Vec<u8> = (0..20u8).collect();
    let mut plan = Vec::new();
    let progs = match k1_musebook::nor::write(&mut plan, 0xF6, &data) {
        Ok(p) => p,
        Err(_) => panic!("write refused"),
    };
    assert_eq!(progs.len(), 2);
    assert_eq!(progs[0].addr, 0xF6);
    assert_eq!(progs[0].data, (0..10u8).collect::<Vec<_>>());
    assert_eq!(progs[1].addr, 0x100);
    assert_eq!(progs[1].data, (10..20u8).collect::<Vec<_>>());
    let big = vec![0xAAu8; 600];
    let mut plan = Vec::new();
    let progs = match k1_musebook::nor::write(&mut plan, 0x200, &big) {
        Ok(p) => p,
        Err(_) => panic!("write refused"),
    };
    let lens: Vec<(u32, usize)> = progs.iter().map(|p| (p.addr, p.data.len())).collect();
    assert_eq!(lens, vec![(0x200, 256), (0x300, 256), (0x400, 88)]);
}

#[test]
fn write_issues_enable_program_and_status_polls() {
    let mut plan = Vec::new();
    assert!(k1_musebook::nor::write(&mut plan, 0xFA, &[0xAB; 10]).is_ok());
    assert_eq!(
        commands(&plan),
        vec![
            Cmd::Addr(0),
            Cmd::Op(0x06),
            Cmd::Trigger(0),
            Cmd::Addr(0xFA),
            Cmd::Op(0x02),
            Cmd::Trigger(6),
            Cmd::Ready,
            Cmd::Addr(0),
            Cmd::Op(0x06),
            Cmd::Trigger(0),
            Cmd::Addr(0x100),
            Cmd::Op(0x02),
            Cmd::Trigger(4),
            Cmd::Ready,
        ]
    );
    assert_eq!(plan[plan.len() - 3..].to_vec(), ahb_invalidate_tail());
    assert!(plan.contains(&RegOp::Write { addr: 0xD420_C154, value: 0xABAB_ABAB }));
}

#[test]
fn write_refuses_empty_and_out_of_window() {
    let mut plan = Vec::new();
    assert!(matches!(k1_musebook::nor::write(&mut plan, 0, &[]), Err(FlashServerError::Args)));
    assert!(matches!(
        k1_musebook::nor::write(&mut plan, (QSPI_AHB_SIZE - 1) as u32, &[1, 2]),
        Err(FlashServerError::Args)
    ));
    assert!(plan.is_empty());
    assert!(k1_musebook::nor::write(&mut plan, (QSPI_AHB_SIZE - 2) as u32, &[1, 2]).is_ok());
}

#[test]
fn erase_covers_sectors() {
    let mut plan = Vec::new();
    assert_eq!(erase(&mut plan, 0x1000, 0x2000), Ok(vec![0x1000, 0x2000]));
    assert_eq!(
        commands(&plan),
        vec![
            Cmd::Addr(0),
            Cmd::Op(0x06),
            Cmd::Trigger(0),
            Cmd::Addr(0x1000),
            Cmd::Op(0x20),
            Cmd::Trigger(0),
            Cmd::Ready,
            Cmd::Addr(0),
            Cmd::Op(0x06),
            Cmd::Trigger(0),
            Cmd::Addr(0x2000),
            Cmd::Op(0x20),
            Cmd::Trigger(0),
            Cmd::Ready,
        ]
    );
    assert_eq!(plan[plan.len() - 3..].to_vec(), ahb_invalidate_tail());
    let mut plan = Vec::new();
    assert_eq!(erase(&mut plan, 0, 4096), Ok(vec![0]));
    assert_eq!(erase(&mut plan, 0xD0_0000 - 4096, 4096), Ok(vec![0xCF_F000]));
    let mut plan = Vec::new();
    assert_eq!(erase(&mut plan, 0x1001, 4096), Err(FlashServerError::Args));
    assert_eq!(erase(&mut plan, 0x1000, 100), Err(FlashServerError::Args));
    assert_eq!(erase(&mut plan, 0, 0), Err(FlashServerError::Args));
    assert_eq!(erase(&mut plan, 0xD0_0000 - 4096, 8192), Err(FlashServerError::Args));
    assert!(plan.is_empty());
}

fn ip_lut(opcode: u8, addr_bytes: u8, phase: DataPhase) -> Vec<RegOp> {
    let mut plan = Vec::new();
    program_lut_ip(&mut plan, opcode, addr_bytes, phase);
    plan
}

fn lut_plan(words: [u32; 4]) -> Vec<RegOp> {
    vec![
        RegOp::Write { addr: 0xD420_C300, value: 0x5AF0_5AF0 },
        RegOp::Write { addr: 0xD420_C304, value: 2 },
        RegOp::Write { addr: 0xD420_C320, value: words[0] },
        RegOp::Write { addr: 0xD420_C324, value: words[1] },
        RegOp::Write { addr: 0xD420_C328, value: words[2] },
        RegOp::Write { addr: 0xD420_C32C, value: words[3] },
        RegOp::Write { addr: 0xD420_C300, value: 0x5AF0_5AF0 },
        RegOp::Write { addr: 0xD420_C304, value: 1 },
    ]
}

#[test]
fn lut_sequences() {
    assert_eq!(program_lut_fast_read(), [0x0818_040B, 0x1C00_0C08, 0, 0]);
    assert_eq!(ip_lut(0x02, 3, DataPhase::Write), lut_plan([0x0818_0402, 0x0000_2000, 0, 0]));
    assert_eq!(ip_lut(0x06, 0, DataPhase::NoData), lut_plan([0x0000_0406, 0, 0, 0]));
    assert_eq!(ip_lut(0x05, 0, DataPhase::Read), lut_plan([0x1C00_0405, 0, 0, 0]));
    assert_eq!(ip_lut(0x20, 3, DataPhase::NoData), lut_plan([0x0818_0420, 0, 0, 0]));
    // An address width past 4 bytes: the operand is masked to its low byte.
    assert_eq!(ip_lut(0x02, 40, DataPhase::NoData), lut_plan([0x0840_0402, 0, 0, 0]));
    let mut plan = Vec::new();
    trigger_ipcr(&mut plan, 256);
    trigger_ipcr(&mut plan, 0x1_0005);
    assert_eq!(plan[0], RegOp::Write { addr: 0xD420_C008, value: 0x0100_0100 });
    assert_eq!(plan[4], RegOp::Write { addr: 0xD420_C008, value: 0x0100_0005 });
    assert_eq!(
        plan[1..4].to_vec(),
        vec![
            RegOp::WaitUntil { addr: 0xD420_C160, mask: 1, value: 1 },
            RegOp::Write { addr: 0xD420_C160, value: 1 },
            RegOp::WaitUntil { addr: 0xD420_C15C, mask: 1, value: 0 },
        ]
    );
}

#[test]
fn tx_fifo_packs_and_pads() {
    assert_eq!(fill_tx(&[1, 2, 3, 4, 5]), vec![0x0403_0201, 5, 0, 0]);
    assert_eq!(fill_tx(&[]), vec![0, 0, 0, 0]);
    let data: Vec<u8> = (1..=20u8).collect();
    let words = fill_tx(&data);
    assert_eq!(words.len(), 5);
    assert_eq!(words[4], 0x1413_1211);
}

#[test]
fn rx_fifo_unpacks() {
    assert_eq!(read_rx(&[0x0403_0201, 0x0000_0005], 5), vec![1, 2, 3, 4, 5]);
    let data: Vec<u8> = (7..30u8).collect();
    assert_eq!(read_rx(&fill_tx(&data), data.len()), data);
}

#[test]
fn nor_init_programs_controller() {
    let mut plan = Vec::new();
    init(&mut plan);
    assert_eq!(plan.len(), 43);
    assert!(plan.contains(&RegOp::Write { addr: 0xD420_C310, value: 0x0818_040B }));
    assert!(plan.contains(&RegOp::Write { addr: 0xD420_C100, value: 0xB800_0000 }));
    assert!(plan.contains(&RegOp::Write { addr: 0xD420_C01C, value: 0x8000_4000 }));
    assert!(plan.contains(&RegOp::Write { addr: 0xD420_C18C, value: 0xB8D0_0000 }));
    assert_eq!(plan[42], RegOp::Write { addr: 0xD420_C160, value: 0xFFFF_FFFF });
}

#[test]
fn protocol_endpoint_checks() {
    assert_eq!(ping(), 0x0001_0000);
    assert_eq!(nor_read(NorRange { offset: 16, len: 100 }), Ok((0xB800_0010, 100)));
    assert_eq!(nor_read(NorRange { offset: 0, len: 0 }), Err(FlashServerError::Args));
    assert_eq!(nor_read(NorRange { offset: 0, len: CHUNK_BYTES as u32 + 1 }), Err(FlashServerError::Args));
    assert_eq!(nor_read(NorRange { offset: 0xCF_FFF0, len: 0x20 }), Err(FlashServerError::Args));
    assert_eq!(nvme_read(NvmeRange { lba: 9, len: 512 }), Ok(512));
    assert_eq!(nvme_read(NvmeRange { lba: 9, len: 100 }), Err(FlashServerError::Args));
    assert_eq!(nvme_read(NvmeRange { lba: 9, len: 0 }), Err(FlashServerError::Args));
    assert_eq!(nvme_read(NvmeRange { lba: 9, len: CHUNK_BYTES as u32 + 512 }), Err(FlashServerError::Args));
    let data = vec![0u8; 1024];
    assert_eq!(nvme_write(&NvmeChunk { lba: 0, data: &data }), Ok(()));
    assert_eq!(nvme_write(&NvmeChunk { lba: 0, data: &data[..513] }), Err(FlashServerError::Args));
    assert_eq!(nvme_write(&NvmeChunk { lba: 0, data: &[] }), Err(FlashServerError::Args));
}

#[test]
fn usb_buffers_and_probe() {
    assert_eq!(RX_BUFFER_SIZE, CHUNK_BYTES + 4096);
    assert_eq!(TX_BUFFER_BASE, 0x0500_0000 + RX_BUFFER_SIZE);
    assert!(is_version_probe(b"getvar:version"));
    assert!(is_version_probe(b"getvar:version\0\0\0"));
    assert!(!is_version_probe(b"getvar:versio"));
    assert!(!is_version_probe(b"download:00000010"));
    assert_eq!(rom_status(-1), Err(BromFuncError));
    assert_eq!(rom_status(0), Ok(0));
    assert_eq!(rom_status(512), Ok(512));
}

#[test]
fn usb_init_restarts_and_pumps() {
    let mut plan = Vec::new();
    k1_musebook::usb::init(&mut plan);
    assert_eq!(
        plan,
        vec![
            RegOp::Write { addr: 0xC083_84CC, value: 0 },
            RegOp::RomCall { entry: 0xFFE0_3992, arg: 0xC090_0000 },
            RegOp::Modify { addr: 0xC090_01C8, clear: 0x80, set: 0 },
            RegOp::PollWith { addr: 0xC090_01C8, mask: 0x80, value: 0x80, entry: 0xFFE0_35BE, micros: 50 },
        ]
    );
}

#[test]
fn frames_of_whole_packets_get_a_pad_byte() {
    let mut buf = vec![0xEEu8; 1024];
    assert_eq!(UsbWireTx::send_frame(&mut buf, 512), Ok(513));
    assert_eq!(buf[512], 0);
    assert_eq!(buf[511], 0xEE);
    let mut buf = vec![0xEEu8; 1024];
    assert_eq!(UsbWireTx::send_frame(&mut buf, 100), Ok(100));
    assert!(buf.iter().all(|&b| b == 0xEE));
    let mut buf = vec![0xEEu8; 512];
    assert_eq!(UsbWireTx::send_frame(&mut buf, 512), Err(WireTxError::Other));
    let mut buf = vec![0xEEu8; 8];
    assert_eq!(UsbWireTx::send_frame(&mut buf, 0), Ok(1));
    assert_eq!(UsbWireTx::send_error(), WireTxError::ConnectionClosed);
}

#[test]
fn frame_length_prefix() {
    assert_eq!(UsbWireRx::frame_len(&300u32.to_le_bytes(), 1000), Some(300));
    assert_eq!(UsbWireRx::frame_len(&[0, 0, 0, 0], 1000), None);
    assert_eq!(UsbWireRx::frame_len(&2000u32.to_le_bytes(), 1000), None);
    assert_eq!(UsbWireRx::frame_len(&1000u32.to_le_bytes(), 1000), Some(1000));
    let p = frame_prefix(777);
    assert_eq!(UsbWireRx::frame_len(&p, RX_BUFFER_SIZE), Some(777));
}

#[test]
fn status_polling_gives_up_after_limit() {
    assert_eq!(wait_ready_step(0, 0x00), Poll::Done);
    assert_eq!(wait_ready_step(0, 0x02), Poll::Done);
    assert_eq!(wait_ready_step(0, 0x01), Poll::Retry);
    assert_eq!(wait_ready_step(POLL_LIMIT - 2, 0x03), Poll::Retry);
    assert_eq!(wait_ready_step(POLL_LIMIT - 1, 0x03), Poll::TimedOut);
    assert_eq!(wait_ready_step(POLL_LIMIT - 1, 0x00), Poll::Done);
    assert_eq!(ip_wait_idle_step(3, 0x8), Poll::Done);
    assert_eq!(ip_wait_idle_step(3, 0x4), Poll::Retry);
    assert_eq!(ip_wait_idle_step(POLL_LIMIT - 1, 0x1), Poll::TimedOut);
    assert_eq!(poll_error(), FlashServerError::Hardware);
}
