//! The flash server's USB, borrowed from the BootROM: buffer placement, the re-enumeration
//! after DDR bring-up, status mapping of the ROM transfer functions, and the stage probe.
use vstd::prelude::*;
use crate::mmio::RegOp;
use crate::protocol::CHUNK_BYTES;
use crate::client::usb::{
    has_prefix, spec_classify, spec_flash_server_reply, spec_version_probe, starts_with, version_probe,
    DetectedStage,
};

verus! {

/// K1 MUSE Book USB vendor ID.
pub const K1_MUSEBOOK_VID: u16 = 0x361C;
/// K1 MUSE Book USB product ID.
pub const K1_MUSEBOOK_PID: u16 = 0x1001;
/// BootROM blocking receive on EP2 OUT: `long(*)(void *buf, u64 len)`.
pub const BROM_USB_RX_FUNC_ADDR: u32 = 0xFFE0_37B6;
/// BootROM blocking send on EP1 IN: `long(*)(const void *buf, u64 len)`.
pub const BROM_USB_TX_FUNC_ADDR: u32 = 0xFFE0_38D0;
/// BootROM `controller_run(base)`.
pub const BROM_USB_CONTROLLER_RUN_FUNC_ADDR: u32 = 0xFFE0_3992;
/// BootROM one-shot USB interrupt poll.
pub const BROM_USB_POLL_IRQ_FUNC_ADDR: u32 = 0xFFE0_35BE;
/// Bulk max packet size at high speed.
pub const BROM_USB_MAX_PACKET_BYTES: usize = 512;
/// Bytes of the little-endian frame length at the start of the prefix packet.
pub const FRAME_LEN_PREFIX_BYTES: usize = 4;
/// DDR receive buffer.
pub const RX_BUFFER_BASE: usize = 0x0500_0000;
/// Receive buffer size: one chunk plus 4 KiB of RPC overhead.
pub const RX_BUFFER_SIZE: usize = 1052672;
/// DDR transmit buffer, right after the receive buffer.
pub const TX_BUFFER_BASE: usize = 0x0510_1000;
/// Transmit buffer size: one chunk plus 4 KiB of RPC overhead.
pub const TX_BUFFER_SIZE: usize = 1052672;
/// The BootROM's `g_usb_ready` flag.
pub const G_USB_READY_ADDR: u32 = 0xC083_84CC;
/// USB controller base.
pub const USB_CTRL_BASE: u32 = 0xC090_0000;
/// ENDPTCTRL2 offset.
pub const ENDPTCTRL2_OFFSET: u32 = 0x1C8;
/// ENDPTCTRL2 RX enable.
pub const ENDPTCTRL_RXE_MASK: u32 = 1 << 7;

/// The buffers sit back to back in DDR and each holds a full chunk with room to spare.
pub proof fn buffers_are_laid_out()
    ensures
        RX_BUFFER_SIZE == CHUNK_BYTES + 4096,
        TX_BUFFER_SIZE == CHUNK_BYTES + 4096,
        TX_BUFFER_BASE == RX_BUFFER_BASE + RX_BUFFER_SIZE,
{
}

/// A BootROM USB function returned a negative status.
#[derive(Debug, Clone, Copy, PartialEq, Eq, Structural)]
pub struct BromFuncError;

/// The outcome of a BootROM transfer function: negative is an error, otherwise the byte
/// count.
pub fn rom_status(ret: isize) -> (r: Result<usize, BromFuncError>)
    ensures
        ret < 0 ==> r == Err::<usize, BromFuncError>(BromFuncError),
        ret >= 0 ==> r == Ok::<usize, BromFuncError>(ret as usize),
{
    if ret < 0 {
        Err(BromFuncError)
    } else {
        Ok(ret as usize)
    }
}

/// Whether a received packet is the host's stage probe, which the server answers with
/// `FLASH_SERVER`.
pub fn is_version_probe(buf: &[u8]) -> (r: bool)
    ensures
        r == has_prefix(buf@, spec_version_probe()),
{
    let probe = version_probe();
    starts_with(buf, probe.as_slice())
}

/// The USB restart after DDR bring-up: clear `g_usb_ready`, rerun the BootROM
/// `controller_run` on the controller, clear ENDPTCTRL2.RXE, then poll the BootROM interrupt
/// handler every 50 µs until the host has enabled RX again.
pub open spec fn spec_init_ops() -> Seq<RegOp> {
    seq![
        RegOp::Write { addr: G_USB_READY_ADDR, value: 0 },
        RegOp::RomCall { entry: BROM_USB_CONTROLLER_RUN_FUNC_ADDR, arg: USB_CTRL_BASE },
        RegOp::Modify { addr: 0xC090_01C8u32, clear: 0x80u32, set: 0 },
        RegOp::PollWith { addr: 0xC090_01C8u32, mask: 0x80u32, value: 0x80u32, entry: BROM_USB_POLL_IRQ_FUNC_ADDR, micros: 50 },
    ]
}

/// Bring USB back after DDR bring-up and wait for the host to re-enumerate the device.
pub fn init(plan: &mut Vec<RegOp>)
    ensures
        final(plan)@ == old(plan)@ + spec_init_ops(),
{
    let endptctrl2 = USB_CTRL_BASE + ENDPTCTRL2_OFFSET;
    proof { crate::bits::shift_constants(); }
    plan.push(RegOp::Write { addr: G_USB_READY_ADDR, value: 0 });
    plan.push(RegOp::RomCall { entry: BROM_USB_CONTROLLER_RUN_FUNC_ADDR, arg: USB_CTRL_BASE });
    plan.push(RegOp::Modify { addr: endptctrl2, clear: ENDPTCTRL_RXE_MASK, set: 0 });
    plan.push(RegOp::PollWith {
        addr: endptctrl2,
        mask: ENDPTCTRL_RXE_MASK,
        value: ENDPTCTRL_RXE_MASK,
        entry: BROM_USB_POLL_IRQ_FUNC_ADDR,
        micros: 50,
    });
    assert(plan@ =~= old(plan)@ + spec_init_ops());
}

/// The stage probe works end to end: the server recognises the host's probe, and the host
/// classifies the server's answer as the flash server.
pub proof fn stage_probe_handshake()
    ensures
        has_prefix(spec_version_probe(), spec_version_probe()),
        spec_classify(spec_flash_server_reply()) == Some(DetectedStage::FlashServer),
{
    assert(spec_version_probe().take(14) =~= spec_version_probe());
    assert(spec_flash_server_reply().take(12) =~= spec_flash_server_reply());
}

} // verus!
