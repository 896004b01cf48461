//! The USB framing of RPC messages: the device appends a byte to frames that are an exact
//! multiple of the packet size, and reads a 4-byte length before each host frame.
use vstd::prelude::*;
use crate::usb::BROM_USB_MAX_PACKET_BYTES;
use crate::client::usb::spec_frame_prefix;

verus! {

/// RPC transmit side over the BootROM USB.
#[derive(Clone, Copy, Debug)]
pub struct UsbWireTx;

/// RPC receive side: a length prefix, then the frame.
#[derive(Debug)]
pub struct UsbWireRx;

/// No-op spawner; every endpoint is blocking.
#[derive(Clone, Copy)]
pub struct UsbWireSpawn;

/// Why a frame could not be sent.
#[derive(Debug, Clone, Copy, PartialEq, Eq, Structural)]
pub enum WireTxError {
    /// The frame did not fit in the transmit buffer.
    Other,
    /// The USB transfer failed.
    ConnectionClosed,
}

/// Why a frame could not be received.
#[derive(Debug, Clone, Copy, PartialEq, Eq, Structural)]
pub enum WireRxError {
    /// The USB transfer failed.
    ConnectionClosed,
}

impl UsbWireTx {
    /// The number of bytes of `buf` to send for a frame of `len` bytes: a frame whose length
    /// is a multiple of 512 gets one `0` appended (written into `buf`), so the host does not
    /// take its last full packet for the end of the transfer; `Other` when there is no room.
    pub fn send_frame(buf: &mut [u8], len: usize) -> (r: Result<usize, WireTxError>)
        requires
            len <= old(buf)@.len(),
        ensures
            len % 512 != 0 ==> r == Ok::<usize, WireTxError>(len) && final(buf)@ == old(buf)@,
            len % 512 == 0 && len < old(buf)@.len() ==> r == Ok::<usize, WireTxError>((len + 1) as usize)
                && final(buf)@ == old(buf)@.update(len as int, 0u8),
            len % 512 == 0 && len == old(buf)@.len() ==> r == Err::<usize, WireTxError>(WireTxError::Other)
                && final(buf)@ == old(buf)@,
    {
        if len % BROM_USB_MAX_PACKET_BYTES == 0 {
            if len < buf.len() {
                buf[len] = 0;
                Ok(len + 1)
            } else {
                Err(WireTxError::Other)
            }
        } else {
            Ok(len)
        }
    }

    /// The transfer error reported for a failed BootROM send.
    pub fn send_error() -> (e: WireTxError)
        ensures
            e == WireTxError::ConnectionClosed,
    {
        WireTxError::ConnectionClosed
    }
}

/// A sent frame is never a multiple of the packet size, and its first `len` bytes are the
/// frame.
pub proof fn sent_frames_end_short(len: int, sent: int)
    requires
        0 <= len,
        sent == (if len % 512 == 0 { len + 1 } else { len }),
    ensures
        sent % 512 != 0,
        len <= sent <= len + 1,
{
}

/// The little-endian word in the first four bytes of `s`.
pub open spec fn prefix_word(s: Seq<u8>) -> int {
    s[0] + 256 * s[1] + 65536 * s[2] + 16777216 * s[3]
}

/// The frame length a prefix packet announces, if it is a usable one: non-zero and no
/// larger than the receive buffer; otherwise the packet is ignored and the next one read.
pub open spec fn spec_frame_len(prefix: Seq<u8>, buf_len: int) -> Option<int> {
    let n = prefix_word(prefix);
    if n == 0 || n > buf_len { None } else { Some(n) }
}

impl UsbWireRx {
    /// The frame length announced by the prefix packet `prefix`, or `None` to ignore it.
    pub fn frame_len(prefix: &[u8], buf_len: usize) -> (r: Option<usize>)
        requires
            prefix@.len() >= 4,
        ensures
            r matches Some(n) ==> spec_frame_len(prefix@, buf_len as int) == Some(n as int),
            r is None ==> spec_frame_len(prefix@, buf_len as int) is None,
    {
        let b0 = prefix[0] as u32;
        let b1 = prefix[1] as u32;
        let b2 = prefix[2] as u32;
        let b3 = prefix[3] as u32;
        assert(b0 < 256 && b1 < 256 && b2 < 256 && b3 < 256 ==> (b0 | (b1 << 8u32) | (b2 << 16u32) | (b3 << 24u32))
            == b0 + 256 * b1 + 65536 * b2 + 16777216 * b3) by (bit_vector);
        let n = b0 | (b1 << 8u32) | (b2 << 16u32) | (b3 << 24u32);
        let len = n as usize;
        if n == 0 || (len as u64) > (buf_len as u64) {
            None
        } else {
            Some(len)
        }
    }
}

/// The device reads back the length the host announced: for a frame of `n` bytes,
/// `0 < n <= buf_len` (within 32 bits), the host's prefix packet yields `n`.
pub proof fn frame_prefix_roundtrip(n: usize, buf_len: int)
    requires
        0 < n <= buf_len,
        n <= u32::MAX,
    ensures
        spec_frame_len(spec_frame_prefix(n), buf_len) == Some(n as int),
{
    let m = n as u32;
    assert(m == n);
    assert((m % 256) + 256 * ((m / 256) % 256) + 65536 * ((m / 65536) % 256) + 16777216 * (m / 16777216) == m)
        by (bit_vector);
}

} // verus!
