//! Recognising the board's boot stages on USB, the BootROM fastboot commands, and the
//! host side of the RPC framing.
use vstd::prelude::*;

verus! {

/// The board was found and its interface claimed.
pub struct Connected;
/// The board is in BootROM fastboot.
pub struct BromFastboot;
/// The flash-server image was downloaded to the BootROM.
pub struct ImageSent;
/// The BootROM jumped to the flash server.
pub struct ServerBooted;
/// The flash server answers RPC.
pub struct RpcReady;

/// Bulk OUT endpoint address.
pub const EP_OUT: u8 = 0x02;
/// Bulk IN endpoint address.
pub const EP_IN: u8 = 0x81;
/// Bytes of the length-prefix packet the host sends before each frame.
pub const PREFIX_PACKET_BYTES: usize = 512;

/// `getvar:version`, the probe the host sends to learn the stage.
pub open spec fn spec_version_probe() -> Seq<u8> {
    seq![0x67u8, 0x65, 0x74, 0x76, 0x61, 0x72, 0x3A, 0x76, 0x65, 0x72, 0x73, 0x69, 0x6F, 0x6E]
}

/// `FLASH_SERVER`, the flash server's answer to the probe.
pub open spec fn spec_flash_server_reply() -> Seq<u8> {
    seq![0x46u8, 0x4C, 0x41, 0x53, 0x48, 0x5F, 0x53, 0x45, 0x52, 0x56, 0x45, 0x52]
}

/// `OKAY`, the BootROM's success answer.
pub open spec fn spec_okay() -> Seq<u8> {
    seq![0x4Fu8, 0x4B, 0x41, 0x59]
}

/// `DATA`, the BootROM's answer that it accepts a download.
pub open spec fn spec_data() -> Seq<u8> {
    seq![0x44u8, 0x41, 0x54, 0x41]
}

/// `continue`, the BootROM command that boots the downloaded image.
pub open spec fn spec_continue() -> Seq<u8> {
    seq![0x63u8, 0x6F, 0x6E, 0x74, 0x69, 0x6E, 0x75, 0x65]
}

/// The probe bytes.
pub fn version_probe() -> (v: Vec<u8>)
    ensures
        v@ == spec_version_probe(),
{
    let v: Vec<u8> = vec![0x67u8, 0x65, 0x74, 0x76, 0x61, 0x72, 0x3A, 0x76, 0x65, 0x72, 0x73, 0x69, 0x6F, 0x6E];
    assert(v@ =~= spec_version_probe());
    v
}

/// The flash server's probe answer.
pub fn flash_server_reply() -> (v: Vec<u8>)
    ensures
        v@ == spec_flash_server_reply(),
{
    let v: Vec<u8> = vec![0x46u8, 0x4C, 0x41, 0x53, 0x48, 0x5F, 0x53, 0x45, 0x52, 0x56, 0x45, 0x52];
    assert(v@ =~= spec_flash_server_reply());
    v
}

/// The BootROM `continue` command.
pub fn continue_command() -> (v: Vec<u8>)
    ensures
        v@ == spec_continue(),
{
    let v: Vec<u8> = vec![0x63u8, 0x6F, 0x6E, 0x74, 0x69, 0x6E, 0x75, 0x65];
    assert(v@ =~= spec_continue());
    v
}

/// `s` begins with `prefix`.
pub open spec fn has_prefix(s: Seq<u8>, prefix: Seq<u8>) -> bool {
    prefix.len() <= s.len() && s.take(prefix.len() as int) == prefix
}

/// Whether `s` begins with `prefix`.
pub fn starts_with(s: &[u8], prefix: &[u8]) -> (r: bool)
    ensures
        r == has_prefix(s@, prefix@),
{
    if prefix.len() > s.len() {
        return false;
    }
    let mut i: usize = 0;
    while i < prefix.len()
        invariant
            i <= prefix.len() <= s.len(),
            forall|k: int| 0 <= k < i ==> s@[k] == prefix@[k],
        decreases prefix.len() - i,
    {
        if s[i] != prefix[i] {
            assert(s@.take(prefix.len() as int)[i as int] != prefix@[i as int]);
            return false;
        }
        i = i + 1;
    }
    assert(s@.take(prefix.len() as int) =~= prefix@);
    true
}

/// The stage an answer to the version probe reveals.
#[derive(Clone, Copy, PartialEq, Eq, Structural, Debug)]
pub enum DetectedStage {
    /// The BootROM answered `OKAY`.
    BromFastboot,
    /// The flash server answered `FLASH_SERVER`.
    FlashServer,
}

/// `FLASH_SERVER...` is the flash server, `OKAY...` the BootROM; anything else is no
/// answer yet (the tool retries).
pub open spec fn spec_classify(resp: Seq<u8>) -> Option<DetectedStage> {
    if has_prefix(resp, spec_flash_server_reply()) {
        Some(DetectedStage::FlashServer)
    } else if has_prefix(resp, spec_okay()) {
        Some(DetectedStage::BromFastboot)
    } else {
        None
    }
}

/// Classify an answer to the version probe.
pub fn classify_version_reply(resp: &[u8]) -> (r: Option<DetectedStage>)
    ensures
        r == spec_classify(resp@),
{
    let server = flash_server_reply();
    if starts_with(resp, server.as_slice()) {
        return Some(DetectedStage::FlashServer);
    }
    let okay: [u8; 4] = [0x4F, 0x4B, 0x41, 0x59];
    assert(okay@ =~= spec_okay());
    if starts_with(resp, &okay) {
        Some(DetectedStage::BromFastboot)
    } else {
        None
    }
}

/// Whether a BootROM answer accepts a download (`DATA...`).
pub fn download_accepted(resp: &[u8]) -> (r: bool)
    ensures
        r == has_prefix(resp@, spec_data()),
{
    let data: [u8; 4] = [0x44, 0x41, 0x54, 0x41];
    assert(data@ =~= spec_data());
    starts_with(resp, &data)
}

/// Whether a BootROM answer reports success (`OKAY...`).
pub fn brom_okay(resp: &[u8]) -> (r: bool)
    ensures
        r == has_prefix(resp@, spec_okay()),
{
    let okay: [u8; 4] = [0x4F, 0x4B, 0x41, 0x59];
    assert(okay@ =~= spec_okay());
    starts_with(resp, &okay)
}

/// The ASCII upper-case hex digit of `d < 16`.
pub open spec fn hex_digit(d: int) -> u8 {
    if d < 10 { (0x30 + d) as u8 } else { (0x41 + d - 10) as u8 }
}

/// The hex digits of `n`, least significant first, without leading zeros (one digit for 0).
pub open spec fn hex_lsd(n: nat) -> Seq<u8>
    decreases n,
{
    if n < 16 { seq![hex_digit(n as int)] } else { seq![hex_digit((n % 16) as int)] + hex_lsd(n / 16) }
}

/// `{:08X}`: the hex digits of `n`, most significant first, zero-padded to at least 8.
pub open spec fn hex08(n: nat) -> Seq<u8> {
    let d = hex_lsd(n);
    let padded = if d.len() < 8 { d + Seq::new((8 - d.len()) as nat, |i: int| 0x30u8) } else { d };
    padded.reverse()
}

/// `download:` followed by the image size as at least 8 upper-case hex digits.
pub open spec fn spec_download_command(size: nat) -> Seq<u8> {
    seq![0x64u8, 0x6F, 0x77, 0x6E, 0x6C, 0x6F, 0x61, 0x64, 0x3A] + hex08(size)
}

/// The BootROM command that announces a download of `size` bytes.
pub fn download_command(size: usize) -> (v: Vec<u8>)
    ensures
        v@ == spec_download_command(size as nat),
{
    let mut rev: Vec<u8> = Vec::new();
    let mut x: usize = size;
    loop
        invariant_except_break
            rev@ + hex_lsd(x as nat) == hex_lsd(size as nat),
        ensures
            rev@ == hex_lsd(size as nat),
        decreases x,
    {
        let d = x % 16;
        let c: u8 = if d < 10 { 0x30 + d as u8 } else { 0x41 + (d - 10) as u8 };
        assert(c == hex_digit(d as int));
        let ghost before = rev@;
        rev.push(c);
        if x < 16 {
            assert(hex_lsd(x as nat) =~= seq![hex_digit(x as int)]);
            assert(rev@ =~= before + hex_lsd(x as nat));
            break;
        }
        assert(hex_lsd(x as nat) =~= seq![hex_digit((x % 16) as int)] + hex_lsd((x / 16) as nat));
        x = x / 16;
        assert(rev@ + hex_lsd(x as nat) =~= hex_lsd(size as nat));
    }
    let ghost digits = rev@;
    if rev.len() < 8 {
        let target: usize = 8;
        let start = rev.len();
        while rev.len() < target
            invariant
                start < 8,
                target == 8,
                start <= rev@.len() <= 8,
                rev@ == digits + Seq::new((rev@.len() - start) as nat, |i: int| 0x30u8),
                digits.len() == start,
            decreases 8 - rev.len(),
        {
            rev.push(0x30);
            assert(rev@ =~= digits + Seq::new((rev@.len() - start) as nat, |i: int| 0x30u8));
        }
    }
    let ghost padded = rev@;
    assert(padded == (if digits.len() < 8 { digits + Seq::new((8 - digits.len()) as nat, |i: int| 0x30u8) } else { digits }));
    let mut v: Vec<u8> = vec![0x64u8, 0x6F, 0x77, 0x6E, 0x6C, 0x6F, 0x61, 0x64, 0x3A];
    let ghost head = v@;
    let mut k: usize = rev.len();
    while k > 0
        invariant
            k <= rev@.len(),
            rev@ == padded,
            v@ == head + padded.reverse().take((padded.len() - k) as int),
        decreases k,
    {
        k = k - 1;
        v.push(rev[k]);
        assert(v@ =~= head + padded.reverse().take((padded.len() - k) as int));
    }
    assert(padded.reverse().take(padded.len() as int) =~= padded.reverse());
    assert(v@ =~= spec_download_command(size as nat));
    v
}

/// The packet the host sends before a frame: 512 bytes, the frame length (modulo 2^32)
/// little-endian in the first four, zero elsewhere.
pub open spec fn spec_frame_prefix(len: usize) -> Seq<u8> {
    let n = len as u32;
    seq![(n % 256) as u8, ((n / 256) % 256) as u8, ((n / 65536) % 256) as u8, (n / 16777216) as u8]
        + Seq::new(508, |i: int| 0u8)
}

/// The length-prefix packet for a frame of `len` bytes.
pub fn frame_prefix(len: usize) -> (v: Vec<u8>)
    ensures
        v@ == spec_frame_prefix(len),
{
    let n = len as u32;
    let mut v: Vec<u8> = Vec::new();
    v.push((n & 0xFF) as u8);
    v.push(((n >> 8u32) & 0xFF) as u8);
    v.push(((n >> 16u32) & 0xFF) as u8);
    v.push((n >> 24u32) as u8);
    assert((n & 0xFF) == n % 256 && ((n >> 8u32) & 0xFF) == (n / 256) % 256
        && ((n >> 16u32) & 0xFF) == (n / 65536) % 256 && (n >> 24u32) == n / 16777216) by (bit_vector);
    let ghost head = v@;
    let mut i: usize = 4;
    while i < PREFIX_PACKET_BYTES
        invariant
            4 <= i <= PREFIX_PACKET_BYTES,
            v@ == head + Seq::new((i - 4) as nat, |k: int| 0u8),
        decreases PREFIX_PACKET_BYTES - i,
    {
        v.push(0);
        i = i + 1;
        assert(v@ =~= head + Seq::new((i - 4) as nat, |k: int| 0u8));
    }
    assert(v@ =~= spec_frame_prefix(len));
    v
}

} // verus!
