//! The flashing protocol shared by the host tool and the on-board server: request and
//! error types, the payload limit and the checks each endpoint applies to its request.
use vstd::prelude::*;
use crate::nor::{ahb_range_ok, read_window};

verus! {

/// Largest NOR or NVMe payload per request (1 MiB).
pub const CHUNK_BYTES: usize = 1048576;

/// Protocol version answered to `ping` (`0x0001_0000`).
pub const VERSION: u32 = 0x0001_0000;

/// Logical block size of NVMe transfers.
pub const NVME_LBA_BYTES: usize = 512;

/// Server-side failure.
#[derive(Debug, Clone, Copy, PartialEq, Eq)]
pub enum FlashServerError {
    /// Offset, length or alignment is invalid.
    Args,
    /// The controller timed out or reported a fault.
    Hardware,
}

/// A NOR byte range.
#[derive(Clone, Copy)]
pub struct NorRange {
    /// Byte offset into the QSPI AHB window.
    pub offset: u32,
    /// Length in bytes.
    pub len: u32,
}

/// A NOR write request.
pub struct NorChunk<'a> {
    /// Byte offset into the QSPI AHB window.
    pub offset: u32,
    /// Bytes to program.
    pub data: &'a [u8],
}

/// An NVMe read request.
#[derive(Clone, Copy)]
pub struct NvmeRange {
    /// Starting logical block address.
    pub lba: u64,
    /// Length in bytes (a multiple of 512).
    pub len: u32,
}

/// An NVMe write request.
pub struct NvmeChunk<'a> {
    /// Starting logical block address.
    pub lba: u64,
    /// Bytes to write (a multiple of 512).
    pub data: &'a [u8],
}

/// `ping`: the protocol version.
pub fn ping() -> (v: u32)
    ensures
        v == VERSION,
{
    VERSION
}

/// `nor/read`: the AHB address and length to copy, when `1 <= len <= CHUNK_BYTES` and the
/// range lies in the NOR window; else `Args`.
pub fn nor_read(req: NorRange) -> (r: Result<(u32, usize), FlashServerError>)
    ensures
        match r {
            Ok((addr, len)) => 1 <= req.len <= CHUNK_BYTES && ahb_range_ok(req.offset, req.len as int)
                && addr == 0xB800_0000 + req.offset && len == req.len,
            Err(e) => e == FlashServerError::Args && !(1 <= req.len <= CHUNK_BYTES && ahb_range_ok(
                req.offset,
                req.len as int,
            )),
        },
{
    let len = req.len as usize;
    if len == 0 || len > CHUNK_BYTES {
        return Err(FlashServerError::Args);
    }
    match read_window(req.offset, len) {
        Ok(addr) => Ok((addr, len)),
        Err(e) => Err(e),
    }
}

/// `nvme/write`: accepted when the payload is a non-empty multiple of 512 bytes.
pub fn nvme_write(req: &NvmeChunk) -> (r: Result<(), FlashServerError>)
    ensures
        r is Ok <==> (req.data@.len() > 0 && req.data@.len() % 512 == 0),
        r matches Err(e) ==> e == FlashServerError::Args,
{
    if req.data.len() == 0 || req.data.len() % NVME_LBA_BYTES != 0 {
        return Err(FlashServerError::Args);
    }
    Ok(())
}

/// `nvme/read`: the length to read, when it is a non-empty multiple of 512 of at most
/// `CHUNK_BYTES`; else `Args`.
pub fn nvme_read(req: NvmeRange) -> (r: Result<usize, FlashServerError>)
    ensures
        match r {
            Ok(len) => len == req.len && 0 < req.len <= CHUNK_BYTES && req.len % 512 == 0,
            Err(e) => e == FlashServerError::Args && !(0 < req.len <= CHUNK_BYTES && req.len % 512 == 0),
        },
{
    let len = req.len as usize;
    if len == 0 || len > CHUNK_BYTES || len % NVME_LBA_BYTES != 0 {
        return Err(FlashServerError::Args);
    }
    Ok(len)
}

} // verus!
