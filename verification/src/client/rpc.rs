//! Cutting NOR and NVMe transfers into protocol requests of at most 1 MiB.
use vstd::prelude::*;
use vstd::slice::slice_subrange;
use crate::protocol::{NorChunk, NorRange, NvmeChunk, NvmeRange, CHUNK_BYTES};

verus! {

/// LBAs per 1 MiB chunk.
pub const CHUNK_LBA_COUNT: u64 = 2048;

/// Number of chunks of at most `CHUNK_BYTES` that `len` bytes take.
pub open spec fn chunk_count(len: int) -> int {
    (len + CHUNK_BYTES - 1) / (CHUNK_BYTES as int)
}

/// Length of chunk `i` of a `len`-byte transfer: a full chunk, or what is left.
pub open spec fn chunk_len(len: int, i: int) -> int {
    if len - i * CHUNK_BYTES < CHUNK_BYTES { len - i * CHUNK_BYTES } else { CHUNK_BYTES as int }
}

/// The NOR read requests for `len` bytes at `offset`: chunk `i` reads `chunk_len(len, i)`
/// bytes at `offset + i * CHUNK_BYTES`.
pub fn nor_read_requests(offset: u32, len: u32) -> (v: Vec<NorRange>)
    requires
        len == 0 || offset + CHUNK_BYTES * (chunk_count(len as int) - 1) <= u32::MAX,
    ensures
        v@.len() == chunk_count(len as int),
        forall|i: int| 0 <= i < v@.len() ==> {
            &&& (#[trigger] v@[i]).offset == offset + i * CHUNK_BYTES
            &&& v@[i].len == chunk_len(len as int, i)
        },
{
    let full = len / (CHUNK_BYTES as u32);
    let tail = len % (CHUNK_BYTES as u32);
    let mut v: Vec<NorRange> = Vec::new();
    let mut index: u32 = 0;
    while index < full
        invariant
            full == len as int / (CHUNK_BYTES as int),
            index <= full,
            len == 0 || offset + CHUNK_BYTES * (chunk_count(len as int) - 1) <= u32::MAX,
            v@.len() == index,
            forall|i: int| 0 <= i < v@.len() ==> {
                &&& (#[trigger] v@[i]).offset == offset + i * CHUNK_BYTES
                &&& v@[i].len == chunk_len(len as int, i)
            },
        decreases full - index,
    {
        assert(index * CHUNK_BYTES + CHUNK_BYTES <= len) by (nonlinear_arith)
            requires
                index < full,
                full == len as int / (CHUNK_BYTES as int),
        ;
        assert(index * CHUNK_BYTES <= CHUNK_BYTES * (chunk_count(len as int) - 1)) by (nonlinear_arith)
            requires
                index * CHUNK_BYTES + CHUNK_BYTES <= len,
        ;
        v.push(NorRange { offset: offset + index * (CHUNK_BYTES as u32), len: CHUNK_BYTES as u32 });
        index = index + 1;
    }
    if tail > 0 {
        assert(full * CHUNK_BYTES + tail == len) by (nonlinear_arith)
            requires
                full == len as int / (CHUNK_BYTES as int),
                tail == len as int % (CHUNK_BYTES as int),
        ;
        assert(full == chunk_count(len as int) - 1) by (nonlinear_arith)
            requires
                full == len as int / (CHUNK_BYTES as int),
                tail == len as int % (CHUNK_BYTES as int),
                tail > 0,
        ;
        v.push(NorRange { offset: offset + full * (CHUNK_BYTES as u32), len: tail });
    }
    assert(v@.len() == chunk_count(len as int)) by (nonlinear_arith)
        requires
            full == len as int / (CHUNK_BYTES as int),
            tail == len as int % (CHUNK_BYTES as int),
            v@.len() == full + if tail > 0 { 1int } else { 0int },
    ;
    v
}

/// `n` rounded up to whole 512-byte blocks.
pub open spec fn whole_blocks(n: int) -> int {
    (n + 511) / 512 * 512
}

/// The NVMe read requests for `len` bytes at `lba`: chunk `i` reads `chunk_len(len, i)`
/// bytes rounded up to whole 512-byte blocks, at LBA `lba + 2048 i`; the bytes past `len`
/// are dropped from what is read.
pub fn nvme_read_requests(lba: u64, len: u64) -> (v: Vec<NvmeRange>)
    requires
        len == 0 || lba + CHUNK_LBA_COUNT * (chunk_count(len as int) - 1) <= u64::MAX,
    ensures
        v@.len() == chunk_count(len as int),
        forall|i: int| 0 <= i < v@.len() ==> {
            &&& (#[trigger] v@[i]).lba == lba + i * CHUNK_LBA_COUNT
            &&& v@[i].len == whole_blocks(chunk_len(len as int, i))
        },
{
    let full = len / (CHUNK_BYTES as u64);
    let tail = len % (CHUNK_BYTES as u64);
    assert(chunk_count(len as int) == full + if tail > 0 { 1int } else { 0int }) by (nonlinear_arith)
        requires
            full == len as int / (CHUNK_BYTES as int),
            tail == len as int % (CHUNK_BYTES as int),
    ;
    let mut v: Vec<NvmeRange> = Vec::new();
    let mut index: u64 = 0;
    while index < full
        invariant
            full == len as int / (CHUNK_BYTES as int),
            index <= full,
            len == 0 || lba + CHUNK_LBA_COUNT * (chunk_count(len as int) - 1) <= u64::MAX,
            chunk_count(len as int) == full + if tail > 0 { 1int } else { 0int },
            v@.len() == index,
            forall|i: int| 0 <= i < v@.len() ==> {
                &&& (#[trigger] v@[i]).lba == lba + i * CHUNK_LBA_COUNT
                &&& v@[i].len == whole_blocks(chunk_len(len as int, i))
            },
        decreases full - index,
    {
        assert(index * CHUNK_BYTES + CHUNK_BYTES <= len) by (nonlinear_arith)
            requires
                index < full,
                full == len as int / (CHUNK_BYTES as int),
        ;
        assert(index * CHUNK_LBA_COUNT <= CHUNK_LBA_COUNT * (chunk_count(len as int) - 1)) by (nonlinear_arith)
            requires
                index < full,
                chunk_count(len as int) >= full,
        ;
        assert(whole_blocks(CHUNK_BYTES as int) == CHUNK_BYTES);
        v.push(NvmeRange { lba: lba + index * CHUNK_LBA_COUNT, len: CHUNK_BYTES as u32 });
        index = index + 1;
    }
    if tail > 0 {
        assert(full * CHUNK_BYTES + tail == len) by (nonlinear_arith)
            requires
                full == len as int / (CHUNK_BYTES as int),
                tail == len as int % (CHUNK_BYTES as int),
        ;
        assert(full * CHUNK_LBA_COUNT <= CHUNK_LBA_COUNT * (chunk_count(len as int) - 1)) by (nonlinear_arith)
            requires
                chunk_count(len as int) == full + 1,
        ;
        let blocks = (tail + 511) / 512 * 512;
        assert(blocks <= CHUNK_BYTES) by (nonlinear_arith)
            requires
                blocks == (tail + 511) / 512 * 512,
                tail < CHUNK_BYTES,
        ;
        v.push(NvmeRange { lba: lba + full * CHUNK_LBA_COUNT, len: blocks as u32 });
    }
    v
}

/// The read requests of a transfer tile it: each is non-empty and at most `CHUNK_BYTES`
/// long, each starts where the one before ended, the first starts at the transfer's start
/// and the last ends at its end.
pub proof fn read_chunks_tile(len: int, i: int)
    requires
        len > 0,
        0 <= i < chunk_count(len),
    ensures
        1 <= chunk_len(len, i) <= CHUNK_BYTES,
        i + 1 < chunk_count(len) ==> i * CHUNK_BYTES + chunk_len(len, i) == (i + 1) * CHUNK_BYTES,
        i + 1 == chunk_count(len) ==> i * CHUNK_BYTES + chunk_len(len, i) == len,
{
    assert(i * CHUNK_BYTES < len) by (nonlinear_arith)
        requires
            0 <= i < (len + CHUNK_BYTES - 1) / (CHUNK_BYTES as int),
            len > 0,
    ;
    if i + 1 == chunk_count(len) {
        assert(len - i * CHUNK_BYTES <= CHUNK_BYTES) by (nonlinear_arith)
            requires
                i + 1 == (len + CHUNK_BYTES - 1) / (CHUNK_BYTES as int),
                len > 0,
        ;
    } else {
        assert(len - i * CHUNK_BYTES >= CHUNK_BYTES) by (nonlinear_arith)
            requires
                i + 1 < (len + CHUNK_BYTES - 1) / (CHUNK_BYTES as int),
                i >= 0,
        ;
    }
}

/// The NOR write requests for `data` at `offset`: chunk `i` is
/// `data[i * CHUNK_BYTES ..][.. chunk_len]` at `offset + i * CHUNK_BYTES`.
pub fn nor_write_chunks<'a>(offset: u32, data: &'a [u8]) -> (v: Vec<NorChunk<'a>>)
    requires
        offset + data.len() <= u32::MAX + 1,
    ensures
        v@.len() == chunk_count(data.len() as int),
        forall|i: int| 0 <= i < v@.len() ==> {
            &&& (#[trigger] v@[i]).offset == offset + i * CHUNK_BYTES
            &&& v@[i].data@ == data@.subrange(i * CHUNK_BYTES, i * CHUNK_BYTES + chunk_len(data.len() as int, i))
        },
{
    let mut v: Vec<NorChunk<'a>> = Vec::new();
    let mut start: usize = 0;
    let ghost mut i: int = 0;
    while start < data.len()
        invariant
            offset + data.len() <= u32::MAX + 1,
            start == i * CHUNK_BYTES,
            0 <= i,
            start <= data.len(),
            v@.len() == i,
            forall|k: int| 0 <= k < v@.len() ==> {
                &&& (#[trigger] v@[k]).offset == offset + k * CHUNK_BYTES
                &&& v@[k].data@ == data@.subrange(k * CHUNK_BYTES, k * CHUNK_BYTES + chunk_len(data.len() as int, k))
            },
        decreases data.len() - start,
    {
        let left = data.len() - start;
        if left <= CHUNK_BYTES {
            let chunk = slice_subrange(data, start, data.len());
            v.push(NorChunk { offset: offset + start as u32, data: chunk });
            proof {
                i = i + 1;
            }
            assert(v@.len() == chunk_count(data.len() as int)) by (nonlinear_arith)
                requires
                    (i - 1) * CHUNK_BYTES < data.len() <= i * CHUNK_BYTES,
                    v@.len() == i,
            ;
            return v;
        }
        let chunk = slice_subrange(data, start, start + CHUNK_BYTES);
        v.push(NorChunk { offset: offset + start as u32, data: chunk });
        proof {
            i = i + 1;
        }
        start = start + CHUNK_BYTES;
    }
    assert(v@.len() == chunk_count(data.len() as int)) by (nonlinear_arith)
        requires
            data.len() == i * CHUNK_BYTES,
            v@.len() == i,
    ;
    v
}

/// The NVMe payload for `data`: `data` followed by `0xFF` up to the next multiple of 512.
pub open spec fn spec_padded(data: Seq<u8>) -> Seq<u8> {
    data + Seq::new(((512 - data.len() % 512) % 512) as nat, |i: int| 0xFFu8)
}

proof fn lemma_pad_len(n: int)
    requires
        n >= 0,
    ensures
        0 <= (512 - n % 512) % 512 < 512,
        (n + (512 - n % 512) % 512) % 512 == 0,
{
    assert((n + (512 - n % 512) % 512) % 512 == 0) by (nonlinear_arith)
        requires n >= 0;
}

/// Pad `data` with `0xFF` to a multiple of 512 bytes.
pub fn nvme_pad(data: &[u8]) -> (v: Vec<u8>)
    requires
        data.len() + 512 <= usize::MAX,
    ensures
        v@ == spec_padded(data@),
        v@.len() % 512 == 0,
        v@.len() - data@.len() < 512,
{
    let mut v: Vec<u8> = Vec::new();
    let mut i: usize = 0;
    while i < data.len()
        invariant
            i <= data.len(),
            v@ == data@.take(i as int),
        decreases data.len() - i,
    {
        v.push(data[i]);
        i = i + 1;
        assert(v@ =~= data@.take(i as int));
    }
    let pad = (512 - data.len() % 512) % 512;
    proof {
        lemma_pad_len(data.len() as int);
    }
    let mut k: usize = 0;
    while k < pad
        invariant
            k <= pad,
            pad == (512 - data.len() % 512) % 512,
            v@ == data@ + Seq::new(k as nat, |j: int| 0xFFu8),
        decreases pad - k,
    {
        v.push(0xFF);
        k = k + 1;
        assert(v@ =~= data@ + Seq::new(k as nat, |j: int| 0xFFu8));
    }
    assert(v@ =~= spec_padded(data@));
    proof {
        lemma_pad_len(data.len() as int);
    }
    v
}

/// The NVMe write requests for an already padded payload: chunk `i` is the `i`-th 1 MiB
/// slice at LBA `lba + 2048 i`.
pub fn nvme_write_chunks<'a>(lba: u64, data: &'a [u8]) -> (v: Vec<NvmeChunk<'a>>)
    requires
        data.len() == 0 || lba + CHUNK_LBA_COUNT * (chunk_count(data.len() as int) - 1) <= u64::MAX,
    ensures
        v@.len() == chunk_count(data.len() as int),
        forall|i: int| 0 <= i < v@.len() ==> {
            &&& (#[trigger] v@[i]).lba == lba + i * CHUNK_LBA_COUNT
            &&& v@[i].data@ == data@.subrange(i * CHUNK_BYTES, i * CHUNK_BYTES + chunk_len(data.len() as int, i))
        },
{
    let mut v: Vec<NvmeChunk<'a>> = Vec::new();
    let mut start: usize = 0;
    let mut cur: u64 = lba;
    let ghost mut i: int = 0;
    while start < data.len()
        invariant
            data.len() == 0 || lba + CHUNK_LBA_COUNT * (chunk_count(data.len() as int) - 1) <= u64::MAX,
            start == i * CHUNK_BYTES,
            cur == lba + i * CHUNK_LBA_COUNT,
            0 <= i,
            start <= data.len(),
            v@.len() == i,
            forall|k: int| 0 <= k < v@.len() ==> {
                &&& (#[trigger] v@[k]).lba == lba + k * CHUNK_LBA_COUNT
                &&& v@[k].data@ == data@.subrange(k * CHUNK_BYTES, k * CHUNK_BYTES + chunk_len(data.len() as int, k))
            },
        decreases data.len() - start,
    {
        let left = data.len() - start;
        if left <= CHUNK_BYTES {
            let chunk = slice_subrange(data, start, data.len());
            v.push(NvmeChunk { lba: cur, data: chunk });
            proof {
                i = i + 1;
            }
            assert(v@.len() == chunk_count(data.len() as int)) by (nonlinear_arith)
                requires
                    (i - 1) * CHUNK_BYTES < data.len() <= i * CHUNK_BYTES,
                    v@.len() == i,
            ;
            return v;
        }
        let chunk = slice_subrange(data, start, start + CHUNK_BYTES);
        v.push(NvmeChunk { lba: cur, data: chunk });
        proof {
            i = i + 1;
        }
        assert(lba + i * CHUNK_LBA_COUNT <= lba + CHUNK_LBA_COUNT * (chunk_count(data.len() as int) - 1)) by (nonlinear_arith)
            requires
                i * CHUNK_BYTES < data.len(),
                i >= 1,
        ;
        start = start + CHUNK_BYTES;
        cur = cur + CHUNK_LBA_COUNT;
    }
    assert(v@.len() == chunk_count(data.len() as int)) by (nonlinear_arith)
        requires
            data.len() == i * CHUNK_BYTES,
            v@.len() == i,
    ;
    v
}

/// Why a NOR file write is refused before anything is sent.
#[derive(Debug, Clone, Copy, PartialEq, Eq, Structural)]
pub enum NorWriteFileError {
    /// `offset + file size` does not fit in 32 bits.
    OffsetOverflow,
}

/// The 4 KiB-aligned erase window of a file of `file_len` bytes written at `offset`: from
/// `offset` rounded down to the end rounded up; no window for an empty file, and
/// `OffsetOverflow` when the end does not fit in 32 bits.
pub open spec fn spec_erase_window(offset: u32, file_len: usize) -> Result<Option<NorRange>, NorWriteFileError> {
    let size = (file_len as u32);
    if file_len == 0 {
        Ok(None)
    } else if offset + size > u32::MAX {
        Err(NorWriteFileError::OffsetOverflow)
    } else {
        let start = (offset / 4096) * 4096;
        let end = ((offset + size + 4095) / 4096) * 4096;
        Ok(Some(NorRange { offset: start as u32, len: (end - start) as u32 }))
    }
}

/// The erase that precedes a NOR file write. The file size is taken modulo 2^32, as the
/// tool sends it in a 32-bit field.
pub fn nor_erase_window(offset: u32, file_len: usize) -> (r: Result<Option<NorRange>, NorWriteFileError>)
    requires
        file_len == 0 || offset + (file_len as u32) > u32::MAX
            || offset + (file_len as u32) + 0xFFF <= u32::MAX,
    ensures
        r == spec_erase_window(offset, file_len),
{
    if file_len == 0 {
        return Ok(None);
    }
    let file_size = file_len as u32;
    let end = match offset.checked_add(file_size) {
        Some(e) => e,
        None => return Err(NorWriteFileError::OffsetOverflow),
    };
    let erase_off = offset & !0xFFFu32;
    let bumped = end + 0xFFF;
    let erase_end = bumped & !0xFFFu32;
    assert((offset & !0xFFFu32) == (offset / 4096) * 4096) by (bit_vector);
    assert((bumped & !0xFFFu32) == (bumped / 4096) * 4096) by (bit_vector);
    assert(erase_off <= erase_end) by (nonlinear_arith)
        requires
            erase_off == (offset / 4096) * 4096,
            erase_end == ((end + 4095) / 4096) * 4096,
            offset <= end,
    ;
    Ok(Some(NorRange { offset: erase_off, len: erase_end - erase_off }))
}

/// The erase window of a file is 4 KiB aligned, covers every byte the file is written to,
/// and reaches less than 4 KiB beyond them on either side.
pub proof fn erase_window_covers_file(offset: u32, file_len: usize)
    requires
        file_len > 0,
        offset + (file_len as u32) + 0xFFF <= u32::MAX,
    ensures
        spec_erase_window(offset, file_len) matches Ok(Some(w)) && {
            let end = offset + (file_len as u32);
            &&& w.offset % 4096 == 0
            &&& w.len % 4096 == 0
            &&& w.offset <= offset
            &&& offset < w.offset + 4096
            &&& end <= w.offset + w.len
            &&& w.offset + w.len < end + 4096
        },
{
    let size = (file_len as u32);
    let end = offset + size;
    let start = (offset / 4096) * 4096;
    let stop = ((end + 4095) / 4096) * 4096;
    assert(start % 4096 == 0 && start <= offset && offset < start + 4096) by (nonlinear_arith)
        requires start == (offset / 4096) * 4096, offset >= 0;
    assert(stop % 4096 == 0 && end <= stop && stop < end + 4096) by (nonlinear_arith)
        requires stop == ((end + 4095) / 4096) * 4096, end >= 0;
    assert((stop - start) % 4096 == 0) by (nonlinear_arith)
        requires start % 4096 == 0, stop % 4096 == 0, start <= stop;
}

/// Every NVMe write request cut from a padded payload carries a non-empty multiple of
/// 512 bytes, so the server's length check accepts it.
pub proof fn padded_chunks_are_whole_blocks(len: int, i: int)
    requires
        len > 0,
        len % 512 == 0,
        0 <= i < chunk_count(len),
    ensures
        chunk_len(len, i) > 0,
        chunk_len(len, i) % 512 == 0,
{
    read_chunks_tile(len, i);
    assert((len - i * CHUNK_BYTES) % 512 == 0) by (nonlinear_arith)
        requires len % 512 == 0;
}

} // verus!
