//! QSPI NOR behind the FlexSPI-style controller: argument checks, the page-program and
//! sector-erase plans, the LUT encoding of commands and the TX/RX FIFO word packing.
use vstd::prelude::*;
use crate::protocol::FlashServerError;
use crate::mmio::{MMIO, Raw, RegOp, write_ops};
use crate::soc::SocStep;

verus! {

/// Base of the AHB window that maps the NOR.
pub const QSPI_AHB_BASE: u32 = 0xB800_0000;
/// Size of the AHB window (13 MiB).
pub const QSPI_AHB_SIZE: usize = 0x00D0_0000;
/// LUT sequence used for AHB reads.
pub const SEQID_AHB: u32 = 0;
/// LUT sequence used for IP commands.
pub const SEQID_IP: u32 = 1;
/// LUT instruction: stop.
pub const INSTR_STOP: u32 = 0;
/// LUT instruction: command byte.
pub const INSTR_CMD: u32 = 1;
/// LUT instruction: address (operand = bits).
pub const INSTR_ADDR: u32 = 2;
/// LUT instruction: dummy cycles.
pub const INSTR_DUMMY: u32 = 3;
/// LUT instruction: read data.
pub const INSTR_READ: u32 = 7;
/// LUT instruction: write data.
pub const INSTR_WRITE: u32 = 8;
/// Read Status Register.
pub const OP_RDSR: u8 = 0x05;
/// Write Enable.
pub const OP_WREN: u8 = 0x06;
/// Page Program.
pub const OP_PP: u8 = 0x02;
/// 4 KiB Sector Erase.
pub const OP_SE: u8 = 0x20;
/// Program page size.
pub const PAGE: u32 = 256;
/// Erase sector size.
pub const SECTOR: u32 = 4096;
/// The TX FIFO pops at least this many bytes.
pub const TX_POP_MIN: usize = 16;

/// `[offset, offset + len)` is a non-empty range inside the AHB window.
pub open spec fn ahb_range_ok(offset: u32, len: int) -> bool {
    len > 0 && offset + len <= QSPI_AHB_SIZE
}

/// Check a read of `len` bytes at `offset` and give the AHB address to copy from.
pub fn read_window(offset: u32, len: usize) -> (r: Result<u32, FlashServerError>)
    ensures
        match r {
            Ok(addr) => ahb_range_ok(offset, len as int) && addr == QSPI_AHB_BASE + offset,
            Err(e) => e == FlashServerError::Args && !ahb_range_ok(offset, len as int),
        },
{
    if len == 0 {
        return Err(FlashServerError::Args);
    }
    if len > QSPI_AHB_SIZE || offset as usize > QSPI_AHB_SIZE - len {
        return Err(FlashServerError::Args);
    }
    Ok(QSPI_AHB_BASE + offset)
}

// ---- page program ----

/// The page programs for `len` bytes from NOR address `cur`: each covers up to the end of
/// its 256-byte page.
pub open spec fn spec_page_plan(cur: nat, len: nat) -> Seq<(nat, nat)>
    decreases len,
{
    if len == 0 {
        Seq::empty()
    } else {
        let room = (256 - cur % 256) as nat;
        let c = if room < len { room } else { len };
        seq![(cur, c)] + spec_page_plan(cur + c, (len - c) as nat)
    }
}

/// One page program: its NOR address and the bytes written there.
pub struct PageProgram {
    /// NOR address of the first byte.
    pub addr: u32,
    /// Bytes to program, all within one 256-byte page.
    pub data: Vec<u8>,
}

/// Program `src` at `offset`: one page program per `spec_page_plan` entry, each preceded by
/// Write Enable and followed by the wait for the flash, then the AHB read cache invalidated;
/// or `Args`, with nothing appended, when the range is empty or leaves the window.
pub fn write(plan: &mut Vec<RegOp>, offset: u32, src: &[u8]) -> (r: Result<Vec<PageProgram>, FlashServerError>)
    ensures
        match r {
            Ok(progs) => final(plan)@ == old(plan)@ + spec_pages_ops(progs@) + spec_ahb_invalidate_ops(),
            Err(_) => final(plan)@ == old(plan)@,
        },
        match r {
            Ok(progs) => ahb_range_ok(offset, src@.len() as int) && progs@.len() == spec_page_plan(
                offset as nat,
                src@.len(),
            ).len() && forall|i: int| 0 <= i < progs@.len() ==> {
                let (a, c) = #[trigger] spec_page_plan(offset as nat, src@.len())[i];
                &&& progs@[i].addr == a
                &&& progs@[i].data@ == src@.subrange(a - offset, a - offset + c)
            },
            Err(e) => e == FlashServerError::Args && !ahb_range_ok(offset, src@.len() as int),
        },
{
    if src.len() == 0 {
        return Err(FlashServerError::Args);
    }
    if src.len() > QSPI_AHB_SIZE || offset as usize > QSPI_AHB_SIZE - src.len() {
        return Err(FlashServerError::Args);
    }
    let ghost whole = spec_page_plan(offset as nat, src@.len());
    let ghost head = plan@;
    let mut progs: Vec<PageProgram> = Vec::new();
    let mut cur: u32 = offset;
    let mut pos: usize = 0;
    while pos < src.len()
        invariant
            ahb_range_ok(offset, src@.len() as int),
            plan@ == head + spec_pages_ops(progs@),
            pos <= src@.len(),
            cur == offset + pos,
            whole == spec_page_plan(offset as nat, src@.len()),
            progs@.len() + spec_page_plan(cur as nat, (src@.len() - pos) as nat).len() == whole.len(),
            forall|k: int| 0 <= k < spec_page_plan(cur as nat, (src@.len() - pos) as nat).len() ==>
                #[trigger] spec_page_plan(cur as nat, (src@.len() - pos) as nat)[k] == whole[progs@.len() + k],
            forall|i: int| 0 <= i < progs@.len() ==> {
                let (a, c) = #[trigger] whole[i];
                &&& progs@[i].addr == a
                &&& progs@[i].data@ == src@.subrange(a - offset, a - offset + c)
            },
        decreases src@.len() - pos,
    {
        let ghost rest = spec_page_plan(cur as nat, (src@.len() - pos) as nat);
        let page_end = (cur / PAGE + 1) * PAGE;
        let room = (page_end - cur) as usize;
        let left = src.len() - pos;
        let chunk = if room < left { room } else { left };
        assert(room == 256 - cur % 256);
        let mut data: Vec<u8> = Vec::new();
        let mut k: usize = 0;
        while k < chunk
            invariant
                k <= chunk,
                pos + chunk <= src.len(),
                data@ == src@.subrange(pos as int, pos + k),
            decreases chunk - k,
        {
            data.push(src[pos + k]);
            k += 1;
            assert(data@ =~= src@.subrange(pos as int, pos + k));
        }
        let ghost tail = spec_page_plan((cur + chunk) as nat, (src@.len() - pos - chunk) as nat);
        assert(rest == seq![(cur as nat, chunk as nat)] + tail);
        assert(rest[0] == whole[progs@.len() as int]);
        write_enable(plan);
        ip_op_write(plan, OP_PP, cur, 3, data.as_slice());
        wait_ready(plan);
        let ghost before = progs@;
        progs.push(PageProgram { addr: cur, data });
        assert(progs@.drop_last() =~= before);
        assert(plan@ =~= head + spec_pages_ops(progs@));
        assert forall|k2: int| 0 <= k2 < tail.len() implies #[trigger] tail[k2] == whole[progs@.len() + k2] by {
            assert(tail[k2] == rest[k2 + 1]);
        }
        cur = cur + chunk as u32;
        pos = pos + chunk;
    }
    ahb_invalidate(plan);
    Ok(progs)
}

/// Every page program of a plan is non-empty and stays within one 256-byte page, the
/// programs follow each other without gap from `cur`, and together they cover `len` bytes.
pub proof fn page_plan_is_exact(cur: nat, len: nat)
    ensures
        ({
            let plan = spec_page_plan(cur, len);
            &&& forall|i: int| 0 <= i < plan.len() ==> (#[trigger] plan[i]).1 >= 1 && plan[i].0 % 256
                + plan[i].1 <= 256
            &&& len > 0 ==> plan[0].0 == cur
            &&& forall|i: int, j: int| 0 <= i && j == i + 1 && j < plan.len() ==> #[trigger] plan[j].0 == (
            #[trigger] plan[i]).0 + plan[i].1
            &&& len > 0 ==> plan.last().0 + plan.last().1 == cur + len
            &&& len == 0 ==> plan.len() == 0
        }),
    decreases len,
{
    if len > 0 {
        let room = (256 - cur % 256) as nat;
        let c = if room < len { room } else { len };
        page_plan_is_exact(cur + c, (len - c) as nat);
        let plan = spec_page_plan(cur, len);
        let tail = spec_page_plan(cur + c, (len - c) as nat);
        assert forall|i: int, j: int| 0 <= i && j == i + 1 && j < plan.len() implies #[trigger] plan[j].0 == (
        #[trigger] plan[i]).0 + plan[i].1 by {
            assert(plan.len() == tail.len() + 1);
            if i == 0 {
                assert(plan[1] == tail[0]);
                assert(tail.len() > 0);
                assert((len - c) as nat != 0);
                assert(tail[0].0 == cur + c);
                assert(plan[0] == (cur, c));
            } else {
                assert(plan[i] == tail[i - 1]);
                assert(plan[j] == tail[j - 1]);
            }
        }
        assert forall|i: int| 0 <= i < plan.len() implies (#[trigger] plan[i]).1 >= 1 && plan[i].0 % 256 + plan[i].1
            <= 256 by {
            if i > 0 {
                assert(plan[i] == tail[i - 1]);
            }
        }
    }
}

// ---- sector erase ----

/// `[offset, offset + len)` is a whole number of 4 KiB sectors inside the window.
pub open spec fn erase_ok(offset: u32, len: u32) -> bool {
    offset % 4096 == 0 && len % 4096 == 0 && len != 0 && offset + len <= QSPI_AHB_SIZE
}

/// Erase `[offset, offset + len)`: one 4 KiB Sector Erase at each returned address, in
/// order, each preceded by Write Enable and followed by the wait for the flash, then the AHB
/// read cache invalidated; or `Args`, with nothing appended, when the range is not
/// sector-aligned, is empty, or leaves the window.
pub fn erase(plan: &mut Vec<RegOp>, offset: u32, len: u32) -> (r: Result<Vec<u32>, FlashServerError>)
    ensures
        match r {
            Ok(sectors) => final(plan)@ == old(plan)@ + spec_sectors_ops(offset, sectors@.len())
                + spec_ahb_invalidate_ops(),
            Err(_) => final(plan)@ == old(plan)@,
        },
        match r {
            Ok(sectors) => erase_ok(offset, len) && sectors@.len() == len / 4096 && forall|k: int|
                0 <= k < sectors@.len() ==> #[trigger] sectors@[k] == offset + 4096 * k,
            Err(e) => e == FlashServerError::Args && !erase_ok(offset, len),
        },
{
    if offset % SECTOR != 0 || len % SECTOR != 0 || len == 0 {
        return Err(FlashServerError::Args);
    }
    if offset as u64 + len as u64 > QSPI_AHB_SIZE as u64 {
        return Err(FlashServerError::Args);
    }
    let end = offset + len;
    let mut sectors: Vec<u32> = Vec::new();
    let mut cur = offset;
    let ghost head = plan@;
    while cur < end
        invariant
            plan@ == head + spec_sectors_ops(offset, sectors@.len()),
            erase_ok(offset, len),
            end == offset + len,
            offset <= cur <= end,
            (cur - offset) % 4096 == 0,
            sectors@.len() == (cur - offset) / 4096,
            forall|k: int| 0 <= k < sectors@.len() ==> #[trigger] sectors@[k] == offset + 4096 * k,
        decreases end - cur,
    {
        write_enable(plan);
        ip_op_no_data(plan, OP_SE, cur, 3);
        wait_ready(plan);
        sectors.push(cur);
        assert(cur == offset + 4096 * (sectors@.len() - 1));
        assert(plan@ =~= head + spec_sectors_ops(offset, sectors@.len()));
        cur = cur + SECTOR;
    }
    ahb_invalidate(plan);
    Ok(sectors)
}

/// The erased sectors cover exactly the requested range: each is 4 KiB-aligned, they are
/// consecutive, and they start at `offset` and end at `offset + len`.
pub proof fn erase_plan_is_exact(offset: u32, len: u32, k: int)
    requires
        erase_ok(offset, len),
        0 <= k < len / 4096,
    ensures
        (offset + 4096 * k) % 4096 == 0,
        offset <= offset + 4096 * k,
        offset + 4096 * k + 4096 <= offset + len,
{
}

// ---- LUT encoding ----

/// One LUT instruction: opcode in bits 15..10, pad in 9..8, operand in 7..0.
pub open spec fn lut_cell(instr: u32, pad: u32, opr: u32) -> u32 {
    (instr << 10u32) | (pad << 8u32) | (opr & 0xFFu32)
}

/// Two LUT instructions packed into one LUT word, the first in the low half.
pub fn lut_pair(i0: u32, p0: u32, o0: u32, i1: u32, p1: u32, o1: u32) -> (w: u32)
    ensures
        w == ((i0 << 10u32) | (p0 << 8u32) | o0) | (((i1 << 10u32) | (p1 << 8u32) | o1) << 16u32),
{
    let lo = (i0 << 10u32) | (p0 << 8u32) | o0;
    let hi = (i1 << 10u32) | (p1 << 8u32) | o1;
    lo | (hi << 16u32)
}

/// OR the instruction into slot `idx` of a four-word LUT sequence (slot `idx` is the low
/// half of word `idx / 2` when `idx` is even, else its high half).
pub fn put_lut(lut: &mut [u32; 4], idx: usize, instr: u32, pad: u32, opr: u32)
    requires
        idx < 8,
    ensures
        final(lut)@ == old(lut)@.update(
            idx as int / 2,
            old(lut)@[idx as int / 2] | (lut_cell(instr, pad, opr) << (if idx % 2 == 0 { 0u32 } else { 16u32 })),
        ),
{
    let shift: u32 = if idx & 1 == 0 { 0 } else { 16 };
    assert((idx & 1) == idx % 2) by (bit_vector);
    let cell = ((instr << 10u32) | (pad << 8u32) | (opr & 0xFFu32)) << shift;
    lut[idx / 2] = lut[idx / 2] | cell;
}

/// The data phase of an IP command.
#[derive(Clone, Copy, PartialEq, Eq)]
pub enum DataPhase {
    /// No data.
    NoData,
    /// Read data into the RX FIFO.
    Read,
    /// Write data from the TX FIFO.
    Write,
}

/// The instructions of an IP command: command byte, the address when `addr_bytes > 0`,
/// the data phase, then stop.
pub open spec fn lut_ip_cells(opcode: u8, addr_bytes: u8, phase: DataPhase) -> Seq<u32> {
    let cmd = seq![lut_cell(INSTR_CMD, 0, opcode as u32)];
    let addr = if addr_bytes > 0 { seq![lut_cell(INSTR_ADDR, 0, (addr_bytes * 8) as u32)] } else { Seq::empty() };
    let data = match phase {
        DataPhase::NoData => Seq::empty(),
        DataPhase::Read => seq![lut_cell(INSTR_READ, 0, 0)],
        DataPhase::Write => seq![lut_cell(INSTR_WRITE, 0, 0)],
    };
    cmd + addr + data + seq![lut_cell(INSTR_STOP, 0, 0)]
}

/// Instructions packed two per word into four words, unused slots zero.
pub open spec fn lut_words(cells: Seq<u32>) -> Seq<u32> {
    Seq::new(
        4,
        |w: int| {
            let lo = if 2 * w < cells.len() { cells[2 * w] } else { 0u32 };
            let hi = if 2 * w + 1 < cells.len() { cells[2 * w + 1] } else { 0u32 };
            lo | (hi << 16u32)
        },
    )
}

proof fn lemma_or_zero(x: u32)
    ensures
        (0u32 | (x << 0u32)) == x,
        (x | (0u32 << 16u32)) == x,
{
    assert((0u32 | (x << 0u32)) == x && (x | (0u32 << 16u32)) == x) by (bit_vector);
}

fn lut_ip_words(opcode: u8, addr_bytes: u8, phase: DataPhase) -> (lut: [u32; 4])
    ensures
        lut@ == lut_words(lut_ip_cells(opcode, addr_bytes, phase)),
{
    let ghost cells = lut_ip_cells(opcode, addr_bytes, phase);
    let mut lutval = [0u32; 4];
    let mut idx: usize = 0;
    put_lut(&mut lutval, idx, INSTR_CMD, 0, opcode as u32);
    idx += 1;
    if addr_bytes > 0 {
        put_lut(&mut lutval, idx, INSTR_ADDR, 0, addr_bytes as u32 * 8);
        idx += 1;
    }
    match phase {
        DataPhase::NoData => {},
        DataPhase::Read => {
            put_lut(&mut lutval, idx, INSTR_READ, 0, 0);
            idx += 1;
        },
        DataPhase::Write => {
            put_lut(&mut lutval, idx, INSTR_WRITE, 0, 0);
            idx += 1;
        },
    }
    put_lut(&mut lutval, idx, INSTR_STOP, 0, 0);
    proof {
        assert(cells.len() == idx + 1);
        lemma_or_zero(0u32);
        lemma_or_zero(cells[0]);
        lemma_or_zero(cells[1]);
        if cells.len() > 2 {
            lemma_or_zero(cells[2]);
        }
        if cells.len() > 3 {
            lemma_or_zero(cells[3]);
        }
        let lw = lut_words(cells);
        assert(lutval@ =~= lw);
    }
    lutval
}

/// LUT unlock, LUT sequence 1 (the IP sequence) = `lut`, LUT lock.
pub open spec fn spec_ip_lut_table(lut: Seq<u32>) -> Seq<(u32, u32)> {
    seq![
        (0x300u32, 0x5AF0_5AF0u32),
        (0x304u32, 2u32),
        (0x320u32, lut[0]),
        (0x324u32, lut[1]),
        (0x328u32, lut[2]),
        (0x32Cu32, lut[3]),
        (0x300u32, 0x5AF0_5AF0u32),
        (0x304u32, 1u32),
    ]
}

/// The register writes that load the IP sequence for a command.
pub open spec fn spec_program_lut_ip_ops(opcode: u8, addr_bytes: u8, phase: DataPhase) -> Seq<RegOp> {
    write_ops(QSPI_BASE, spec_ip_lut_table(lut_words(lut_ip_cells(opcode, addr_bytes, phase))))
}

/// Unlock the LUT, write the command's four words into LUT sequence 1 (LUT words 4..8),
/// and lock it again.
pub fn program_lut_ip(plan: &mut Vec<RegOp>, opcode: u8, addr_bytes: u8, phase: DataPhase)
    ensures
        final(plan)@ == old(plan)@ + spec_program_lut_ip_ops(opcode, addr_bytes, phase),
{
    let lut = lut_ip_words(opcode, addr_bytes, phase);
    let t = [
        (0x300u32, 0x5AF0_5AF0u32),
        (0x304u32, 2u32),
        (0x320u32, lut[0]),
        (0x324u32, lut[1]),
        (0x328u32, lut[2]),
        (0x32Cu32, lut[3]),
        (0x300u32, 0x5AF0_5AF0u32),
        (0x304u32, 1u32),
    ];
    assert(t@ =~= spec_ip_lut_table(lut@));
    let qspi: MMIO<Raw> = MMIO::base(QSPI_BASE);
    qspi.write(plan, &t);
}

/// The four LUT words of the AHB Fast Read sequence: `0x0B`, 24-bit address, 8 dummy
/// cycles, read, stop.
pub fn program_lut_fast_read() -> (lut: [u32; 4])
    ensures
        lut@ == seq![
            lut_cell(INSTR_CMD, 0, 0x0B) | (lut_cell(INSTR_ADDR, 0, 24) << 16u32),
            lut_cell(INSTR_DUMMY, 0, 8) | (lut_cell(INSTR_READ, 0, 0) << 16u32),
            lut_cell(INSTR_STOP, 0, 0) | (lut_cell(INSTR_STOP, 0, 0) << 16u32),
            0u32,
        ],
{
    let w0 = lut_pair(INSTR_CMD, 0, 0x0B, INSTR_ADDR, 0, 24);
    let w1 = lut_pair(INSTR_DUMMY, 0, 8, INSTR_READ, 0, 0);
    let w2 = lut_pair(INSTR_STOP, 0, 0, INSTR_STOP, 0, 0);
    assert(w0 == lut_cell(INSTR_CMD, 0, 0x0B) | (lut_cell(INSTR_ADDR, 0, 24) << 16u32)) by (bit_vector)
        requires
            w0 == ((1u32 << 10u32) | (0u32 << 8u32) | 0x0Bu32) | (((2u32 << 10u32) | (0u32 << 8u32) | 24u32)
                << 16u32),
    ;
    assert(w1 == lut_cell(INSTR_DUMMY, 0, 8) | (lut_cell(INSTR_READ, 0, 0) << 16u32)) by (bit_vector)
        requires
            w1 == ((3u32 << 10u32) | (0u32 << 8u32) | 8u32) | (((7u32 << 10u32) | (0u32 << 8u32) | 0u32)
                << 16u32),
    ;
    assert(w2 == lut_cell(INSTR_STOP, 0, 0) | (lut_cell(INSTR_STOP, 0, 0) << 16u32)) by (bit_vector)
        requires
            w2 == ((0u32 << 10u32) | (0u32 << 8u32) | 0u32) | (((0u32 << 10u32) | (0u32 << 8u32) | 0u32)
                << 16u32),
    ;
    let lut = [w0, w1, w2, 0u32];
    assert(lut@ =~= seq![w0, w1, w2, 0u32]);
    lut
}

/// A LUT word gives back both of its instructions: for an opcode below 64, a pad below 4
/// and any operand, the low half holds the first instruction and the high half the second,
/// each with its opcode, pad and low operand byte in place.
pub proof fn lut_word_decodes(i0: u32, p0: u32, o0: u32, i1: u32, p1: u32, o1: u32)
    requires
        i0 < 64,
        p0 < 4,
        i1 < 64,
        p1 < 4,
    ensures
        ({
            let w = lut_cell(i0, p0, o0) | (lut_cell(i1, p1, o1) << 16u32);
            &&& (w >> 10u32) & 0x3F == i0
            &&& (w >> 8u32) & 0x3 == p0
            &&& w & 0xFF == o0 & 0xFF
            &&& (w >> 26u32) & 0x3F == i1
            &&& (w >> 24u32) & 0x3 == p1
            &&& (w >> 16u32) & 0xFF == o1 & 0xFF
        }),
{
    assert(i0 < 64 && p0 < 4 && i1 < 64 && p1 < 4 ==> {
        let w = ((i0 << 10u32) | (p0 << 8u32) | (o0 & 0xFFu32)) | (((i1 << 10u32) | (p1 << 8u32) | (o1
            & 0xFFu32)) << 16u32);
        &&& (w >> 10u32) & 0x3F == i0
        &&& (w >> 8u32) & 0x3 == p0
        &&& w & 0xFF == o0 & 0xFF
        &&& (w >> 26u32) & 0x3F == i1
        &&& (w >> 24u32) & 0x3 == p1
        &&& (w >> 16u32) & 0xFF == o1 & 0xFF
    }) by (bit_vector);
}

/// Start the IP sequence for `nbytes` data bytes (IPCR: sequence 1, size `nbytes & 0xFFFF`),
/// wait for TFF, acknowledge it, and wait until the controller is not busy.
pub open spec fn spec_trigger_ops(nbytes: u32) -> Seq<RegOp> {
    seq![
        RegOp::Write { addr: QSPI_IPCR, value: (SEQID_IP << 24u32) | (nbytes & 0xFFFF) },
        RegOp::WaitUntil { addr: QSPI_FR, mask: 1, value: 1 },
        RegOp::Write { addr: QSPI_FR, value: 1 },
        RegOp::WaitUntil { addr: QSPI_SR, mask: 1, value: 0 },
    ]
}

/// Append the IPCR trigger for `nbytes` data bytes and the waits after it.
pub fn trigger_ipcr(plan: &mut Vec<RegOp>, nbytes: u32)
    ensures
        final(plan)@ == old(plan)@ + spec_trigger_ops(nbytes),
{
    let ghost head = plan@;
    plan.push(RegOp::Write { addr: QSPI_IPCR, value: (SEQID_IP << 24u32) | (nbytes & 0xFFFF) });
    plan.push(RegOp::WaitUntil { addr: QSPI_FR, mask: 1, value: 1 });
    plan.push(RegOp::Write { addr: QSPI_FR, value: 1 });
    plan.push(RegOp::WaitUntil { addr: QSPI_SR, mask: 1, value: 0 });
    assert(plan@ =~= head + spec_trigger_ops(nbytes));
}

// ---- TX / RX FIFO packing ----

/// Byte `i` of `data`, or zero past its end.
pub open spec fn byte_or_zero(data: Seq<u8>, i: int) -> u8 {
    if 0 <= i < data.len() { data[i] } else { 0u8 }
}

/// TX word `k`: bytes `4k..4k+4` of `data`, little-endian, zero past the end.
pub open spec fn tx_word(data: Seq<u8>, k: int) -> u32 {
    (byte_or_zero(data, 4 * k) as u32) | ((byte_or_zero(data, 4 * k + 1) as u32) << 8u32) | ((
    byte_or_zero(data, 4 * k + 2) as u32) << 16u32) | ((byte_or_zero(data, 4 * k + 3) as u32) << 24u32)
}

/// Words pushed for `len` bytes: one per started word, at least four (the 16-byte pop minimum).
pub open spec fn tx_word_count(len: nat) -> nat {
    let w = (len + 3) / 4;
    if w < 4 { 4 } else { w as nat }
}

/// The words pushed into the TX FIFO for `data`: its bytes packed little-endian, the last
/// word zero-padded, then zero words up to the 16-byte pop minimum.
pub fn fill_tx(data: &[u8]) -> (words: Vec<u32>)
    requires
        data@.len() + 16 <= usize::MAX,
    ensures
        words@.len() == tx_word_count(data@.len()),
        forall|k: int| 0 <= k < words@.len() ==> #[trigger] words@[k] == tx_word(data@, k),
{
    let w = (data.len() + 3) / 4;
    let count = if w < 4 { 4 } else { w };
    assert(4 * count <= data@.len() + 16) by (nonlinear_arith)
        requires
            w == (data@.len() + 3) / 4,
            count == (if w < 4 { 4 } else { w }),
    ;
    let mut words: Vec<u32> = Vec::new();
    let mut k: usize = 0;
    while k < count
        invariant
            k <= count,
            4 * count <= data@.len() + 16,
            data@.len() + 16 <= usize::MAX,
            count == tx_word_count(data@.len()),
            words@.len() == k,
            forall|j: int| 0 <= j < k ==> #[trigger] words@[j] == tx_word(data@, j),
        decreases count - k,
    {
        let b0 = if 4 * k < data.len() { data[4 * k] } else { 0u8 };
        let b1 = if 4 * k + 1 < data.len() { data[4 * k + 1] } else { 0u8 };
        let b2 = if 4 * k + 2 < data.len() { data[4 * k + 2] } else { 0u8 };
        let b3 = if 4 * k + 3 < data.len() { data[4 * k + 3] } else { 0u8 };
        let word = (b0 as u32) | ((b1 as u32) << 8u32) | ((b2 as u32) << 16u32) | ((b3 as u32) << 24u32);
        words.push(word);
        k += 1;
    }
    words
}

/// Byte `i` popped from RX words: byte `i % 4` (little-endian) of word `i / 4`.
pub open spec fn rx_byte(words: Seq<u32>, i: int) -> u8 {
    ((words[i / 4] >> (8 * (i % 4)) as u32) & 0xFFu32) as u8
}

/// The `len` bytes read out of the RX data words.
pub fn read_rx(words: &[u32], len: usize) -> (dst: Vec<u8>)
    requires
        len <= 4 * words@.len(),
    ensures
        dst@.len() == len,
        forall|i: int| 0 <= i < len ==> #[trigger] dst@[i] == rx_byte(words@, i),
{
    let mut dst: Vec<u8> = Vec::new();
    let mut i: usize = 0;
    while i < len
        invariant
            i <= len,
            len <= 4 * words@.len(),
            dst@.len() == i,
            forall|j: int| 0 <= j < i ==> #[trigger] dst@[j] == rx_byte(words@, j),
        decreases len - i,
    {
        let word = words[i / 4];
        let shift: u32 = (8 * (i % 4)) as u32;
        dst.push(((word >> shift) & 0xFF) as u8);
        i += 1;
    }
    dst
}

/// Reading back the words packed for the TX FIFO gives back the data: byte for byte,
/// `rx_byte` of the packed words is the original byte.
pub proof fn fifo_packing_roundtrip(data: Seq<u8>, i: int)
    requires
        0 <= i < data.len(),
    ensures
        rx_byte(Seq::new(tx_word_count(data.len()), |k: int| tx_word(data, k)), i) == data[i],
{
    let words = Seq::new(tx_word_count(data.len()), |k: int| tx_word(data, k));
    let k = i / 4;
    let j = i % 4;
    assert(k < words.len());
    let b0 = byte_or_zero(data, 4 * k);
    let b1 = byte_or_zero(data, 4 * k + 1);
    let b2 = byte_or_zero(data, 4 * k + 2);
    let b3 = byte_or_zero(data, 4 * k + 3);
    let w = (b0 as u32) | ((b1 as u32) << 8u32) | ((b2 as u32) << 16u32) | ((b3 as u32) << 24u32);
    assert(words[k] == w);
    assert(((w >> 0u32) & 0xFFu32) as u8 == b0 && ((w >> 8u32) & 0xFFu32) as u8 == b1 && ((w >> 16u32)
        & 0xFFu32) as u8 == b2 && ((w >> 24u32) & 0xFFu32) as u8 == b3) by (bit_vector)
        requires
            w == (b0 as u32) | ((b1 as u32) << 8u32) | ((b2 as u32) << 16u32) | ((b3 as u32) << 24u32),
    ;
    assert(i == 4 * k + j);
}

// ---- polling ----

/// Status polls before the device or controller is declared stuck (10 µs apart).
pub const POLL_LIMIT: u32 = 500_000;

/// What one poll decides.
#[derive(Clone, Copy, PartialEq, Eq, Structural, Debug)]
pub enum Poll {
    /// The condition holds; go on.
    Done,
    /// Not yet; sleep 10 µs and poll again.
    Retry,
    /// The last allowed poll failed: a hardware error.
    TimedOut,
}

/// The decision after poll number `attempt` (from 0) whose condition is `ok`.
pub open spec fn spec_poll(attempt: u32, ok: bool) -> Poll {
    if ok { Poll::Done } else if attempt + 1 >= POLL_LIMIT { Poll::TimedOut } else { Poll::Retry }
}

/// Waiting for the flash to finish a program or erase: poll `attempt` read status `sr`;
/// the device is ready when Write-In-Progress (bit 0) is clear.
pub fn wait_ready_step(attempt: u32, sr: u8) -> (p: Poll)
    ensures
        p == spec_poll(attempt, sr % 2 == 0),
{
    let wip = sr & 1;
    assert((sr & 1) == sr % 2) by (bit_vector);
    if wip == 0 {
        Poll::Done
    } else if attempt >= POLL_LIMIT - 1 {
        Poll::TimedOut
    } else {
        Poll::Retry
    }
}

/// Waiting for the controller before an IP command: poll `attempt` read SR; it is idle when
/// BUSY, IP_ACC and AHB_ACC (bits 0..2) are all clear.
pub fn ip_wait_idle_step(attempt: u32, sr: u32) -> (p: Poll)
    ensures
        p == spec_poll(attempt, sr % 8 == 0),
{
    let busy = sr & 0b111;
    assert((sr & 0b111) == sr % 8) by (bit_vector);
    if busy == 0 {
        Poll::Done
    } else if attempt >= POLL_LIMIT - 1 {
        Poll::TimedOut
    } else {
        Poll::Retry
    }
}

/// The error a timed-out poll is reported as.
pub fn poll_error() -> (e: FlashServerError)
    ensures
        e == FlashServerError::Hardware,
{
    FlashServerError::Hardware
}

/// A device that stays busy is given exactly `POLL_LIMIT` polls: every earlier busy poll
/// retries and the last one times out; a ready poll always goes on.
pub proof fn polling_gives_up_after_limit(attempt: u32)
    ensures
        attempt + 1 < POLL_LIMIT ==> spec_poll(attempt, false) == Poll::Retry,
        attempt + 1 == POLL_LIMIT ==> spec_poll(attempt, false) == Poll::TimedOut,
        spec_poll(attempt, true) == Poll::Done,
{
}

// ---- IP commands ----

/// MCR.
pub const QSPI_MCR: u32 = 0xD420_C000;
/// IPCR: IP command trigger.
pub const QSPI_IPCR: u32 = 0xD420_C008;
/// SFAR: serial flash address of the IP command.
pub const QSPI_SFAR: u32 = 0xD420_C100;
/// TBDR: TX buffer data.
pub const QSPI_TBDR: u32 = 0xD420_C154;
/// SR: status.
pub const QSPI_SR: u32 = 0xD420_C15C;
/// FR: flags.
pub const QSPI_FR: u32 = 0xD420_C160;
/// SPTRCLR: buffer pointer clear.
pub const QSPI_SPTRCLR: u32 = 0xD420_C16C;

/// Wait until the controller is idle (SR BUSY, IP_ACC and AHB_ACC clear), polling every
/// 10 µs and giving up after `POLL_LIMIT` reads.
pub open spec fn spec_ip_wait_idle_op() -> RegOp {
    RegOp::PollOrFail { addr: QSPI_SR, mask: 0b111, value: 0, attempts: POLL_LIMIT, micros: 10 }
}

/// Clear the TX and RX FIFOs and the buffer pointers, set the flash address, write the
/// flags back (clearing those set), and load the command's LUT sequence.
pub open spec fn spec_prepare_ip_ops(addr: u32, opcode: u8, addr_bytes: u8, phase: DataPhase) -> Seq<RegOp> {
    seq![
        RegOp::Modify { addr: QSPI_MCR, clear: 0xC00, set: 0xC00 },
        RegOp::Modify { addr: QSPI_SPTRCLR, clear: 0x101, set: 0x101 },
        RegOp::Write { addr: QSPI_SFAR, value: (QSPI_AHB_BASE + addr) as u32 },
        RegOp::Modify { addr: QSPI_FR, clear: 0, set: 0 },
    ] + spec_program_lut_ip_ops(opcode, addr_bytes, phase)
}

/// Append the preparation of an IP command at flash address `addr`.
pub fn prepare_ip(plan: &mut Vec<RegOp>, addr: u32, opcode: u8, addr_bytes: u8, phase: DataPhase)
    requires
        QSPI_AHB_BASE + addr <= u32::MAX,
    ensures
        final(plan)@ == old(plan)@ + spec_prepare_ip_ops(addr, opcode, addr_bytes, phase),
{
    let ghost head = plan@;
    plan.push(RegOp::Modify { addr: QSPI_MCR, clear: 0xC00, set: 0xC00 });
    plan.push(RegOp::Modify { addr: QSPI_SPTRCLR, clear: 0x101, set: 0x101 });
    plan.push(RegOp::Write { addr: QSPI_SFAR, value: QSPI_AHB_BASE + addr });
    plan.push(RegOp::Modify { addr: QSPI_FR, clear: 0, set: 0 });
    program_lut_ip(plan, opcode, addr_bytes, phase);
    assert(plan@ =~= head + spec_prepare_ip_ops(addr, opcode, addr_bytes, phase));
}

/// An IP command without data: wait idle, prepare, trigger with no data.
pub open spec fn spec_ip_no_data_ops(opcode: u8, addr: u32, addr_bytes: u8) -> Seq<RegOp> {
    seq![spec_ip_wait_idle_op()] + spec_prepare_ip_ops(addr, opcode, addr_bytes, DataPhase::NoData)
        + spec_trigger_ops(0)
}

/// Append an IP command without data.
pub fn ip_op_no_data(plan: &mut Vec<RegOp>, opcode: u8, addr: u32, addr_bytes: u8)
    requires
        QSPI_AHB_BASE + addr <= u32::MAX,
    ensures
        final(plan)@ == old(plan)@ + spec_ip_no_data_ops(opcode, addr, addr_bytes),
{
    let ghost head = plan@;
    plan.push(spec_exec_wait_idle());
    prepare_ip(plan, addr, opcode, addr_bytes, DataPhase::NoData);
    trigger_ipcr(plan, 0);
    assert(plan@ =~= head + spec_ip_no_data_ops(opcode, addr, addr_bytes));
}

fn spec_exec_wait_idle() -> (op: RegOp)
    ensures
        op == spec_ip_wait_idle_op(),
{
    RegOp::PollOrFail { addr: QSPI_SR, mask: 0b111, value: 0, attempts: POLL_LIMIT, micros: 10 }
}

/// The TX FIFO writes for `data` (see `fill_tx`).
pub open spec fn spec_tx_ops(data: Seq<u8>) -> Seq<RegOp> {
    Seq::new(tx_word_count(data.len()), |k: int| RegOp::Write { addr: QSPI_TBDR, value: tx_word(data, k) })
}

/// An IP command that writes `data`: wait idle, prepare, fill the TX FIFO, trigger for
/// `data.len()` bytes.
pub open spec fn spec_ip_write_ops(opcode: u8, addr: u32, addr_bytes: u8, data: Seq<u8>) -> Seq<RegOp> {
    seq![spec_ip_wait_idle_op()] + spec_prepare_ip_ops(addr, opcode, addr_bytes, DataPhase::Write)
        + spec_tx_ops(data) + spec_trigger_ops(data.len() as u32)
}

/// Append an IP command that writes `data`.
pub fn ip_op_write(plan: &mut Vec<RegOp>, opcode: u8, addr: u32, addr_bytes: u8, data: &[u8])
    requires
        QSPI_AHB_BASE + addr <= u32::MAX,
        data@.len() + 16 <= usize::MAX,
    ensures
        final(plan)@ == old(plan)@ + spec_ip_write_ops(opcode, addr, addr_bytes, data@),
{
    let ghost head = plan@;
    plan.push(spec_exec_wait_idle());
    prepare_ip(plan, addr, opcode, addr_bytes, DataPhase::Write);
    let ghost mid = plan@;
    let words = fill_tx(data);
    let mut k: usize = 0;
    while k < words.len()
        invariant
            k <= words@.len(),
            words@.len() == tx_word_count(data@.len()),
            forall|j: int| 0 <= j < words@.len() ==> #[trigger] words@[j] == tx_word(data@, j),
            plan@ == mid + spec_tx_ops(data@).take(k as int),
        decreases words@.len() - k,
    {
        plan.push(RegOp::Write { addr: QSPI_TBDR, value: words[k] });
        k += 1;
        assert(plan@ =~= mid + spec_tx_ops(data@).take(k as int));
    }
    assert(spec_tx_ops(data@).take(k as int) =~= spec_tx_ops(data@));
    trigger_ipcr(plan, data.len() as u32);
    assert(plan@ =~= head + spec_ip_write_ops(opcode, addr, addr_bytes, data@));
}

/// An IP command that reads `nbytes` into the RX buffer: wait idle, prepare, trigger.
pub open spec fn spec_ip_read_ops(opcode: u8, addr: u32, addr_bytes: u8, nbytes: u32) -> Seq<RegOp> {
    seq![spec_ip_wait_idle_op()] + spec_prepare_ip_ops(addr, opcode, addr_bytes, DataPhase::Read)
        + spec_trigger_ops(nbytes)
}

/// Append an IP command that reads `nbytes`; the bytes are then taken from the RX buffer
/// words with `read_rx`.
pub fn ip_op_read(plan: &mut Vec<RegOp>, opcode: u8, addr: u32, addr_bytes: u8, nbytes: u32)
    requires
        QSPI_AHB_BASE + addr <= u32::MAX,
    ensures
        final(plan)@ == old(plan)@ + spec_ip_read_ops(opcode, addr, addr_bytes, nbytes),
{
    let ghost head = plan@;
    plan.push(spec_exec_wait_idle());
    prepare_ip(plan, addr, opcode, addr_bytes, DataPhase::Read);
    trigger_ipcr(plan, nbytes);
    assert(plan@ =~= head + spec_ip_read_ops(opcode, addr, addr_bytes, nbytes));
}

/// Write Enable (`0x06`), no address, no data.
pub open spec fn spec_write_enable_ops() -> Seq<RegOp> {
    spec_ip_no_data_ops(OP_WREN, 0, 0)
}

/// Append Write Enable.
pub fn write_enable(plan: &mut Vec<RegOp>)
    ensures
        final(plan)@ == old(plan)@ + spec_write_enable_ops(),
{
    ip_op_no_data(plan, OP_WREN, 0, 0);
}

/// The wait for the flash to finish (Read Status until WIP clears, see
/// `RegOp::WaitFlashReady`).
pub open spec fn spec_wait_ready_op() -> RegOp {
    RegOp::WaitFlashReady { attempts: POLL_LIMIT, micros: 10 }
}

/// Append the wait for the flash to finish.
pub fn wait_ready(plan: &mut Vec<RegOp>)
    ensures
        final(plan)@ == old(plan)@.push(spec_wait_ready_op()),
{
    plan.push(RegOp::WaitFlashReady { attempts: POLL_LIMIT, micros: 10 });
}

/// Invalidate the AHB read cache: MCR SWRSTHD and SWRSTSD set, 1 µs, cleared.
pub open spec fn spec_ahb_invalidate_ops() -> Seq<RegOp> {
    seq![
        RegOp::Modify { addr: QSPI_MCR, clear: 3, set: 3 },
        RegOp::Sleep { micros: 1 },
        RegOp::Modify { addr: QSPI_MCR, clear: 3, set: 0 },
    ]
}

/// Append the AHB read cache invalidation.
pub fn ahb_invalidate(plan: &mut Vec<RegOp>)
    ensures
        final(plan)@ == old(plan)@ + spec_ahb_invalidate_ops(),
{
    let ghost head = plan@;
    plan.push(RegOp::Modify { addr: QSPI_MCR, clear: 3, set: 3 });
    plan.push(RegOp::Sleep { micros: 1 });
    plan.push(RegOp::Modify { addr: QSPI_MCR, clear: 3, set: 0 });
    assert(plan@ =~= head + spec_ahb_invalidate_ops());
}

/// One page program: Write Enable, Page Program (`0x02`, 3 address bytes) of `data` at
/// `addr`, then the wait for the flash.
pub open spec fn spec_page_ops(addr: u32, data: Seq<u8>) -> Seq<RegOp> {
    spec_write_enable_ops() + spec_ip_write_ops(OP_PP, addr, 3, data) + seq![spec_wait_ready_op()]
}

/// The commands of a list of page programs, in order.
pub open spec fn spec_pages_ops(progs: Seq<PageProgram>) -> Seq<RegOp>
    decreases progs.len(),
{
    if progs.len() == 0 {
        Seq::empty()
    } else {
        spec_pages_ops(progs.drop_last()) + spec_page_ops(progs.last().addr, progs.last().data@)
    }
}

/// One sector erase: Write Enable, Sector Erase (`0x20`, 3 address bytes) at `addr`, then
/// the wait for the flash.
pub open spec fn spec_sector_ops(addr: u32) -> Seq<RegOp> {
    spec_write_enable_ops() + spec_ip_no_data_ops(OP_SE, addr, 3) + seq![spec_wait_ready_op()]
}

/// The commands erasing the first `n` sectors from `offset`, in order.
pub open spec fn spec_sectors_ops(offset: u32, n: nat) -> Seq<RegOp>
    decreases n,
{
    if n == 0 {
        Seq::empty()
    } else {
        spec_sectors_ops(offset, (n - 1) as nat) + spec_sector_ops((offset + 4096 * (n - 1)) as u32)
    }
}

// ---- controller bring-up ----

/// Base of the controller's register block.
pub const QSPI_BASE: u32 = 0xD420_C000;

/// The pins (data 0..3, clock, chip-select 1) and the clock: off, 2 µs, divider 4 at
/// 106 MHz with clocks on, 10 µs.
pub open spec fn spec_pin_clock_ops() -> Seq<RegOp> {
    seq![
        RegOp::Soc(SocStep::PinmuxQspiData(0)),
        RegOp::Soc(SocStep::PinmuxQspiData(1)),
        RegOp::Soc(SocStep::PinmuxQspiData(2)),
        RegOp::Soc(SocStep::PinmuxQspiData(3)),
        RegOp::Soc(SocStep::PinmuxQspiClk),
        RegOp::Soc(SocStep::PinmuxQspiCs1),
        RegOp::Soc(SocStep::QspiClockOff),
        RegOp::Sleep { micros: 2 },
        RegOp::Soc(SocStep::QspiClockOn),
        RegOp::Sleep { micros: 10 },
    ]
}

/// Soft reset once idle (SR.BUSY and FR.XIP_ON clear): MCR SWRSTSD and SWRSTHD set, 1 µs,
/// cleared; then MCR.MDIS set for programming.
pub open spec fn spec_reset_ops() -> Seq<RegOp> {
    seq![
        RegOp::WaitBoth { addr_a: 0xD420_C15Cu32, mask_a: 1, value_a: 0, addr_b: 0xD420_C160u32, mask_b: 2, value_b: 0 },
        RegOp::Modify { addr: 0xD420_C000u32, clear: 3, set: 3 },
        RegOp::Sleep { micros: 1 },
        RegOp::Modify { addr: 0xD420_C000u32, clear: 3, set: 0 },
        RegOp::Modify { addr: 0xD420_C000u32, clear: 0x4000, set: 0x4000 },
    ]
}

/// SMPR, SOCCR, SFAR (the AHB base) and SFACR.
pub open spec fn spec_static_table() -> Seq<(u32, u32)> {
    seq![(0x108u32, 0u32), (0x024u32, 8u32), (0x100u32, 0xB800_0000u32), (0x104u32, 0u32)]
}

/// LUT unlock, LUT sequence 0 = `lut`, LUT lock.
pub open spec fn spec_lut_table(lut: Seq<u32>) -> Seq<(u32, u32)> {
    seq![
        (0x300u32, 0x5AF0_5AF0u32),
        (0x304u32, 2u32),
        (0x310u32, lut[0]),
        (0x314u32, lut[1]),
        (0x318u32, lut[2]),
        (0x31Cu32, lut[3]),
        (0x300u32, 0x5AF0_5AF0u32),
        (0x304u32, 1u32),
    ]
}

/// AHB buffers: no index, buffers 0..2 at 0xE, buffer 3 for all masters with 64 double
/// words, buffer generation from LUT sequence 0; then the four memory-map top addresses
/// of the 10 MiB window.
pub open spec fn spec_ahb_table() -> Seq<(u32, u32)> {
    seq![
        (0x030u32, 0u32),
        (0x034u32, 0u32),
        (0x038u32, 0u32),
        (0x010u32, 0xEu32),
        (0x014u32, 0xEu32),
        (0x018u32, 0xEu32),
        (0x01Cu32, 0x8000_4000u32),
        (0x020u32, 0u32),
        (0x180u32, 0xB8A0_0000u32),
        (0x184u32, 0xB8B0_0000u32),
        (0x188u32, 0xB8C0_0000u32),
        (0x18Cu32, 0xB8D0_0000u32),
    ]
}

/// MCR endianness 3 and ISD 0xF, MDIS cleared, RBCT = 0x100, all flags cleared.
pub open spec fn spec_normal_mode_ops() -> Seq<RegOp> {
    seq![
        RegOp::Modify { addr: 0xD420_C000u32, clear: 0x000F_000Cu32, set: 0x000F_000Cu32 },
        RegOp::Modify { addr: 0xD420_C000u32, clear: 0x4000, set: 0 },
        RegOp::Write { addr: 0xD420_C110u32, value: 0x100 },
        RegOp::Write { addr: 0xD420_C160u32, value: 0xFFFF_FFFFu32 },
    ]
}

/// The whole bring-up, with the Fast Read LUT sequence `lut`.
pub open spec fn spec_init_ops(lut: Seq<u32>) -> Seq<RegOp> {
    spec_pin_clock_ops() + spec_reset_ops() + write_ops(QSPI_BASE, spec_static_table())
        + write_ops(QSPI_BASE, spec_lut_table(lut)) + write_ops(QSPI_BASE, spec_ahb_table())
        + spec_normal_mode_ops()
}

/// Bring up the controller: pins and clock, soft reset, static registers, LUT sequence 0
/// as the `0x0B` Fast Read for AHB reads, AHB buffers and memory map, normal mode.
pub fn init(plan: &mut Vec<RegOp>)
    ensures
        final(plan)@ == old(plan)@ + spec_init_ops(seq![
            lut_cell(INSTR_CMD, 0, 0x0B) | (lut_cell(INSTR_ADDR, 0, 24) << 16u32),
            lut_cell(INSTR_DUMMY, 0, 8) | (lut_cell(INSTR_READ, 0, 0) << 16u32),
            lut_cell(INSTR_STOP, 0, 0) | (lut_cell(INSTR_STOP, 0, 0) << 16u32),
            0u32,
        ]),
{
    let ghost start = plan@;
    plan.push(RegOp::Soc(SocStep::PinmuxQspiData(0)));
    plan.push(RegOp::Soc(SocStep::PinmuxQspiData(1)));
    plan.push(RegOp::Soc(SocStep::PinmuxQspiData(2)));
    plan.push(RegOp::Soc(SocStep::PinmuxQspiData(3)));
    plan.push(RegOp::Soc(SocStep::PinmuxQspiClk));
    plan.push(RegOp::Soc(SocStep::PinmuxQspiCs1));
    plan.push(RegOp::Soc(SocStep::QspiClockOff));
    plan.push(RegOp::Sleep { micros: 2 });
    plan.push(RegOp::Soc(SocStep::QspiClockOn));
    plan.push(RegOp::Sleep { micros: 10 });
    let ghost p1 = plan@;
    assert(p1 =~= start + spec_pin_clock_ops());
    plan.push(RegOp::WaitBoth { addr_a: 0xD420_C15C, mask_a: 1, value_a: 0, addr_b: 0xD420_C160, mask_b: 2, value_b: 0 });
    plan.push(RegOp::Modify { addr: 0xD420_C000, clear: 3, set: 3 });
    plan.push(RegOp::Sleep { micros: 1 });
    plan.push(RegOp::Modify { addr: 0xD420_C000, clear: 3, set: 0 });
    plan.push(RegOp::Modify { addr: 0xD420_C000, clear: 0x4000, set: 0x4000 });
    let ghost p2 = plan@;
    assert(p2 =~= p1 + spec_reset_ops());
    let qspi: MMIO<Raw> = MMIO::base(QSPI_BASE);
    let t = [(0x108u32, 0u32), (0x024u32, 8u32), (0x100u32, QSPI_AHB_BASE), (0x104u32, 0u32)];
    assert(t@ =~= spec_static_table());
    qspi.write(plan, &t);
    let lut = program_lut_fast_read();
    let t = [
        (0x300u32, 0x5AF0_5AF0u32),
        (0x304u32, 2u32),
        (0x310u32, lut[0]),
        (0x314u32, lut[1]),
        (0x318u32, lut[2]),
        (0x31Cu32, lut[3]),
        (0x300u32, 0x5AF0_5AF0u32),
        (0x304u32, 1u32),
    ];
    assert(t@ =~= spec_lut_table(lut@));
    qspi.write(plan, &t);
    let buf3 = (1u32 << 31u32) | (((512u32 / 8) & 0xFF) << 8u32);
    proof { crate::bits::shift_constants(); }
    let window: u32 = 10 * 1024 * 1024;
    let sfa1 = (QSPI_AHB_BASE + window) & 0xFFFF_FC00;
    let sfa2 = (QSPI_AHB_BASE + window + 0x10_0000) & 0xFFFF_FC00;
    let sfb1 = (QSPI_AHB_BASE + window + 0x20_0000) & 0xFFFF_FC00;
    let sfb2 = (QSPI_AHB_BASE + window + 0x30_0000) & 0xFFFF_FC00;
    let t = [
        (0x030u32, 0u32),
        (0x034u32, 0u32),
        (0x038u32, 0u32),
        (0x010u32, 0xEu32),
        (0x014u32, 0xEu32),
        (0x018u32, 0xEu32),
        (0x01Cu32, buf3),
        (0x020u32, SEQID_AHB << 12u32),
        (0x180u32, sfa1),
        (0x184u32, sfa2),
        (0x188u32, sfb1),
        (0x18Cu32, sfb2),
    ];
    assert(t@ =~= spec_ahb_table());
    qspi.write(plan, &t);
    let ghost p3 = plan@;
    plan.push(RegOp::Modify { addr: 0xD420_C000, clear: 0x000F_000C, set: 0x000F_000C });
    plan.push(RegOp::Modify { addr: 0xD420_C000, clear: 0x4000, set: 0 });
    plan.push(RegOp::Write { addr: 0xD420_C110, value: 0x100 });
    plan.push(RegOp::Write { addr: 0xD420_C160, value: 0xFFFF_FFFF });
    assert(plan@ =~= p3 + spec_normal_mode_ops());
    assert(plan@ =~= start + spec_init_ops(lut@));
}


// ---- what the TX FIFO receives ----

/// The values written to the TX FIFO data register (TBDR) by `ops`, in order.
pub open spec fn tbdr_values(ops: Seq<RegOp>) -> Seq<u32>
    decreases ops.len(),
{
    if ops.len() == 0 {
        Seq::empty()
    } else {
        let rest = tbdr_values(ops.drop_last());
        match ops.last() {
            RegOp::Write { addr, value } => if addr == QSPI_TBDR { rest.push(value) } else { rest },
            _ => rest,
        }
    }
}

proof fn lemma_tbdr_concat(a: Seq<RegOp>, b: Seq<RegOp>)
    ensures
        tbdr_values(a + b) == tbdr_values(a) + tbdr_values(b),
    decreases b.len(),
{
    if b.len() == 0 {
        assert(a + b =~= a);
        assert(tbdr_values(a) + tbdr_values(b) =~= tbdr_values(a));
    } else {
        lemma_tbdr_concat(a, b.drop_last());
        assert((a + b).drop_last() =~= a + b.drop_last());
        assert((a + b).last() == b.last());
        let r = tbdr_values(a) + tbdr_values(b.drop_last());
        match b.last() {
            RegOp::Write { addr, value } => {
                if addr == QSPI_TBDR {
                    assert(r.push(value) =~= tbdr_values(a) + tbdr_values(b.drop_last()).push(value));
                }
            },
            _ => {},
        }
    }
}

proof fn lemma_tbdr_none(ops: Seq<RegOp>)
    requires
        forall|i: int| 0 <= i < ops.len() ==> !(#[trigger] ops[i] matches RegOp::Write { addr, .. } && addr == QSPI_TBDR),
    ensures
        tbdr_values(ops) == Seq::<u32>::empty(),
    decreases ops.len(),
{
    if ops.len() > 0 {
        let d = ops.drop_last();
        assert forall|i: int| 0 <= i < d.len() implies !(#[trigger] d[i] matches RegOp::Write { addr, .. } && addr == QSPI_TBDR) by {
            assert(d[i] == ops[i]);
        }
        lemma_tbdr_none(d);
        assert(ops.last() == ops[ops.len() - 1]);
    }
}

proof fn lemma_tbdr_tx(data: Seq<u8>, n: nat)
    requires
        n <= tx_word_count(data.len()),
    ensures
        tbdr_values(spec_tx_ops(data).take(n as int)) == Seq::new(n, |k: int| tx_word(data, k)),
    decreases n,
{
    let t = spec_tx_ops(data).take(n as int);
    if n > 0 {
        lemma_tbdr_tx(data, (n - 1) as nat);
        assert(t.drop_last() =~= spec_tx_ops(data).take(n - 1));
        assert(t.last() == RegOp::Write { addr: QSPI_TBDR, value: tx_word(data, n - 1) });
        assert(Seq::new((n - 1) as nat, |k: int| tx_word(data, k)).push(tx_word(data, n - 1))
            =~= Seq::new(n, |k: int| tx_word(data, k)));
    } else {
        assert(t =~= Seq::<RegOp>::empty());
        assert(Seq::new(n, |k: int| tx_word(data, k)) =~= Seq::<u32>::empty());
    }
}

proof fn lemma_lut_not_tbdr(opcode: u8, addr_bytes: u8, phase: DataPhase)
    ensures
        tbdr_values(spec_program_lut_ip_ops(opcode, addr_bytes, phase)) == Seq::<u32>::empty(),
{
    let ops = spec_program_lut_ip_ops(opcode, addr_bytes, phase);
    let t = spec_ip_lut_table(lut_words(lut_ip_cells(opcode, addr_bytes, phase)));
    assert forall|i: int| 0 <= i < ops.len() implies !(#[trigger] ops[i] matches RegOp::Write { addr, .. } && addr == QSPI_TBDR) by {
        assert(0x300 <= t[i].0 <= 0x32C);
    }
    lemma_tbdr_none(ops);
}

/// A page-program IP command hands the TX FIFO exactly its data words, in push order:
/// the values written to TBDR are the packed words `tx_word(data, k)` for `k` from 0, and
/// popping bytes from them in that order gives back every byte of `data` (no other part
/// of the command writes TBDR).
pub proof fn ip_write_fills_fifo_in_order(opcode: u8, addr: u32, addr_bytes: u8, data: Seq<u8>)
    ensures
        tbdr_values(spec_ip_write_ops(opcode, addr, addr_bytes, data))
            == Seq::new(tx_word_count(data.len()), |k: int| tx_word(data, k)),
        forall|i: int| 0 <= i < data.len() ==>
            #[trigger] rx_byte(tbdr_values(spec_ip_write_ops(opcode, addr, addr_bytes, data)), i) == data[i],
{
    let w = seq![spec_ip_wait_idle_op()];
    let p4 = seq![
        RegOp::Modify { addr: QSPI_MCR, clear: 0xC00, set: 0xC00 },
        RegOp::Modify { addr: QSPI_SPTRCLR, clear: 0x101, set: 0x101 },
        RegOp::Write { addr: QSPI_SFAR, value: (QSPI_AHB_BASE + addr) as u32 },
        RegOp::Modify { addr: QSPI_FR, clear: 0, set: 0 },
    ];
    let lut = spec_program_lut_ip_ops(opcode, addr_bytes, DataPhase::Write);
    let tx = spec_tx_ops(data);
    let tr = spec_trigger_ops(data.len() as u32);
    lemma_tbdr_none(w);
    lemma_tbdr_none(p4);
    lemma_lut_not_tbdr(opcode, addr_bytes, DataPhase::Write);
    lemma_tbdr_none(tr);
    lemma_tbdr_tx(data, tx_word_count(data.len()));
    assert(tx.take(tx_word_count(data.len()) as int) =~= tx);
    lemma_tbdr_concat(p4, lut);
    lemma_tbdr_concat(w, p4 + lut);
    lemma_tbdr_concat(w + (p4 + lut), tx);
    lemma_tbdr_concat(w + (p4 + lut) + tx, tr);
    assert(spec_ip_write_ops(opcode, addr, addr_bytes, data) =~= w + (p4 + lut) + tx + tr);
    let words = Seq::new(tx_word_count(data.len()), |k: int| tx_word(data, k));
    assert(tbdr_values(spec_ip_write_ops(opcode, addr, addr_bytes, data)) =~= words);
    assert forall|i: int| 0 <= i < data.len() implies #[trigger] rx_byte(
        tbdr_values(spec_ip_write_ops(opcode, addr, addr_bytes, data)),
        i,
    ) == data[i] by {
        fifo_packing_roundtrip(data, i);
    }
}

} // verus!
