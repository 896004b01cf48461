//! NVMe host logic: the queue bookkeeping (tails, heads, phase tags, doorbells), the
//! commands the loader submits and the 4 KiB chunking of transfers.
use vstd::prelude::*;
use crate::layout::{
    NVME_ACQ_BASE, NVME_ASQ_BASE, NVME_DMA_SIZE, NVME_IOCQ_BASE, NVME_IOSQ_BASE, NVME_READ_DMA_BASE,
    NVME_READ_DMA_PRP2,
};
use crate::mmio::{apply_ops, apply_ops_concat, RegOp};
use vstd::arithmetic::div_mod::{lemma_fundamental_div_mod, lemma_fundamental_div_mod_converse};
use crate::cpu::cache::{clean, inval, maintain_ops_are_cache_only, spec_maintain_ops};

verus! {

/// MMIO base of the NVMe controller (BAR0 through the PCIe MEM window).
pub const NVME_CTRL_BASE: u32 = 0xA200_0000;
/// Base of the doorbell registers.
pub const NVME_DOORBELL_BASE: u32 = 0xA200_1000;
/// Entries of the admin submission queue.
pub const ASQ_SIZE: u32 = 64;
/// Entries of the admin completion queue.
pub const ACQ_SIZE: u32 = 64;
/// Entries of the I/O submission queue.
pub const IOSQ_SIZE: u32 = 64;
/// Entries of the I/O completion queue.
pub const IOCQ_SIZE: u32 = 64;
/// Admin queue identifier.
pub const ADMIN_QID: u32 = 0;
/// I/O queue identifier.
pub const IO_QID: u32 = 1;
/// Bytes of a submission queue entry.
pub const SQE_BYTES: u64 = 64;
/// Bytes of a completion queue entry.
pub const CQE_BYTES: u64 = 16;
/// Admin opcode: Create I/O Submission Queue.
pub const OPC_CREATE_IO_SQ: u8 = 0x01;
/// Admin opcode: Create I/O Completion Queue.
pub const OPC_CREATE_IO_CQ: u8 = 0x05;
/// I/O opcode: Read.
pub const OPC_READ: u8 = 0x02;
/// I/O opcode: Write.
pub const OPC_WRITE: u8 = 0x01;

/// CDW0 of a submission queue entry.
#[derive(Clone, Copy, PartialEq, Eq, Structural, Debug)]
pub struct SqeCw0 {
    /// Admin or I/O opcode.
    pub opcode: u8,
    /// PSDT and FUSE flags (always 0 here).
    pub psdt_fuse: u8,
    /// Command identifier.
    pub cid: u16,
}

/// A 64-byte NVMe submission queue entry.
#[derive(Clone, Copy, PartialEq, Eq, Structural, Debug)]
pub struct Sqe {
    /// Opcode, flags and command identifier.
    pub cdw0: SqeCw0,
    /// Namespace (0 for admin commands, 1 for I/O).
    pub nsid: u32,
    /// Reserved.
    pub rsvd: u64,
    /// Metadata pointer (unused).
    pub mptr: u64,
    /// First PRP entry.
    pub prp1: u64,
    /// Second PRP entry.
    pub prp2: u64,
    /// Command dword 10.
    pub cdw10: u32,
    /// Command dword 11.
    pub cdw11: u32,
    /// Command dword 12.
    pub cdw12: u32,
    /// Command dword 13.
    pub cdw13: u32,
    /// Command dword 14.
    pub cdw14: u32,
    /// Command dword 15.
    pub cdw15: u32,
}

/// A 16-byte NVMe completion queue entry.
#[derive(Clone, Copy)]
pub struct Cqe {
    /// Command-specific result.
    pub result: u32,
    /// Reserved.
    pub rsvd: u32,
    /// Submission queue head after this completion.
    pub sq_head: u16,
    /// Submission queue identifier.
    pub sq_id: u16,
    /// Command identifier.
    pub cid: u16,
    /// Status, with the phase tag in bit 0.
    pub status_phase: u16,
}

impl Cqe {
    /// Whether this completion carries the phase tag the host expects.
    pub fn has_phase(&self, phase: u8) -> (r: bool)
        ensures
            r == (self.status_phase % 2 == phase),
    {
        let sp = self.status_phase;
        assert((sp & 1) == sp % 2) by (bit_vector);
        sp & 1 == phase as u16
    }
}

/// A doorbell write: register offset from the doorbell base, and value.
#[derive(Clone, Copy)]
pub struct Doorbell {
    /// Offset from the doorbell base.
    pub offset: u32,
    /// New tail or head.
    pub value: u32,
}

/// Where to place a submission and which doorbell to ring after it.
#[derive(Clone, Copy)]
pub struct Submission {
    /// Address of the queue slot the entry is written to.
    pub slot: u64,
    /// The submission queue doorbell.
    pub doorbell: Doorbell,
}

/// Offset of a doorbell: `(4 << dstrd) * (2 * qid + completion)`.
pub open spec fn spec_doorbell_offset(dstrd: u8, qid: u32, completion: bool) -> int {
    (4 * pow2_u(dstrd as nat)) * (2 * qid + if completion { 1int } else { 0int })
}

/// `2^n`.
pub open spec fn pow2_u(n: nat) -> int
    decreases n,
{
    if n == 0 { 1 } else { 2 * pow2_u((n - 1) as nat) }
}

/// The doorbell offset of submission (`completion == false`) or completion queue `qid`.
pub fn doorbell_offset(dstrd: u8, qid: u32, completion: bool) -> (off: u32)
    requires
        dstrd < 16,
        qid < 64,
    ensures
        off == spec_doorbell_offset(dstrd, qid, completion),
{
    let mut stride: u32 = 4;
    let mut i: u8 = 0;
    while i < dstrd
        invariant
            i <= dstrd,
            dstrd < 16,
            stride == 4 * pow2_u(i as nat),
            stride <= 4 * 32768,
        decreases dstrd - i,
    {
        assert(pow2_u((i + 1) as nat) == 2 * pow2_u(i as nat));
        proof {
            lemma_pow2_bound(i as nat);
        }
        stride = stride * 2;
        i += 1;
    }
    let idx: u32 = 2 * qid + if completion { 1 } else { 0 };
    proof {
        lemma_pow2_bound(dstrd as nat);
    }
    assert(stride * idx <= 4 * 32768 * 128) by (nonlinear_arith)
        requires
            stride <= 4 * 32768,
            idx <= 128,
    ;
    stride * idx
}

proof fn lemma_pow2_monotonic(a: nat, b: nat)
    requires
        a <= b,
    ensures
        pow2_u(a) <= pow2_u(b),
    decreases b,
{
    if a < b {
        lemma_pow2_monotonic(a, (b - 1) as nat);
        lemma_pow2_positive((b - 1) as nat);
    }
}

proof fn lemma_pow2_positive(n: nat)
    ensures
        1 <= pow2_u(n),
    decreases n,
{
    if n > 0 {
        lemma_pow2_positive((n - 1) as nat);
    }
}

proof fn lemma_doorbell_bound(dstrd: u8, qid: u32, completion: bool)
    requires
        dstrd < 16,
        qid <= 1,
    ensures
        0 <= spec_doorbell_offset(dstrd, qid, completion) <= 4 * 32768 * 3,
{
    lemma_pow2_bound(dstrd as nat);
    let p = pow2_u(dstrd as nat);
    let idx = 2 * qid + if completion { 1int } else { 0int };
    assert(0 <= (4 * p) * idx <= 4 * 32768 * 3) by (nonlinear_arith)
        requires
            1 <= p <= 32768,
            0 <= idx <= 3,
    ;
}

proof fn lemma_pow2_bound(n: nat)
    requires
        n < 16,
    ensures
        1 <= pow2_u(n) <= 32768,
        n < 15 ==> pow2_u(n) <= 16384,
{
    reveal_with_fuel(pow2_u, 16);
    assert(pow2_u(14) == 16384);
    assert(pow2_u(15) == 32768);
    lemma_pow2_positive(n);
    lemma_pow2_monotonic(n, 15);
    if n < 15 {
        lemma_pow2_monotonic(n, 14);
    }
}

/// The four doorbells in use are distinct registers: for any stride, the admin and I/O
/// submission and completion doorbells sit at offsets 0, 1, 2 and 3 times `4 << dstrd`.
pub proof fn doorbells_are_distinct(dstrd: u8)
    requires
        dstrd < 16,
    ensures
        spec_doorbell_offset(dstrd, ADMIN_QID, false) == 0,
        spec_doorbell_offset(dstrd, ADMIN_QID, true) == 4 * pow2_u(dstrd as nat),
        spec_doorbell_offset(dstrd, IO_QID, false) == 2 * (4 * pow2_u(dstrd as nat)),
        spec_doorbell_offset(dstrd, IO_QID, true) == 3 * (4 * pow2_u(dstrd as nat)),
        0 < 4 * pow2_u(dstrd as nat),
{
    lemma_pow2_positive(dstrd as nat);
    let st = 4 * pow2_u(dstrd as nat);
    assert(st * 0 == 0 && st * 1 == st && st * 2 == 2 * st && st * 3 == 3 * st) by (nonlinear_arith);
}

/// The next submission queue tail.
pub open spec fn next_tail(tail: u32, size: u32) -> u32 {
    ((tail + 1) % (size as int)) as u32
}

/// The completion queue head and phase tag after consuming one entry: the phase flips
/// when the head wraps.
pub open spec fn next_cq(head: u32, phase: u8, size: u32) -> (u32, u8) {
    let h = ((head + 1) % (size as int)) as u32;
    (h, if h == 0 { (phase ^ 1u8) as u8 } else { phase })
}

/// The state of a completion queue of `size` entries after `k` entries from `(0, 1)`.
pub open spec fn cq_after(size: u32, k: nat) -> (u32, u8)
    decreases k,
{
    if k == 0 {
        (0, 1)
    } else {
        let prev = cq_after(size, (k - 1) as nat);
        next_cq(prev.0, prev.1, size)
    }
}

/// A completion queue of `size` entries, started at head 0 with phase tag 1, is at head
/// `k mod size` after `k` completions, and its expected phase tag is 1 during even passes
/// over the queue and 0 during odd passes.
pub proof fn cq_phase_tracks_passes(size: u32, k: nat)
    requires
        size > 0,
    ensures
        cq_after(size, k).0 == (k as int) % (size as int),
        cq_after(size, k).1 == (if ((k as int) / (size as int)) % 2 == 0 { 1u8 } else { 0u8 }),
    decreases k,
{
    if k > 0 {
        cq_phase_tracks_passes(size, (k - 1) as nat);
        let n = size as int;
        let q = (k - 1) / n;
        let r = (k - 1) % n;
        lemma_fundamental_div_mod((k - 1) as int, n);
        crate::bits::shift_constants();
        if r == n - 1 {
            assert(k == (q + 1) * n + 0) by (nonlinear_arith)
                requires
                    k - 1 == n * q + r,
                    r == n - 1,
            ;
            lemma_fundamental_div_mod_converse(k as int, n, q + 1, 0);
            lemma_fundamental_div_mod_converse(r + 1, n, 1, 0);
            assert((q + 1) % 2 == 0 <==> q % 2 != 0);
        } else {
            assert(k == q * n + (r + 1)) by (nonlinear_arith)
                requires
                    k - 1 == n * q + r,
            ;
            lemma_fundamental_div_mod_converse(k as int, n, q, r + 1);
            lemma_fundamental_div_mod_converse(r + 1, n, 0, r + 1);
        }
    }
}

/// 4 KiB of one transfer: the LBA it starts at, and its byte range in the buffer.
#[derive(Clone, Copy)]
pub struct ChunkIo {
    /// First LBA of the chunk.
    pub lba: u64,
    /// Offset of the chunk in the caller's buffer.
    pub offset: usize,
    /// Length of the chunk (at most 4096).
    pub len: usize,
}

/// The host-side state of the controller: command identifiers, doorbell stride, and the
/// admin and I/O queue positions.
pub struct Nvme {
    cid: u16,
    dstrd: u8,
    asq_tail: u32,
    acq_head: u32,
    acq_phase: u8,
    iosq_tail: u32,
    iocq_head: u32,
    iocq_phase: u8,
}

/// Controller Configuration (CC).
pub const NVME_CC: u32 = 0xA200_0014;
/// Controller Status (CSTS).
pub const NVME_CSTS: u32 = 0xA200_001C;
/// Admin Queue Attributes (AQA).
pub const NVME_AQA: u32 = 0xA200_0024;
/// Admin Submission Queue base (ASQ, 64-bit).
pub const NVME_ASQ: u32 = 0xA200_0028;
/// Admin Completion Queue base (ACQ, 64-bit).
pub const NVME_ACQ: u32 = 0xA200_0030;
/// AQA for 64-entry admin queues: both zero-based sizes 63.
pub const AQA_64_ENTRIES: u32 = 0x003F_003F;
/// CC with IOSQES = 6 (64-byte entries) and IOCQES = 4 (16-byte entries); NVM command
/// set, 4 KiB pages, round-robin arbitration, no shutdown, not enabled.
pub const CC_ENTRY_SIZES: u32 = 0x0046_0000;

/// Clear CC.EN, then wait for CSTS.RDY to clear.
pub open spec fn spec_reset_controller_ops() -> Seq<RegOp> {
    seq![
        RegOp::Modify { addr: NVME_CC, clear: 1, set: 0 },
        RegOp::WaitUntil { addr: NVME_CSTS, mask: 1, value: 0 },
    ]
}

/// Zero the queue memory and write it back from the data cache.
pub open spec fn spec_zero_queues_ops() -> Seq<RegOp> {
    seq![
        RegOp::ZeroMemory { base: NVME_ASQ_BASE, bytes: NVME_DMA_SIZE },
    ] + spec_maintain_ops(NVME_ASQ_BASE as usize, NVME_DMA_SIZE as usize, true)
}

/// Admin queue sizes, then the admin submission and completion queue bases.
pub open spec fn spec_admin_queue_ops() -> Seq<RegOp> {
    seq![
        RegOp::Write { addr: NVME_AQA, value: AQA_64_ENTRIES },
        RegOp::Write64 { addr: NVME_ASQ, data: NVME_ASQ_BASE },
        RegOp::Write64 { addr: NVME_ACQ, data: NVME_ACQ_BASE },
    ]
}

/// Set CC.EN, then wait for CSTS.RDY.
pub open spec fn spec_enable_controller_ops() -> Seq<RegOp> {
    seq![
        RegOp::Modify { addr: NVME_CC, clear: 1, set: 1 },
        RegOp::WaitUntil { addr: NVME_CSTS, mask: 1, value: 1 },
    ]
}

/// The controller bring-up: disable, zero the queues, program the admin queues, set the
/// entry sizes, enable.
pub open spec fn spec_init_controller_ops() -> Seq<RegOp> {
    spec_reset_controller_ops() + spec_zero_queues_ops() + spec_admin_queue_ops()
        + seq![RegOp::Write { addr: NVME_CC, value: CC_ENTRY_SIZES }] + spec_enable_controller_ops()
}

fn reset_controller(plan: &mut Vec<RegOp>)
    ensures
        final(plan)@ == old(plan)@ + spec_reset_controller_ops(),
{
    plan.push(RegOp::Modify { addr: NVME_CC, clear: 1, set: 0 });
    plan.push(RegOp::WaitUntil { addr: NVME_CSTS, mask: 1, value: 0 });
}

fn zero_queues(plan: &mut Vec<RegOp>)
    ensures
        final(plan)@ == old(plan)@ + spec_zero_queues_ops(),
{
    let ghost head = plan@;
    plan.push(RegOp::ZeroMemory { base: NVME_ASQ_BASE, bytes: NVME_DMA_SIZE });
    clean(plan, NVME_ASQ_BASE as usize, NVME_DMA_SIZE as usize);
    assert(plan@ =~= head + spec_zero_queues_ops());
}

fn configure_admin_queue(plan: &mut Vec<RegOp>)
    ensures
        final(plan)@ == old(plan)@ + spec_admin_queue_ops(),
{
    plan.push(RegOp::Write { addr: NVME_AQA, value: AQA_64_ENTRIES });
    plan.push(RegOp::Write64 { addr: NVME_ASQ, data: NVME_ASQ_BASE });
    plan.push(RegOp::Write64 { addr: NVME_ACQ, data: NVME_ACQ_BASE });
}

fn set_entry_size(plan: &mut Vec<RegOp>)
    ensures
        final(plan)@ == old(plan)@.push(RegOp::Write { addr: NVME_CC, value: CC_ENTRY_SIZES }),
{
    plan.push(RegOp::Write { addr: NVME_CC, value: CC_ENTRY_SIZES });
}

fn enable_controller(plan: &mut Vec<RegOp>)
    ensures
        final(plan)@ == old(plan)@ + spec_enable_controller_ops(),
{
    plan.push(RegOp::Modify { addr: NVME_CC, clear: 1, set: 1 });
    plan.push(RegOp::WaitUntil { addr: NVME_CSTS, mask: 1, value: 1 });
}

/// Append the controller bring-up. CAP, read after it, gives `Nvme::open` its doorbell
/// stride.
pub fn init_controller(plan: &mut Vec<RegOp>)
    ensures
        final(plan)@ == old(plan)@ + spec_init_controller_ops(),
{
    let ghost start = plan@;
    reset_controller(plan);
    zero_queues(plan);
    configure_admin_queue(plan);
    set_entry_size(plan);
    enable_controller(plan);
    assert(plan@ =~= start + spec_init_controller_ops());
}

/// After the bring-up, whatever the registers held before, CC has the entry sizes and the
/// enable bit set, AQA sizes both admin queues at 64 entries, and ASQ and ACQ hold the
/// admin queue bases.
pub proof fn controller_init_programs_admin_queues(regs: Map<u32, u32>)
    ensures
        apply_ops(regs, spec_init_controller_ops())[NVME_CC] == CC_ENTRY_SIZES | 1,
        apply_ops(regs, spec_init_controller_ops())[NVME_AQA] == AQA_64_ENTRIES,
        apply_ops(regs, spec_init_controller_ops())[NVME_ASQ] == NVME_ASQ_BASE,
        apply_ops(regs, spec_init_controller_ops())[(NVME_ASQ + 4) as u32] == 0,
        apply_ops(regs, spec_init_controller_ops())[NVME_ACQ] == NVME_ACQ_BASE,
        apply_ops(regs, spec_init_controller_ops())[(NVME_ACQ + 4) as u32] == 0,
{
    let head = spec_reset_controller_ops() + spec_zero_queues_ops();
    let rest = spec_admin_queue_ops() + seq![RegOp::Write { addr: NVME_CC, value: CC_ENTRY_SIZES }]
        + spec_enable_controller_ops();
    assert(spec_init_controller_ops() =~= head + rest);
    apply_ops_concat(regs, head, rest);
    assert(rest.len() == 6);
    reveal_with_fuel(apply_ops, 7);
    crate::bits::shift_constants();
}

/// The queue positions of a controller.
pub struct NvmeState {
    /// Last command identifier handed out.
    pub cid: u16,
    /// Doorbell stride exponent (CAP.DSTRD).
    pub dstrd: u8,
    /// Admin submission tail.
    pub asq_tail: u32,
    /// Admin completion head.
    pub acq_head: u32,
    /// Expected admin phase tag.
    pub acq_phase: u8,
    /// I/O submission tail.
    pub iosq_tail: u32,
    /// I/O completion head.
    pub iocq_head: u32,
    /// Expected I/O phase tag.
    pub iocq_phase: u8,
}

/// Create I/O Completion Queue with command identifier `cid`: 64 entries at the I/O CQ
/// area, physically contiguous.
pub open spec fn spec_create_io_cq_sqe(cid: u16) -> Sqe {
    Sqe {
        cdw0: SqeCw0 { opcode: OPC_CREATE_IO_CQ, psdt_fuse: 0, cid },
        nsid: 0,
        rsvd: 0,
        mptr: 0,
        prp1: NVME_IOCQ_BASE,
        prp2: 0,
        cdw10: ((IOCQ_SIZE - 1) * 65536 + IO_QID) as u32,
        cdw11: 1,
        cdw12: 0,
        cdw13: 0,
        cdw14: 0,
        cdw15: 0,
    }
}

/// Create I/O Submission Queue with command identifier `cid`: 64 entries at the I/O SQ
/// area, physically contiguous, bound to the I/O completion queue.
pub open spec fn spec_create_io_sq_sqe(cid: u16) -> Sqe {
    Sqe {
        cdw0: SqeCw0 { opcode: OPC_CREATE_IO_SQ, psdt_fuse: 0, cid },
        nsid: 0,
        rsvd: 0,
        mptr: 0,
        prp1: NVME_IOSQ_BASE,
        prp2: 0,
        cdw10: ((IOSQ_SIZE - 1) * 65536 + IO_QID) as u32,
        cdw11: (IO_QID * 65536 + 1) as u32,
        cdw12: 0,
        cdw13: 0,
        cdw14: 0,
        cdw15: 0,
    }
}

/// One command on a queue pair: store `sqe` in the submission slot at the tail, clean it
/// from the data cache, ring the new tail on the SQ doorbell, wait for the completion slot
/// at the head to carry the expected phase tag, and ring the new head on the CQ doorbell.
pub open spec fn spec_command_ops(
    sq_base: u64,
    cq_base: u64,
    qid: u32,
    dstrd: u8,
    sq_tail: u32,
    cq_head: u32,
    cq_phase: u8,
    sqe: Sqe,
) -> Seq<RegOp> {
    let slot = (sq_base + sq_tail * SQE_BYTES) as u64;
    seq![RegOp::StoreSqe { slot, sqe }] + spec_maintain_ops(slot as usize, 64, true) + seq![
        RegOp::Write {
            addr: (NVME_DOORBELL_BASE + spec_doorbell_offset(dstrd, qid, false)) as u32,
            value: next_tail(sq_tail, 64),
        },
        RegOp::WaitCqe { slot: (cq_base + cq_head * CQE_BYTES) as u64, phase: cq_phase },
        RegOp::Write {
            addr: (NVME_DOORBELL_BASE + spec_doorbell_offset(dstrd, qid, true)) as u32,
            value: next_cq(cq_head, cq_phase, 64).0,
        },
    ]
}

/// An admin command from state `s`.
pub open spec fn spec_admin_command_ops(s: NvmeState, sqe: Sqe) -> Seq<RegOp> {
    spec_command_ops(NVME_ASQ_BASE, NVME_ACQ_BASE, ADMIN_QID, s.dstrd, s.asq_tail, s.acq_head, s.acq_phase, sqe)
}

/// An I/O command from state `s`.
pub open spec fn spec_io_command_ops(s: NvmeState, sqe: Sqe) -> Seq<RegOp> {
    spec_command_ops(NVME_IOSQ_BASE, NVME_IOCQ_BASE, IO_QID, s.dstrd, s.iosq_tail, s.iocq_head, s.iocq_phase, sqe)
}

/// The state after one admin command.
pub open spec fn after_admin(s: NvmeState) -> NvmeState {
    NvmeState {
        asq_tail: next_tail(s.asq_tail, 64),
        acq_head: next_cq(s.acq_head, s.acq_phase, 64).0,
        acq_phase: next_cq(s.acq_head, s.acq_phase, 64).1,
        ..s
    }
}

/// The state after one I/O command.
pub open spec fn after_io(s: NvmeState) -> NvmeState {
    NvmeState {
        iosq_tail: next_tail(s.iosq_tail, 64),
        iocq_head: next_cq(s.iocq_head, s.iocq_phase, 64).0,
        iocq_phase: next_cq(s.iocq_head, s.iocq_phase, 64).1,
        ..s
    }
}

/// The state `open` starts from: no command issued, empty queues, phase tags 1.
pub open spec fn fresh_state(dstrd: u8) -> NvmeState {
    NvmeState { cid: 0, dstrd, asq_tail: 0, acq_head: 0, acq_phase: 1, iosq_tail: 0, iocq_head: 0, iocq_phase: 1 }
}

/// The next command identifier after `cid` (wrapping).
pub open spec fn next_cid(cid: u16) -> u16 {
    if cid == u16::MAX { 0 } else { (cid + 1) as u16 }
}

/// An I/O Read or Write of `len` bytes at `lba` through the DMA data page.
pub open spec fn spec_io_sqe(opcode: u8, cid: u16, lba: u64, len: int) -> Sqe {
    Sqe {
        cdw0: SqeCw0 { opcode, psdt_fuse: 0, cid },
        nsid: 1,
        rsvd: 0,
        mptr: 0,
        prp1: NVME_READ_DMA_BASE,
        prp2: NVME_READ_DMA_PRP2,
        cdw10: (lba % 0x1_0000_0000) as u32,
        cdw11: (lba / 0x1_0000_0000) as u32,
        cdw12: (len / 512 - 1) as u32,
        cdw13: 0,
        cdw14: 0,
        cdw15: 0,
    }
}

/// Chunks of a `len`-byte transfer.
pub open spec fn chunk_total(len: int) -> nat {
    ((len + 4095) / 4096) as nat
}

/// Bytes of chunk `k` of a `len`-byte transfer.
pub open spec fn chunk_bytes(len: int, k: int) -> int {
    if len - 4096 * k < 4096 { len - 4096 * k } else { 4096 }
}

/// The state after `k` I/O commands from `s`, each taking the next command identifier.
pub open spec fn io_after(s: NvmeState, k: nat) -> NvmeState
    decreases k,
{
    if k == 0 {
        s
    } else {
        let p = io_after(s, (k - 1) as nat);
        after_io(NvmeState { cid: next_cid(p.cid), ..p })
    }
}

/// One chunk of `n` bytes at `chunk_lba`, at `offset` in the caller's buffer, from state
/// `p`: for a write, the copy into the DMA page and its cache clean first; the command (the
/// next command identifier) and its completion; for a read, the cache invalidate and the
/// copy out of the DMA page after.
pub open spec fn spec_chunk_io_ops(p: NvmeState, opcode: u8, chunk_lba: u64, offset: usize, n: int) -> Seq<RegOp> {
    let cmd = spec_io_command_ops(p, spec_io_sqe(opcode, next_cid(p.cid), chunk_lba, n));
    if opcode == OPC_WRITE {
        seq![RegOp::BufferToDma { offset, len: n as usize }]
            + spec_maintain_ops(NVME_READ_DMA_BASE as usize, n as usize, true) + cmd
    } else {
        cmd + spec_maintain_ops(NVME_READ_DMA_BASE as usize, n as usize, false)
            + seq![RegOp::DmaToBuffer { offset, len: n as usize }]
    }
}

/// Chunk `k` of a `len`-byte transfer at `lba` from state `p`.
pub open spec fn spec_chunk_ops(p: NvmeState, opcode: u8, lba: u64, len: int, k: int) -> Seq<RegOp> {
    spec_chunk_io_ops(p, opcode, (lba + 8 * k) as u64, (4096 * k) as usize, chunk_bytes(len, k))
}

/// The first `k` chunks of a transfer from state `s`.
pub open spec fn spec_transfer_ops(s: NvmeState, opcode: u8, lba: u64, len: int, k: nat) -> Seq<RegOp>
    decreases k,
{
    if k == 0 {
        Seq::empty()
    } else {
        spec_transfer_ops(s, opcode, lba, len, (k - 1) as nat) + spec_chunk_ops(
            io_after(s, (k - 1) as nat),
            opcode,
            lba,
            len,
            k - 1,
        )
    }
}

/// Across a transfer, the `k`-th command carries the `k`-th identifier after the last one
/// issued and the submission tail and completion head advance one slot per chunk (modulo
/// the 64-entry queues); the admin queue and the doorbell stride are untouched.
pub proof fn transfer_state_advances(s: NvmeState, k: nat)
    requires
        s.iosq_tail < 64,
        s.iocq_head < 64,
    ensures
        io_after(s, k).cid == (s.cid + k) % 65536,
        io_after(s, k).iosq_tail == (s.iosq_tail + k) % 64,
        io_after(s, k).iocq_head == (s.iocq_head + k) % 64,
        io_after(s, k).dstrd == s.dstrd,
        io_after(s, k).asq_tail == s.asq_tail,
        io_after(s, k).acq_head == s.acq_head,
        io_after(s, k).acq_phase == s.acq_phase,
    decreases k,
{
    if k > 0 {
        transfer_state_advances(s, (k - 1) as nat);
        let p = io_after(s, (k - 1) as nat);
        assert(next_cid(p.cid) == (s.cid + k) % 65536) by (nonlinear_arith)
            requires
                p.cid == (s.cid + (k - 1)) % 65536,
                next_cid(p.cid) == (if p.cid == 65535 { 0 } else { p.cid + 1 }),
                0 <= s.cid < 65536,
                k > 0,
        ;
        assert(next_tail(p.iosq_tail, 64) == (s.iosq_tail + k) % 64) by (nonlinear_arith)
            requires
                p.iosq_tail == (s.iosq_tail + (k - 1)) % 64,
                next_tail(p.iosq_tail, 64) == (p.iosq_tail + 1) % 64,
                k > 0,
        ;
        assert(next_cq(p.iocq_head, p.iocq_phase, 64).0 == (s.iocq_head + k) % 64) by (nonlinear_arith)
            requires
                p.iocq_head == (s.iocq_head + (k - 1)) % 64,
                next_cq(p.iocq_head, p.iocq_phase, 64).0 == (p.iocq_head + 1) % 64,
                k > 0,
        ;
    }
}

/// An I/O command rings the I/O queue pair's doorbells and no other register: the only
/// register writes are the new submission tail to the I/O SQ doorbell (at `8 << dstrd` from
/// the doorbell base), then the new completion head to the I/O CQ doorbell (at
/// `12 << dstrd`); the admin doorbells (at 0 and `4 << dstrd`) are not written.
pub proof fn io_command_rings_io_doorbells(s: NvmeState, sqe: Sqe)
    requires
        s.dstrd < 16,
    ensures
        ({
            let ops = spec_io_command_ops(s, sqe);
            let step = 4 * pow2_u(s.dstrd as nat);
            &&& forall|j: int| 0 <= j < ops.len() ==> (#[trigger] ops[j] matches RegOp::Write { addr, value } ==> (
                addr == NVME_DOORBELL_BASE + 2 * step && value == next_tail(s.iosq_tail, 64)) || (addr
                == NVME_DOORBELL_BASE + 3 * step && value == next_cq(s.iocq_head, s.iocq_phase, 64).0))
            &&& forall|j: int| 0 <= j < ops.len() ==> (#[trigger] ops[j] matches RegOp::Write { addr, .. } ==> addr
                != NVME_DOORBELL_BASE && addr != NVME_DOORBELL_BASE + step)
            &&& exists|j1: int, j2: int| 0 <= j1 < j2 < ops.len() && #[trigger] ops[j1] == (RegOp::Write {
                addr: (NVME_DOORBELL_BASE + 2 * step) as u32,
                value: next_tail(s.iosq_tail, 64),
            }) && #[trigger] ops[j2] == (RegOp::Write {
                addr: (NVME_DOORBELL_BASE + 3 * step) as u32,
                value: next_cq(s.iocq_head, s.iocq_phase, 64).0,
            })
        }),
{
    doorbells_are_distinct(s.dstrd);
    lemma_doorbell_bound(s.dstrd, IO_QID, false);
    lemma_doorbell_bound(s.dstrd, IO_QID, true);
    let slot = (NVME_IOSQ_BASE + s.iosq_tail * SQE_BYTES) as u64;
    let m = spec_maintain_ops(slot as usize, 64, true);
    maintain_ops_are_cache_only(slot as usize, 64, true);
    let ops = spec_io_command_ops(s, sqe);
    let n = m.len() as int;
    assert(ops.len() == n + 4);
    assert forall|j: int| 0 <= j < ops.len() implies (#[trigger] ops[j] matches RegOp::Write { addr, value } ==> (
        addr == NVME_DOORBELL_BASE + 2 * (4 * pow2_u(s.dstrd as nat)) && value == next_tail(s.iosq_tail, 64)) || (
        addr == NVME_DOORBELL_BASE + 3 * (4 * pow2_u(s.dstrd as nat)) && value == next_cq(
            s.iocq_head,
            s.iocq_phase,
            64,
        ).0)) && (ops[j] matches RegOp::Write { addr, .. } ==> addr != NVME_DOORBELL_BASE && addr
        != NVME_DOORBELL_BASE + 4 * pow2_u(s.dstrd as nat)) by {
        if 1 <= j < 1 + n {
            assert(ops[j] == m[j - 1]);
        }
    }
    assert(ops[n + 1] == (RegOp::Write {
        addr: (NVME_DOORBELL_BASE + 2 * (4 * pow2_u(s.dstrd as nat))) as u32,
        value: next_tail(s.iosq_tail, 64),
    }));
    assert(ops[n + 3] == (RegOp::Write {
        addr: (NVME_DOORBELL_BASE + 3 * (4 * pow2_u(s.dstrd as nat))) as u32,
        value: next_cq(s.iocq_head, s.iocq_phase, 64).0,
    }));
}

proof fn lemma_io_after_dstrd(s: NvmeState, k: nat)
    ensures
        io_after(s, k).dstrd == s.dstrd,
    decreases k,
{
    if k > 0 {
        lemma_io_after_dstrd(s, (k - 1) as nat);
    }
}

/// The doorbell registers written by a transfer.
pub open spec fn writes_only_io_doorbells(ops: Seq<RegOp>, dstrd: u8) -> bool {
    forall|j: int| 0 <= j < ops.len() ==> (#[trigger] ops[j] matches RegOp::Write { addr, .. } ==> addr
        == NVME_DOORBELL_BASE + 2 * (4 * pow2_u(dstrd as nat)) || addr == NVME_DOORBELL_BASE + 3 * (4 * pow2_u(
        dstrd as nat,
    )))
}

/// A read or write of any length writes no register but the I/O queue pair's doorbells: no
/// admin doorbell and no other register is touched by its commands, copies or cache
/// maintenance.
pub proof fn transfer_rings_only_io_doorbells(s: NvmeState, opcode: u8, lba: u64, len: int, k: nat)
    requires
        s.dstrd < 16,
    ensures
        writes_only_io_doorbells(spec_transfer_ops(s, opcode, lba, len, k), s.dstrd),
    decreases k,
{
    if k > 0 {
        transfer_rings_only_io_doorbells(s, opcode, lba, len, (k - 1) as nat);
        let prev = spec_transfer_ops(s, opcode, lba, len, (k - 1) as nat);
        let p = io_after(s, (k - 1) as nat);
        lemma_io_after_dstrd(s, (k - 1) as nat);
        let n = chunk_bytes(len, k - 1);
        let clba = (lba + 8 * (k - 1)) as u64;
        let sqe = spec_io_sqe(opcode, next_cid(p.cid), clba, n);
        io_command_rings_io_doorbells(p, sqe);
        let cmd = spec_io_command_ops(p, sqe);
        let m = spec_maintain_ops(NVME_READ_DMA_BASE as usize, n as usize, opcode == OPC_WRITE);
        maintain_ops_are_cache_only(NVME_READ_DMA_BASE as usize, n as usize, opcode == OPC_WRITE);
        let chunk = spec_chunk_ops(p, opcode, lba, len, k - 1);
        assert(writes_only_io_doorbells(cmd, s.dstrd));
        assert(writes_only_io_doorbells(m, s.dstrd)) by {
            assert forall|j: int| 0 <= j < m.len() implies (#[trigger] m[j] matches RegOp::Write { addr, .. } ==> addr
                == NVME_DOORBELL_BASE + 2 * (4 * pow2_u(s.dstrd as nat)) || addr == NVME_DOORBELL_BASE + 3 * (4
                * pow2_u(s.dstrd as nat))) by {
                let op = m[j];
                assert(op is CboClean || op is CboInval || op is Fence || op is FenceI);
            }
        }
        assert(writes_only_io_doorbells(chunk, s.dstrd)) by {
            if opcode == OPC_WRITE {
                let c0 = seq![RegOp::BufferToDma { offset: (4096 * (k - 1)) as usize, len: n as usize }];
                assert(chunk == c0 + m + cmd);
                lemma_concat_writes(c0, m, s.dstrd);
                lemma_concat_writes(c0 + m, cmd, s.dstrd);
            } else {
                let c2 = seq![RegOp::DmaToBuffer { offset: (4096 * (k - 1)) as usize, len: n as usize }];
                assert(chunk == cmd + m + c2);
                lemma_concat_writes(cmd, m, s.dstrd);
                lemma_concat_writes(cmd + m, c2, s.dstrd);
            }
        }
        lemma_concat_writes(prev, chunk, s.dstrd);
    }
}

proof fn lemma_concat_writes(a: Seq<RegOp>, b: Seq<RegOp>, dstrd: u8)
    requires
        writes_only_io_doorbells(a, dstrd) || a.len() == 1 && !(a[0] is Write),
        writes_only_io_doorbells(b, dstrd) || b.len() == 1 && !(b[0] is Write),
    ensures
        writes_only_io_doorbells(a + b, dstrd),
{
    assert forall|j: int| 0 <= j < (a + b).len() implies (#[trigger] (a + b)[j] matches RegOp::Write { addr, .. }
        ==> addr == NVME_DOORBELL_BASE + 2 * (4 * pow2_u(dstrd as nat)) || addr == NVME_DOORBELL_BASE + 3 * (4
        * pow2_u(dstrd as nat))) by {
        if j < a.len() {
            assert((a + b)[j] == a[j]);
        } else {
            assert((a + b)[j] == b[j - a.len()]);
        }
    }
}

/// No operation of `ops` selects another copy buffer.
pub open spec fn keeps_buffer(ops: Seq<RegOp>) -> bool {
    forall|j: int| 0 <= j < ops.len() ==> !(#[trigger] ops[j] is UseBuffer)
}

proof fn lemma_concat_keeps_buffer(a: Seq<RegOp>, b: Seq<RegOp>)
    requires
        keeps_buffer(a),
        keeps_buffer(b),
    ensures
        keeps_buffer(a + b),
{
    assert forall|j: int| 0 <= j < (a + b).len() implies !(#[trigger] (a + b)[j] is UseBuffer) by {
        if j < a.len() {
            assert((a + b)[j] == a[j]);
        } else {
            assert((a + b)[j] == b[j - a.len()]);
        }
    }
}

proof fn lemma_maintain_keeps_buffer(start: usize, len: usize, clean: bool)
    ensures
        keeps_buffer(spec_maintain_ops(start, len, clean)),
{
    maintain_ops_are_cache_only(start, len, clean);
    let m = spec_maintain_ops(start, len, clean);
    assert forall|j: int| 0 <= j < m.len() implies !(#[trigger] m[j] is UseBuffer) by {
        let op = m[j];
        assert(op is CboClean || op is CboInval || op is Fence || op is FenceI);
    }
}

/// A transfer copies to and from the buffer selected before it: none of its operations
/// selects another buffer.
pub proof fn transfer_keeps_buffer(s: NvmeState, opcode: u8, lba: u64, len: int, k: nat)
    ensures
        keeps_buffer(spec_transfer_ops(s, opcode, lba, len, k)),
    decreases k,
{
    if k > 0 {
        transfer_keeps_buffer(s, opcode, lba, len, (k - 1) as nat);
        let p = io_after(s, (k - 1) as nat);
        let n = chunk_bytes(len, k - 1);
        let clba = (lba + 8 * (k - 1)) as u64;
        let sqe = spec_io_sqe(opcode, next_cid(p.cid), clba, n);
        let slot = (NVME_IOSQ_BASE + p.iosq_tail * SQE_BYTES) as u64;
        let cm = spec_maintain_ops(slot as usize, 64, true);
        lemma_maintain_keeps_buffer(slot as usize, 64, true);
        let tail = seq![
            RegOp::Write {
                addr: (NVME_DOORBELL_BASE + spec_doorbell_offset(p.dstrd, IO_QID, false)) as u32,
                value: next_tail(p.iosq_tail, 64),
            },
            RegOp::WaitCqe { slot: (NVME_IOCQ_BASE + p.iocq_head * CQE_BYTES) as u64, phase: p.iocq_phase },
            RegOp::Write {
                addr: (NVME_DOORBELL_BASE + spec_doorbell_offset(p.dstrd, IO_QID, true)) as u32,
                value: next_cq(p.iocq_head, p.iocq_phase, 64).0,
            },
        ];
        let head = seq![RegOp::StoreSqe { slot, sqe }];
        assert(keeps_buffer(head));
        assert(keeps_buffer(tail));
        lemma_concat_keeps_buffer(head, cm);
        lemma_concat_keeps_buffer(head + cm, tail);
        let cmd = spec_io_command_ops(p, sqe);
        assert(cmd == head + cm + tail);
        let m = spec_maintain_ops(NVME_READ_DMA_BASE as usize, n as usize, opcode == OPC_WRITE);
        lemma_maintain_keeps_buffer(NVME_READ_DMA_BASE as usize, n as usize, opcode == OPC_WRITE);
        let chunk = spec_chunk_ops(p, opcode, lba, len, k - 1);
        if opcode == OPC_WRITE {
            let c0 = seq![RegOp::BufferToDma { offset: (4096 * (k - 1)) as usize, len: n as usize }];
            assert(keeps_buffer(c0));
            lemma_concat_keeps_buffer(c0, m);
            lemma_concat_keeps_buffer(c0 + m, cmd);
            assert(chunk == c0 + m + cmd);
        } else {
            let c2 = seq![RegOp::DmaToBuffer { offset: (4096 * (k - 1)) as usize, len: n as usize }];
            assert(keeps_buffer(c2));
            lemma_concat_keeps_buffer(cmd, m);
            lemma_concat_keeps_buffer(cmd + m, c2);
            assert(chunk == cmd + m + c2);
        }
        lemma_concat_keeps_buffer(spec_transfer_ops(s, opcode, lba, len, (k - 1) as nat), chunk);
    }
}

impl View for Nvme {
    type V = NvmeState;

    closed spec fn view(&self) -> NvmeState {
        NvmeState {
            cid: self.cid,
            dstrd: self.dstrd,
            asq_tail: self.asq_tail,
            acq_head: self.acq_head,
            acq_phase: self.acq_phase,
            iosq_tail: self.iosq_tail,
            iocq_head: self.iocq_head,
            iocq_phase: self.iocq_phase,
        }
    }
}

impl Nvme {
    /// Logical block size in bytes.
    pub const LBA_BYTES: usize = 512;
    /// Transfer chunk in LBAs (4 KiB).
    pub const CHUNK_LBAS: usize = 8;
    /// Transfer chunk in bytes.
    pub const CHUNK_BYTES: usize = 4096;
    /// Namespace used for I/O.
    pub const NSID: u32 = 1;

    /// The queue positions are inside their queues and the phase tags are bits.
    pub open spec fn wf(&self) -> bool {
        &&& self@.dstrd < 16
        &&& self@.asq_tail < ASQ_SIZE
        &&& self@.acq_head < ACQ_SIZE
        &&& self@.acq_phase <= 1
        &&& self@.iosq_tail < IOSQ_SIZE
        &&& self@.iocq_head < IOCQ_SIZE
        &&& self@.iocq_phase <= 1
    }

    /// Set up the I/O queues on a controller that `init_controller` has enabled and whose
    /// CAP register then reads `cap`: from empty queues with phase tags 1 and the doorbell
    /// stride CAP.DSTRD (bits 35..32), append Create I/O Completion Queue (command 1) and
    /// Create I/O Submission Queue (command 2) as admin commands.
    pub fn open(plan: &mut Vec<RegOp>, cap: u64) -> (nvme: Self)
        ensures
            nvme.wf(),
            nvme@ == (NvmeState { cid: 2, asq_tail: 2, acq_head: 2, ..fresh_state(((cap >> 32u64) & 0xF) as u8) }),
            final(plan)@ == old(plan)@ + spec_admin_command_ops(
                fresh_state(((cap >> 32u64) & 0xF) as u8),
                spec_create_io_cq_sqe(1),
            ) + spec_admin_command_ops(
                after_admin(fresh_state(((cap >> 32u64) & 0xF) as u8)),
                spec_create_io_sq_sqe(2),
            ),
    {
        let d = (cap >> 32u64) & 0xF;
        assert(((cap >> 32u64) & 0xF) < 16) by (bit_vector);
        let mut nvme = Nvme {
            cid: 0,
            dstrd: d as u8,
            asq_tail: 0,
            acq_head: 0,
            acq_phase: 1,
            iosq_tail: 0,
            iocq_head: 0,
            iocq_phase: 1,
        };
        let ghost head = plan@;
        let ghost s0 = fresh_state(d as u8);
        let sqe = nvme.create_io_cq();
        nvme.send_admin_sqe(plan, sqe);
        let sqe = nvme.create_io_sq();
        nvme.send_admin_sqe(plan, sqe);
        assert(plan@ =~= head + spec_admin_command_ops(s0, spec_create_io_cq_sqe(1)) + spec_admin_command_ops(
            after_admin(s0),
            spec_create_io_sq_sqe(2),
        ));
        nvme
    }

    /// Submit `sqe` on the admin queue and wait for its completion.
    pub fn send_admin_sqe(&mut self, plan: &mut Vec<RegOp>, sqe: Sqe)
        requires
            old(self).wf(),
        ensures
            final(self).wf(),
            final(self)@ == after_admin(old(self)@),
            final(plan)@ == old(plan)@ + spec_admin_command_ops(old(self)@, sqe),
    {
        let ghost s0 = self@;
        let ghost head = plan@;
        let sub = self.submit_admin();
        plan.push(RegOp::StoreSqe { slot: sub.slot, sqe });
        assert(sub.slot < 0x1_0000_0000);
        clean(plan, sub.slot as usize, 64);
        proof {
            lemma_doorbell_bound(s0.dstrd, ADMIN_QID, false);
            lemma_doorbell_bound(s0.dstrd, ADMIN_QID, true);
        }
        plan.push(RegOp::Write { addr: NVME_DOORBELL_BASE + sub.doorbell.offset, value: sub.doorbell.value });
        let (cq_slot, phase) = self.admin_cq_slot();
        plan.push(RegOp::WaitCqe { slot: cq_slot, phase });
        let d = self.complete_admin();
        plan.push(RegOp::Write { addr: NVME_DOORBELL_BASE + d.offset, value: d.value });
        assert(plan@ =~= head + spec_admin_command_ops(s0, sqe));
    }

    /// Submit `sqe` on the I/O queue and wait for its completion.
    pub fn send_io_sqe(&mut self, plan: &mut Vec<RegOp>, sqe: Sqe)
        requires
            old(self).wf(),
        ensures
            final(self).wf(),
            final(self)@ == after_io(old(self)@),
            final(plan)@ == old(plan)@ + spec_io_command_ops(old(self)@, sqe),
    {
        let ghost s0 = self@;
        let ghost head = plan@;
        let sub = self.submit_io();
        plan.push(RegOp::StoreSqe { slot: sub.slot, sqe });
        assert(sub.slot < 0x1_0000_0000);
        clean(plan, sub.slot as usize, 64);
        proof {
            lemma_doorbell_bound(s0.dstrd, IO_QID, false);
            lemma_doorbell_bound(s0.dstrd, IO_QID, true);
        }
        plan.push(RegOp::Write { addr: NVME_DOORBELL_BASE + sub.doorbell.offset, value: sub.doorbell.value });
        let (cq_slot, phase) = self.io_cq_slot();
        plan.push(RegOp::WaitCqe { slot: cq_slot, phase });
        let d = self.complete_io();
        plan.push(RegOp::Write { addr: NVME_DOORBELL_BASE + d.offset, value: d.value });
        assert(plan@ =~= head + spec_io_command_ops(s0, sqe));
    }

    /// The next command identifier (wrapping).
    pub fn alloc_cid(&mut self) -> (cid: u16)
        ensures
            cid == (if old(self)@.cid == u16::MAX { 0 } else { old(self)@.cid + 1 }),
            final(self)@ == (NvmeState { cid, ..old(self)@ }),
    {
        self.cid = self.cid.wrapping_add(1);
        self.cid
    }

    /// Admin Create I/O Completion Queue (64 entries at the I/O CQ area, contiguous).
    pub fn create_io_cq(&mut self) -> (sqe: Sqe)
        ensures
            final(self)@.cid == (if old(self)@.cid == u16::MAX { 0 } else { old(self)@.cid + 1 }),
            final(self)@ == (NvmeState { cid: final(self)@.cid, ..old(self)@ }),
            sqe == spec_create_io_cq_sqe(final(self)@.cid),
            sqe.cdw0.opcode == OPC_CREATE_IO_CQ && sqe.cdw0.psdt_fuse == 0 && sqe.cdw0.cid == final(self)@.cid,
            sqe.nsid == 0 && sqe.prp1 == NVME_IOCQ_BASE && sqe.prp2 == 0,
            sqe.cdw10 == ((IOCQ_SIZE - 1) * 65536 + IO_QID) && sqe.cdw11 == 1,
            sqe.rsvd == 0 && sqe.mptr == 0 && sqe.cdw12 == 0 && sqe.cdw13 == 0 && sqe.cdw14 == 0 && sqe.cdw15 == 0,
    {
        let cid = self.alloc_cid();
        proof { crate::bits::shift_constants(); }
        Sqe {
            cdw0: SqeCw0 { opcode: OPC_CREATE_IO_CQ, psdt_fuse: 0, cid },
            nsid: 0,
            rsvd: 0,
            mptr: 0,
            prp1: NVME_IOCQ_BASE,
            prp2: 0,
            cdw10: ((IOCQ_SIZE - 1) << 16u32) | IO_QID,
            cdw11: 0x0000_0001,
            cdw12: 0,
            cdw13: 0,
            cdw14: 0,
            cdw15: 0,
        }
    }

    /// Admin Create I/O Submission Queue (64 entries at the I/O SQ area, contiguous, bound
    /// to the I/O completion queue).
    pub fn create_io_sq(&mut self) -> (sqe: Sqe)
        ensures
            final(self)@.cid == (if old(self)@.cid == u16::MAX { 0 } else { old(self)@.cid + 1 }),
            final(self)@ == (NvmeState { cid: final(self)@.cid, ..old(self)@ }),
            sqe == spec_create_io_sq_sqe(final(self)@.cid),
            sqe.cdw0.opcode == OPC_CREATE_IO_SQ && sqe.cdw0.psdt_fuse == 0 && sqe.cdw0.cid == final(self)@.cid,
            sqe.nsid == 0 && sqe.prp1 == NVME_IOSQ_BASE && sqe.prp2 == 0,
            sqe.cdw10 == ((IOSQ_SIZE - 1) * 65536 + IO_QID) && sqe.cdw11 == IO_QID * 65536 + 1,
            sqe.rsvd == 0 && sqe.mptr == 0 && sqe.cdw12 == 0 && sqe.cdw13 == 0 && sqe.cdw14 == 0 && sqe.cdw15 == 0,
    {
        let cid = self.alloc_cid();
        proof { crate::bits::shift_constants(); }
        Sqe {
            cdw0: SqeCw0 { opcode: OPC_CREATE_IO_SQ, psdt_fuse: 0, cid },
            nsid: 0,
            rsvd: 0,
            mptr: 0,
            prp1: NVME_IOSQ_BASE,
            prp2: 0,
            cdw10: ((IOSQ_SIZE - 1) << 16u32) | IO_QID,
            cdw11: (IO_QID << 16u32) | 0x0000_0001,
            cdw12: 0,
            cdw13: 0,
            cdw14: 0,
            cdw15: 0,
        }
    }

    /// An I/O Read or Write of `len` bytes at `lba` through the DMA data page.
    fn io_sqe(&mut self, opcode: u8, lba: u64, len: usize) -> (sqe: Sqe)
        requires
            512 <= len <= 4096,
            len % 512 == 0,
        ensures
            final(self)@.cid == (if old(self)@.cid == u16::MAX { 0 } else { old(self)@.cid + 1 }),
            final(self)@ == (NvmeState { cid: final(self)@.cid, ..old(self)@ }),
            sqe == spec_io_sqe(opcode, final(self)@.cid, lba, len as int),
            sqe.cdw0.opcode == opcode && sqe.cdw0.psdt_fuse == 0 && sqe.cdw0.cid == final(self)@.cid,
            sqe.nsid == 1 && sqe.prp1 == NVME_READ_DMA_BASE && sqe.prp2 == NVME_READ_DMA_PRP2,
            sqe.cdw10 == lba % 0x1_0000_0000 && sqe.cdw11 == lba / 0x1_0000_0000,
            sqe.cdw12 == len / 512 - 1,
            sqe.rsvd == 0 && sqe.mptr == 0 && sqe.cdw13 == 0 && sqe.cdw14 == 0 && sqe.cdw15 == 0,
    {
        let cid = self.alloc_cid();
        assert((lba as u32) == lba % 0x1_0000_0000) by (bit_vector);
        assert(((lba >> 32u64) as u32) == lba / 0x1_0000_0000) by (bit_vector);
        Sqe {
            cdw0: SqeCw0 { opcode, psdt_fuse: 0, cid },
            nsid: Self::NSID,
            rsvd: 0,
            mptr: 0,
            prp1: NVME_READ_DMA_BASE,
            prp2: NVME_READ_DMA_PRP2,
            cdw10: lba as u32,
            cdw11: (lba >> 32u64) as u32,
            cdw12: (len / Self::LBA_BYTES - 1) as u32,
            cdw13: 0,
            cdw14: 0,
            cdw15: 0,
        }
    }

    /// Read one chunk of `len` bytes at `lba` into the caller's buffer at `offset`.
    pub fn read_chunk(&mut self, plan: &mut Vec<RegOp>, lba: u64, offset: usize, len: usize)
        requires
            old(self).wf(),
            512 <= len <= 4096,
            len % 512 == 0,
        ensures
            final(self).wf(),
            final(self)@ == after_io(NvmeState { cid: next_cid(old(self)@.cid), ..old(self)@ }),
            final(plan)@ == old(plan)@ + spec_chunk_io_ops(old(self)@, OPC_READ, lba, offset, len as int),
    {
        let ghost head = plan@;
        let sqe = self.io_sqe(OPC_READ, lba, len);
        self.send_io_sqe(plan, sqe);
        inval(plan, NVME_READ_DMA_BASE as usize, len);
        plan.push(RegOp::DmaToBuffer { offset, len });
        assert(plan@ =~= head + spec_chunk_io_ops(old(self)@, OPC_READ, lba, offset, len as int));
    }

    /// Write one chunk of `len` bytes from the caller's buffer at `offset` to `lba`.
    pub fn write_chunk(&mut self, plan: &mut Vec<RegOp>, lba: u64, offset: usize, len: usize)
        requires
            old(self).wf(),
            512 <= len <= 4096,
            len % 512 == 0,
        ensures
            final(self).wf(),
            final(self)@ == after_io(NvmeState { cid: next_cid(old(self)@.cid), ..old(self)@ }),
            final(plan)@ == old(plan)@ + spec_chunk_io_ops(old(self)@, OPC_WRITE, lba, offset, len as int),
    {
        let ghost head = plan@;
        plan.push(RegOp::BufferToDma { offset, len });
        clean(plan, NVME_READ_DMA_BASE as usize, len);
        let sqe = self.io_sqe(OPC_WRITE, lba, len);
        self.send_io_sqe(plan, sqe);
        assert(plan@ =~= head + spec_chunk_io_ops(old(self)@, OPC_WRITE, lba, offset, len as int));
    }

    /// Submit on the admin queue: the slot at the current tail, then the tail advances
    /// and the new tail is rung on the admin SQ doorbell.
    pub fn submit_admin(&mut self) -> (s: Submission)
        requires
            old(self).wf(),
        ensures
            final(self).wf(),
            s.slot == NVME_ASQ_BASE + old(self)@.asq_tail * SQE_BYTES,
            final(self)@.asq_tail == next_tail(old(self)@.asq_tail, ASQ_SIZE),
            final(self)@ == (NvmeState { asq_tail: final(self)@.asq_tail, ..old(self)@ }),
            s.doorbell.offset == spec_doorbell_offset(old(self)@.dstrd, ADMIN_QID, false),
            s.doorbell.value == final(self)@.asq_tail,
    {
        let slot = NVME_ASQ_BASE + self.asq_tail as u64 * SQE_BYTES;
        self.asq_tail = (self.asq_tail + 1) % ASQ_SIZE;
        let offset = doorbell_offset(self.dstrd, ADMIN_QID, false);
        Submission { slot, doorbell: Doorbell { offset, value: self.asq_tail } }
    }

    /// Submit on the I/O queue, as for the admin queue.
    pub fn submit_io(&mut self) -> (s: Submission)
        requires
            old(self).wf(),
        ensures
            final(self).wf(),
            s.slot == NVME_IOSQ_BASE + old(self)@.iosq_tail * SQE_BYTES,
            final(self)@.iosq_tail == next_tail(old(self)@.iosq_tail, IOSQ_SIZE),
            final(self)@ == (NvmeState { iosq_tail: final(self)@.iosq_tail, ..old(self)@ }),
            s.doorbell.offset == spec_doorbell_offset(old(self)@.dstrd, IO_QID, false),
            s.doorbell.value == final(self)@.iosq_tail,
    {
        let slot = NVME_IOSQ_BASE + self.iosq_tail as u64 * SQE_BYTES;
        self.iosq_tail = (self.iosq_tail + 1) % IOSQ_SIZE;
        let offset = doorbell_offset(self.dstrd, IO_QID, false);
        Submission { slot, doorbell: Doorbell { offset, value: self.iosq_tail } }
    }

    /// The admin completion slot to poll and the phase tag that marks it complete.
    pub fn admin_cq_slot(&self) -> (r: (u64, u8))
        requires
            self.wf(),
        ensures
            r.0 == NVME_ACQ_BASE + self@.acq_head * CQE_BYTES,
            r.1 == self@.acq_phase,
    {
        (NVME_ACQ_BASE + self.acq_head as u64 * CQE_BYTES, self.acq_phase)
    }

    /// The I/O completion slot to poll and the phase tag that marks it complete.
    pub fn io_cq_slot(&self) -> (r: (u64, u8))
        requires
            self.wf(),
        ensures
            r.0 == NVME_IOCQ_BASE + self@.iocq_head * CQE_BYTES,
            r.1 == self@.iocq_phase,
    {
        (NVME_IOCQ_BASE + self.iocq_head as u64 * CQE_BYTES, self.iocq_phase)
    }

    /// Consume one admin completion: the head advances, the phase flips on wrap, and the new
    /// head is rung on the admin CQ doorbell.
    pub fn complete_admin(&mut self) -> (d: Doorbell)
        requires
            old(self).wf(),
        ensures
            final(self).wf(),
            (final(self)@.acq_head, final(self)@.acq_phase) == next_cq(old(self)@.acq_head, old(self)@.acq_phase, ACQ_SIZE),
            final(self)@ == (NvmeState {
                acq_head: final(self)@.acq_head,
                acq_phase: final(self)@.acq_phase,
                ..old(self)@
            }),
            d.offset == spec_doorbell_offset(old(self)@.dstrd, ADMIN_QID, true),
            d.value == final(self)@.acq_head,
    {
        self.acq_head = (self.acq_head + 1) % ACQ_SIZE;
        if self.acq_head == 0 {
            proof { crate::bits::shift_constants(); }
            self.acq_phase = self.acq_phase ^ 1;
        }
        Doorbell { offset: doorbell_offset(self.dstrd, ADMIN_QID, true), value: self.acq_head }
    }

    /// Consume one I/O completion, as for the admin queue.
    pub fn complete_io(&mut self) -> (d: Doorbell)
        requires
            old(self).wf(),
        ensures
            final(self).wf(),
            (final(self)@.iocq_head, final(self)@.iocq_phase) == next_cq(old(self)@.iocq_head, old(self)@.iocq_phase, IOCQ_SIZE),
            final(self)@ == (NvmeState {
                iocq_head: final(self)@.iocq_head,
                iocq_phase: final(self)@.iocq_phase,
                ..old(self)@
            }),
            d.offset == spec_doorbell_offset(old(self)@.dstrd, IO_QID, true),
            d.value == final(self)@.iocq_head,
    {
        self.iocq_head = (self.iocq_head + 1) % IOCQ_SIZE;
        if self.iocq_head == 0 {
            proof { crate::bits::shift_constants(); }
            self.iocq_phase = self.iocq_phase ^ 1;
        }
        Doorbell { offset: doorbell_offset(self.dstrd, IO_QID, true), value: self.iocq_head }
    }

    /// The 4 KiB chunks of a transfer of `len` bytes starting at `lba`: chunk `i` starts at
    /// LBA `lba + 8 i` and covers bytes `4096 i .. min(4096 (i + 1), len)`.
    pub fn chunks(lba: u64, len: usize) -> (v: Vec<ChunkIo>)
        requires
            lba + 8 * (len / 4096 + 1) <= u64::MAX,
        ensures
            v@.len() == (len + 4095) / 4096,
            forall|i: int| 0 <= i < v@.len() ==> {
                &&& (#[trigger] v@[i]).lba == lba + 8 * i
                &&& v@[i].offset == 4096 * i
                &&& v@[i].len == (if len - 4096 * i < 4096 { len - 4096 * i } else { 4096 })
            },
    {
        let mut v: Vec<ChunkIo> = Vec::new();
        let mut off: usize = 0;
        let mut cur: u64 = lba;
        let ghost mut i: int = 0;
        while off < len
            invariant
                lba + 8 * (len / 4096 + 1) <= u64::MAX,
                off == 4096 * i,
                cur == lba + 8 * i,
                0 <= i,
                off <= len || (i > 0 && off - 4096 < len),
                v@.len() == i,
                i <= (len + 4095) / 4096,
                forall|k: int| 0 <= k < v@.len() ==> {
                    &&& (#[trigger] v@[k]).lba == lba + 8 * k
                    &&& v@[k].offset == 4096 * k
                    &&& v@[k].len == (if len - 4096 * k < 4096 { len - 4096 * k } else { 4096 })
                },
            decreases len - off,
        {
            let left = len - off;
            let n = if left < Self::CHUNK_BYTES { left } else { Self::CHUNK_BYTES };
            v.push(ChunkIo { lba: cur, offset: off, len: n });
            proof {
                i = i + 1;
            }
            if left <= Self::CHUNK_BYTES {
                assert(i == (len + 4095) / 4096);
                return v;
            }
            off = off + Self::CHUNK_BYTES;
            cur = cur + Self::CHUNK_LBAS as u64;
        }
        v
    }

    /// Read `len` bytes at `lba` into the caller's buffer: for each 4 KiB chunk, in order,
    /// a Read command (the next command identifier) into the DMA data page, its completion,
    /// the data page invalidated from the cache, and the chunk copied to its place in the
    /// buffer.
    pub fn read(&mut self, plan: &mut Vec<RegOp>, lba: u64, len: usize)
        requires
            old(self).wf(),
            len % 512 == 0,
            lba + 8 * (len / 4096 + 1) <= u64::MAX,
        ensures
            final(self).wf(),
            final(self)@ == io_after(old(self)@, chunk_total(len as int)),
            final(plan)@ == old(plan)@ + spec_transfer_ops(old(self)@, OPC_READ, lba, len as int, chunk_total(len as int)),
    {
        self.transfer(plan, OPC_READ, lba, len);
    }

    /// Write `len` bytes from the caller's buffer at `lba`: for each 4 KiB chunk, in order,
    /// the chunk copied into the DMA data page, the page cleaned from the cache, a Write
    /// command (the next command identifier), and its completion.
    pub fn write(&mut self, plan: &mut Vec<RegOp>, lba: u64, len: usize)
        requires
            old(self).wf(),
            len % 512 == 0,
            lba + 8 * (len / 4096 + 1) <= u64::MAX,
        ensures
            final(self).wf(),
            final(self)@ == io_after(old(self)@, chunk_total(len as int)),
            final(plan)@ == old(plan)@ + spec_transfer_ops(old(self)@, OPC_WRITE, lba, len as int, chunk_total(len as int)),
    {
        self.transfer(plan, OPC_WRITE, lba, len);
    }

    fn transfer(&mut self, plan: &mut Vec<RegOp>, opcode: u8, lba: u64, len: usize)
        requires
            old(self).wf(),
            opcode == OPC_READ || opcode == OPC_WRITE,
            len % 512 == 0,
            lba + 8 * (len / 4096 + 1) <= u64::MAX,
        ensures
            final(self).wf(),
            final(self)@ == io_after(old(self)@, chunk_total(len as int)),
            final(plan)@ == old(plan)@ + spec_transfer_ops(old(self)@, opcode, lba, len as int, chunk_total(len as int)),
    {
        let ghost s0 = self@;
        let ghost head = plan@;
        let chunks = Self::chunks(lba, len);
        let mut k: usize = 0;
        while k < chunks.len()
            invariant
                self.wf(),
                opcode == OPC_READ || opcode == OPC_WRITE,
                len % 512 == 0,
                k <= chunks@.len(),
                chunks@.len() == chunk_total(len as int),
                forall|i: int| 0 <= i < chunks@.len() ==> {
                    &&& (#[trigger] chunks@[i]).lba == lba + 8 * i
                    &&& chunks@[i].offset == 4096 * i
                    &&& chunks@[i].len == chunk_bytes(len as int, i)
                },
                self@ == io_after(s0, k as nat),
                plan@ == head + spec_transfer_ops(s0, opcode, lba, len as int, k as nat),
            decreases chunks@.len() - k,
        {
            let c = chunks[k];
            assert(c.len % 512 == 0 && 512 <= c.len <= 4096) by (nonlinear_arith)
                requires
                    c.len == chunk_bytes(len as int, k as int),
                    len % 512 == 0,
                    0 <= k < (len + 4095) / 4096,
            ;
            if opcode == OPC_WRITE {
                self.write_chunk(plan, c.lba, c.offset, c.len);
            } else {
                self.read_chunk(plan, c.lba, c.offset, c.len);
            }
            assert(plan@ =~= head + spec_transfer_ops(s0, opcode, lba, len as int, (k + 1) as nat));
            k += 1;
        }
    }
}

} // verus!
