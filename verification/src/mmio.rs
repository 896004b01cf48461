//! Register access as data: a bring-up sequence is a list of register operations that
//! the loader performs in order. Each operation is a plain value, and the meaning of a
//! sequence of writes is given over a model of the register file.
use vstd::prelude::*;
use core::marker::PhantomData;
use crate::soc::SocStep;
use crate::ddr::freq::DdrFreq;
use crate::nvme::Sqe;

verus! {

/// One step of a bring-up sequence.
#[derive(Clone, Copy, PartialEq, Eq, Structural, Debug)]
pub enum RegOp {
    /// Store `value` to the 32-bit register at `addr`.
    Write { addr: u32, value: u32 },
    /// Store `data` to the 64-bit register at `addr` in one access.
    Write64 { addr: u32, data: u64 },
    /// Read-modify-write: the register becomes `(old & !clear) | set`.
    Modify { addr: u32, clear: u32, set: u32 },
    /// Spin until `(reg & mask) == value`.
    WaitUntil { addr: u32, mask: u32, value: u32 },
    /// Read the register at `addr` until `(reg & mask) == value`, at most `attempts` times,
    /// `micros` microseconds apart; if it never holds, the sequence stops with a hardware
    /// error.
    PollOrFail { addr: u32, mask: u32, value: u32, attempts: u32, micros: u32 },
    /// Wait for the NOR flash to finish a program or erase: issue Read Status (the IP read
    /// `nor::spec_ip_read_ops(OP_RDSR, 0, 0, 1)`) and take the status byte from the RX
    /// buffer until Write-In-Progress (bit 0) is clear, at most `attempts` times, `micros`
    /// microseconds apart (each decision is `nor::wait_ready_step`); if it never clears, the
    /// sequence stops with a hardware error.
    WaitFlashReady { attempts: u32, micros: u32 },
    /// Sleep for the given number of microseconds.
    Sleep { micros: u32 },
    /// A memory fence.
    Fence,
    /// Set `bits` in the machine CSR `csr` (`csrs`).
    CsrSet { csr: u16, bits: u64 },
    /// Call the BootROM function at `entry` with one argument.
    RomCall { entry: u32, arg: u32 },
    /// Until `(reg & mask) == value`, call the BootROM function at `entry` and sleep
    /// `micros` microseconds.
    PollWith { addr: u32, mask: u32, value: u32, entry: u32, micros: u32 },
    /// Spin until both `(reg_a & mask_a) == value_a` and `(reg_b & mask_b) == value_b`.
    WaitBoth { addr_a: u32, mask_a: u32, value_a: u32, addr_b: u32, mask_b: u32, value_b: u32 },
    /// A clock, power or pin-control operation.
    Soc(SocStep),
    /// Run the DDR training image at this data rate.
    Train(DdrFreq),
    /// Write the DDR test pattern from `base` and read it back, stopping on a mismatch.
    VerifyPattern { base: u64 },
    /// Store zeros to `bytes` bytes of memory from `base`.
    ZeroMemory { base: u64, bytes: u64 },
    /// `cbo.inval` on the 64-byte cache line at `line`: drop it, dirty or not.
    CboInval { line: usize },
    /// `cbo.clean` on the 64-byte cache line at `line`: write it back and keep it.
    CboClean { line: usize },
    /// An instruction fence (`fence.i`).
    FenceI,
    /// Store the 64-byte NVMe submission entry `sqe` at `slot`.
    StoreSqe { slot: u64, sqe: Sqe },
    /// Wait for the NVMe completion entry at `slot` to carry the phase tag `phase` (bit 0 of
    /// its status): invalidate its cache line, read it, and retry after 1 µs until it does.
    WaitCqe { slot: u64, phase: u8 },
    /// The caller's buffer of the following copies starts at address `base`.
    UseBuffer { base: u64 },
    /// Copy `len` bytes from the NVMe DMA data page into the caller's buffer at `offset`.
    DmaToBuffer { offset: usize, len: usize },
    /// Copy `len` bytes from the caller's buffer at `offset` into the NVMe DMA data page.
    BufferToDma { offset: usize, len: usize },
}

/// Marker for a register window that is addressed by raw offsets.
pub struct Raw;

/// A register window starting at `addr`.
pub struct MMIO<T> {
    addr: u32,
    kind: PhantomData<T>,
}

impl<T> MMIO<T> {
    /// The window's base address.
    pub closed spec fn spec_addr(&self) -> u32 {
        self.addr
    }

    /// The window at `addr`.
    pub fn base(addr: u32) -> (m: Self)
        ensures
            m.spec_addr() == addr,
    {
        MMIO { addr, kind: PhantomData }
    }

    /// The window's base address.
    pub fn addr(&self) -> (a: u32)
        ensures
            a == self.spec_addr(),
    {
        self.addr
    }
}

/// The writes of `table` (offset, value) into the window at `base`, in order.
pub open spec fn write_ops(base: u32, table: Seq<(u32, u32)>) -> Seq<RegOp> {
    Seq::new(table.len(), |i: int| RegOp::Write { addr: (base + table[i].0) as u32, value: table[i].1 })
}

/// Every offset of `table` stays inside the 32-bit address space above `base`.
pub open spec fn table_fits(base: u32, table: Seq<(u32, u32)>) -> bool {
    forall|i: int| 0 <= i < table.len() ==> base + (#[trigger] table[i]).0 <= u32::MAX
}

/// The register file after one operation: writes and read-modify-writes change the
/// register (a 64-bit write, the two words from `addr`, low word first); the other
/// operations change none.
pub open spec fn apply_op(regs: Map<u32, u32>, op: RegOp) -> Map<u32, u32> {
    match op {
        RegOp::Write { addr, value } => regs.insert(addr, value),
        RegOp::Write64 { addr, data } => regs.insert(addr, (data % 0x1_0000_0000) as u32).insert(
            (addr + 4) as u32,
            (data / 0x1_0000_0000) as u32,
        ),
        RegOp::Modify { addr, clear, set } => {
            let old = if regs.contains_key(addr) { regs[addr] } else { 0u32 };
            regs.insert(addr, (old & !clear) | set)
        },
        _ => regs,
    }
}

/// The register file after a whole sequence, applied from the first operation on.
pub open spec fn apply_ops(regs: Map<u32, u32>, ops: Seq<RegOp>) -> Map<u32, u32>
    decreases ops.len(),
{
    if ops.len() == 0 {
        regs
    } else {
        apply_op(apply_ops(regs, ops.drop_last()), ops.last())
    }
}

/// Running two sequences one after the other is running their concatenation.
pub proof fn apply_ops_concat(regs: Map<u32, u32>, a: Seq<RegOp>, b: Seq<RegOp>)
    ensures
        apply_ops(regs, a + b) == apply_ops(apply_ops(regs, a), b),
    decreases b.len(),
{
    if b.len() == 0 {
        assert(a + b =~= a);
    } else {
        apply_ops_concat(regs, a, b.drop_last());
        assert((a + b).drop_last() =~= a + b.drop_last());
    }
}

/// The value the last entry of `table` that targets `addr` stores there, if any.
pub open spec fn last_write(base: u32, table: Seq<(u32, u32)>, addr: u32) -> Option<u32>
    decreases table.len(),
{
    if table.len() == 0 {
        None
    } else if (base + table.last().0) as u32 == addr {
        Some(table.last().1)
    } else {
        last_write(base, table.drop_last(), addr)
    }
}

/// After the writes of a table, a register holds what the last entry that targets it
/// wrote; a register no entry targets keeps its value (or stays absent).
pub proof fn table_write_last_wins(regs: Map<u32, u32>, base: u32, table: Seq<(u32, u32)>, addr: u32)
    ensures
        match last_write(base, table, addr) {
            Some(v) => apply_ops(regs, write_ops(base, table)).contains_key(addr)
                && apply_ops(regs, write_ops(base, table))[addr] == v,
            None => apply_ops(regs, write_ops(base, table)).contains_key(addr) == regs.contains_key(addr)
                && apply_ops(regs, write_ops(base, table))[addr] == regs[addr],
        },
    decreases table.len(),
{
    if table.len() > 0 {
        assert(write_ops(base, table).drop_last() =~= write_ops(base, table.drop_last()));
        table_write_last_wins(regs, base, table.drop_last(), addr);
    }
}

impl MMIO<Raw> {
    /// Append the writes of `table` (offset, value), in order.
    pub fn write(&self, plan: &mut Vec<RegOp>, table: &[(u32, u32)])
        requires
            table_fits(self.spec_addr(), table@),
        ensures
            final(plan)@ == old(plan)@ + write_ops(self.spec_addr(), table@),
    {
        let ghost start = plan@;
        let mut i: usize = 0;
        while i < table.len()
            invariant
                i <= table.len(),
                table_fits(self.spec_addr(), table@),
                plan@ == start + write_ops(self.spec_addr(), table@.take(i as int)),
            decreases table.len() - i,
        {
            let (offset, value) = table[i];
            assert(self.addr + table@[i as int].0 <= u32::MAX);
            plan.push(RegOp::Write { addr: self.addr + offset, value });
            i = i + 1;
            assert(write_ops(self.spec_addr(), table@.take(i as int)) =~= write_ops(
                self.spec_addr(),
                table@.take(i - 1),
            ).push(RegOp::Write { addr: (self.spec_addr() + offset) as u32, value }));
        }
        assert(table@.take(table.len() as int) =~= table@);
    }

    /// Append one read-modify-write: the register at `offset` becomes `(old & !clear) | set`.
    pub fn modify(&self, plan: &mut Vec<RegOp>, offset: u32, clear: u32, set: u32)
        requires
            self.spec_addr() + offset <= u32::MAX,
        ensures
            final(plan)@ == old(plan)@.push(
                RegOp::Modify { addr: (self.spec_addr() + offset) as u32, clear, set },
            ),
    {
        plan.push(RegOp::Modify { addr: self.addr + offset, clear, set });
    }

    /// Append a wait until `(reg & mask) == value` for the register at `offset`.
    pub fn wait_until(&self, plan: &mut Vec<RegOp>, offset: u32, mask: u32, value: u32)
        requires
            self.spec_addr() + offset <= u32::MAX,
        ensures
            final(plan)@ == old(plan)@.push(
                RegOp::WaitUntil { addr: (self.spec_addr() + offset) as u32, mask, value },
            ),
    {
        plan.push(RegOp::WaitUntil { addr: self.addr + offset, mask, value });
    }

    /// The address of the register at `offset`, for a read.
    pub fn read(&self, offset: u32) -> (a: u32)
        requires
            self.spec_addr() + offset <= u32::MAX,
        ensures
            a == self.spec_addr() + offset,
    {
        self.addr + offset
    }
}

} // verus!
