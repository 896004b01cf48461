//! The single table of SSD partitions and DDR load windows.
//!
//! Load map: SBI @ 0x80000, kernel @ 0x200000, DTB @ 0x1000000, initramfs @ 0x8000000,
//! NVMe DMA @ 0x4000000, DDR training scratch @ 0x10000.
use vstd::prelude::*;

verus! {

/// A named partition with an LBA cap and the DDR window it is loaded into.
#[derive(Clone, Copy)]
pub struct GptPart {
    /// GPT partition name (matched as UTF-16).
    pub name: &'static str,
    /// First LBA of the partition.
    pub lba_start: u64,
    /// Largest number of LBAs the partition may occupy.
    pub lba_max: u64,
    /// DDR address the image is copied to.
    pub load_base: u64,
    /// Largest number of bytes copied into DDR.
    pub load_max: u64,
}

/// The partition that starts at `start_lba` and takes the rest of the disk.
#[derive(Clone, Copy)]
pub struct GptTail {
    /// GPT partition name.
    pub name: &'static str,
    /// First LBA; the end is the last usable LBA.
    pub start_lba: u64,
}

impl GptPart {
    /// Last LBA of the partition, `lba_start + lba_max - 1`, for a partition with `lba_max > 0`.
    pub open spec fn spec_end_lba(self) -> int {
        self.lba_start + self.lba_max - 1
    }

    /// `self` lies wholly before `next`, both on disk and in DDR.
    pub open spec fn spec_before(self, next: GptPart) -> bool {
        &&& self.lba_max > 0
        &&& self.spec_end_lba() < next.lba_start
        &&& self.load_base + self.load_max <= next.load_base
    }

    /// Last LBA this partition may use.
    pub fn end_lba(self) -> (r: u64)
        requires
            self.lba_start + self.lba_max <= u64::MAX,
            self.lba_start + self.lba_max >= 1,
        ensures
            r == self.spec_end_lba(),
    {
        self.lba_start + self.lba_max - 1
    }

    /// The layout check that `self` does not overlap `next` on disk or in DDR and comes
    /// first. It holds by its precondition: a call stands for the check, and a layout that
    /// breaks it does not verify.
    pub fn before(self, next: Self)
        requires
            self.lba_start + self.lba_max <= u64::MAX,
            self.load_base + self.load_max <= u64::MAX,
            self.spec_before(next),
    {
    }
}

/// OpenSBI payload: partition `sbi`, loaded at 0x80000 (cap 1 MiB / 1024 LBA).
pub open spec fn spec_sbi() -> GptPart {
    GptPart { name: "sbi", lba_start: 2048, lba_max: 1024, load_base: 0x0008_0000, load_max: 0x0010_0000 }
}

/// Kernel image: partition `kernel`, loaded at 0x200000 (cap 14 MiB / 24576 LBA).
pub open spec fn spec_kernel() -> GptPart {
    GptPart { name: "kernel", lba_start: 4096, lba_max: 24576, load_base: 0x0020_0000, load_max: 0x00E0_0000 }
}

/// Flattened device tree: partition `dtb`, loaded at 0x1000000 (cap 1 MiB / 512 LBA).
pub open spec fn spec_dtb() -> GptPart {
    GptPart { name: "dtb", lba_start: 28672, lba_max: 512, load_base: 0x0100_0000, load_max: 0x0010_0000 }
}

/// Initramfs: partition `initramfs`, loaded at 0x8000000 (cap 64 MiB / 131072 LBA).
pub open spec fn spec_initramfs() -> GptPart {
    GptPart {
        name: "initramfs",
        lba_start: 32768,
        lba_max: 131072,
        load_base: 0x0800_0000,
        load_max: 0x0400_0000,
    }
}

/// Root filesystem: starts at LBA 163840 and takes the rest of the disk.
pub open spec fn spec_rootfs() -> GptTail {
    GptTail { name: "rootfs", start_lba: 163840 }
}

/// The partitions the loader copies into DDR, in load order (without the root filesystem).
pub open spec fn spec_gpt_partitions() -> Seq<GptPart> {
    seq![spec_sbi(), spec_kernel(), spec_dtb(), spec_initramfs()]
}

/// DDR training self-check scratch base.
pub const DDR_TRAIN_VERIFY_BASE: u64 = 0x0001_0000;
/// Bytes written and read back by the DDR self-check.
pub const DDR_TRAIN_VERIFY_BYTES: u64 = 512;
/// NVMe DMA window in DDR.
pub const NVME_DMA_BASE: u64 = 0x0400_0000;
/// Admin submission queue (4 KiB).
pub const NVME_ASQ_BASE: u64 = 0x0400_0000;
/// Admin completion queue (4 KiB).
pub const NVME_ACQ_BASE: u64 = 0x0400_1000;
/// I/O submission queue (4 KiB).
pub const NVME_IOSQ_BASE: u64 = 0x0400_2000;
/// I/O completion queue (4 KiB).
pub const NVME_IOCQ_BASE: u64 = 0x0400_3000;
/// IDENTIFY data buffer (4 KiB).
pub const NVME_IDENTIFY_BASE: u64 = 0x0400_4000;
/// Data buffer for NVMe reads and writes (4 KiB).
pub const NVME_READ_DMA_BASE: u64 = 0x0400_5000;
/// Second PRP page for transfers that span two pages.
pub const NVME_READ_DMA_PRP2: u64 = 0x0400_6000;
/// Bytes reserved for the NVMe DMA window (28 KiB).
pub const NVME_DMA_SIZE: u64 = 0x7000;

/// The OpenSBI partition.
pub fn sbi() -> (p: GptPart)
    ensures
        p == spec_sbi(),
{
    GptPart { name: "sbi", lba_start: 2048, lba_max: 1024, load_base: 0x0008_0000, load_max: 0x0010_0000 }
}

/// The kernel partition.
pub fn kernel() -> (p: GptPart)
    ensures
        p == spec_kernel(),
{
    GptPart { name: "kernel", lba_start: 4096, lba_max: 24576, load_base: 0x0020_0000, load_max: 0x00E0_0000 }
}

/// The device-tree partition.
pub fn dtb() -> (p: GptPart)
    ensures
        p == spec_dtb(),
{
    GptPart { name: "dtb", lba_start: 28672, lba_max: 512, load_base: 0x0100_0000, load_max: 0x0010_0000 }
}

/// The initramfs partition.
pub fn initramfs() -> (p: GptPart)
    ensures
        p == spec_initramfs(),
{
    GptPart {
        name: "initramfs",
        lba_start: 32768,
        lba_max: 131072,
        load_base: 0x0800_0000,
        load_max: 0x0400_0000,
    }
}

/// The root-filesystem tail partition.
pub fn rootfs() -> (p: GptTail)
    ensures
        p == spec_rootfs(),
{
    GptTail { name: "rootfs", start_lba: 163840 }
}

/// The partitions the loader copies into DDR, in load order.
pub fn gpt_partitions() -> (v: Vec<GptPart>)
    ensures
        v@ == spec_gpt_partitions(),
{
    let v = vec![sbi(), kernel(), dtb(), initramfs()];
    assert(v@ =~= spec_gpt_partitions());
    v
}

/// The layout is consistent: consecutive partitions neither overlap on disk nor in DDR,
/// the first partition starts after the primary GPT (LBA 34), the root filesystem starts
/// after the initramfs, and the training scratch, the device tree, the NVMe DMA window and
/// the initramfs windows are disjoint and in that order.
pub proof fn layout_is_consistent()
    ensures
        spec_sbi().spec_before(spec_kernel()),
        spec_kernel().spec_before(spec_dtb()),
        spec_dtb().spec_before(spec_initramfs()),
        spec_initramfs().lba_max > 0,
        spec_gpt_partitions()[0].lba_start >= 34,
        spec_initramfs().spec_end_lba() < spec_rootfs().start_lba,
        DDR_TRAIN_VERIFY_BASE + DDR_TRAIN_VERIFY_BYTES <= spec_sbi().load_base,
        spec_dtb().load_base + spec_dtb().load_max <= NVME_DMA_BASE,
        NVME_DMA_BASE + NVME_DMA_SIZE <= spec_initramfs().load_base,
{
}

} // verus!
