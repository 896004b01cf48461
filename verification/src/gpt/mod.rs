//! GUID partition tables: the on-disk format, the loader's partition index and the
//! flashing tool's layout planning.
use vstd::prelude::*;
use vstd::utf8::encode_utf8;
use crate::gpt::disk::{
    has_gpt_signature, lemma_take_until_zero, le32_at, le64_at, read_u32_le, read_u64_le, spec_entry_units,
    spec_signature, take_until_zero, zeros, ENTRY_BYTES, LBA_BYTES,
};
use crate::layout::{gpt_partitions, spec_gpt_partitions, GptPart};
use crate::utf16::decode_utf16_strict;
use crate::mmio::RegOp;
use crate::nvme::{chunk_total, io_after, keeps_buffer, spec_transfer_ops, transfer_keeps_buffer, Nvme, NvmeState, OPC_READ};
use crate::cpu::cache::maintain_ops_are_cache_only;
use crate::cpu::cache::{clean, spec_maintain_ops};

pub mod disk;
pub mod client;

verus! {

broadcast use vstd::seq_lib::group_seq_properties;

/// The on-disk range of a partition, as the loader copies it into DDR.
#[derive(Clone, Copy)]
pub struct Partition {
    /// First LBA of the partition.
    pub start_lba: u64,
    /// Size in bytes (LBA count × 512).
    pub size_bytes: u64,
}

/// The header fields at offset 0x48: entry-array LBA, entry count and entry size.
#[derive(Clone, Copy)]
pub struct GptEntryInfo {
    /// First LBA of the entry array.
    pub lba: u64,
    /// Number of entries.
    pub count: u32,
    /// Bytes per entry.
    pub size: u32,
}

impl GptEntryInfo {
    /// Offset of these fields in the header.
    pub const OFFSET: usize = 0x48;

    /// Read the entry-array fields of a header block.
    pub fn from_gpt_header(gpt_header: &[u8]) -> (info: Self)
        requires
            gpt_header@.len() >= 0x58,
        ensures
            info.lba == le64_at(gpt_header@, 0x48),
            info.count == le32_at(gpt_header@, 0x50),
            info.size == le32_at(gpt_header@, 0x54),
    {
        GptEntryInfo {
            lba: read_u64_le(gpt_header, 0x48),
            count: read_u32_le(gpt_header, 0x50),
            size: read_u32_le(gpt_header, 0x54),
        }
    }
}

/// One 128-byte GPT partition entry.
#[derive(Clone, Copy)]
pub struct GptEntry {
    /// Partition type GUID; all zero means unused.
    pub partition_type_guid: [u8; 16],
    /// Unique partition GUID.
    pub unique_partition_guid: [u8; 16],
    /// First LBA.
    pub starting_lba: u64,
    /// Last LBA (inclusive).
    pub ending_lba: u64,
    /// GPT attribute bits.
    pub attributes: u64,
    /// UTF-16 name, NUL-padded.
    pub partition_name: [u16; 36],
}

impl GptEntry {
    /// The entry stored in the 128 bytes `raw`.
    pub fn from_bytes(raw: &[u8]) -> (e: Self)
        requires
            raw@.len() == ENTRY_BYTES,
        ensures
            e.partition_type_guid@ == raw@.take(16),
            e.unique_partition_guid@ == raw@.subrange(16, 32),
            e.starting_lba == le64_at(raw@, 32),
            e.ending_lba == le64_at(raw@, 40),
            e.attributes == le64_at(raw@, 48),
            e.partition_name@ == spec_entry_units(raw@),
    {
        let mut type_guid = [0u8; 16];
        let mut unique_guid = [0u8; 16];
        let mut i: usize = 0;
        while i < 16
            invariant
                i <= 16,
                raw@.len() == 128,
                forall|k: int| 0 <= k < i ==> type_guid@[k] == raw@[k] && unique_guid@[k] == raw@[16 + k],
            decreases 16 - i,
        {
            type_guid[i] = raw[i];
            unique_guid[i] = raw[16 + i];
            i += 1;
        }
        assert(type_guid@ =~= raw@.take(16));
        assert(unique_guid@ =~= raw@.subrange(16, 32));
        let mut name = [0u16; 36];
        let mut k: usize = 0;
        while k < 36
            invariant
                k <= 36,
                raw@.len() == 128,
                forall|j: int| 0 <= j < k ==> name@[j] == spec_entry_units(raw@)[j],
            decreases 36 - k,
        {
            let u: u16 = (raw[56 + 2 * k] as u16) | ((raw[57 + 2 * k] as u16) << 8u16);
            name[k] = u;
            k += 1;
        }
        assert(name@ =~= spec_entry_units(raw@));
        GptEntry {
            partition_type_guid: type_guid,
            unique_partition_guid: unique_guid,
            starting_lba: read_u64_le(raw, 32),
            ending_lba: read_u64_le(raw, 40),
            attributes: read_u64_le(raw, 48),
            partition_name: name,
        }
    }
}

/// The name a partition is indexed under: the strict UTF-16 decoding of its name units
/// when that is valid and fits 72 bytes of UTF-8, else the empty name.
pub open spec fn index_name(units: Seq<u16>) -> Seq<char> {
    match decode_utf16_strict(units) {
        Some(chars) => if encode_utf8(chars).len() <= 72 { chars } else { Seq::empty() },
        None => Seq::empty(),
    }
}

/// The name-indexed partition list of the loader, kept in a `heapless::LinearMap` of at
/// most 16 entries.
#[verifier::external_body]
pub struct PartitionIndex {
    map: heapless::LinearMap<heapless::String<72>, Partition, 16>,
}

/// The entries of a partition index, in insertion order.
pub uninterp spec fn index_entries(index: PartitionIndex) -> Seq<(Seq<char>, Partition)>;

/// The first entry named `name`, if any.
pub open spec fn first_named(entries: Seq<(Seq<char>, Partition)>, name: Seq<char>) -> Option<Partition>
    decreases entries.len(),
{
    if entries.len() == 0 {
        None
    } else if entries[0].0 == name {
        Some(entries[0].1)
    } else {
        first_named(entries.drop_first(), name)
    }
}

impl PartitionIndex {
    /// Collect `(name units, partition)` pairs into a `heapless::LinearMap` (its
    /// `FromIterator`, which appends every pair in order), naming each partition by
    /// `heapless::String::<72>::from_utf16` of its units or, when that fails, the empty
    /// string. The map holds at most 16 entries; more would panic, so at most 16 are given.
    #[verifier::external_body]
    pub(crate) fn from_entries(entries: Vec<(Vec<u16>, Partition)>) -> (index: Self)
        requires
            entries.len() <= 16,
        ensures
            index_entries(index) == entries@.map_values(
                |e: (Vec<u16>, Partition)| (index_name(e.0@), e.1),
            ),
    {
        let map = entries
            .into_iter()
            .map(|(units, p)| (heapless::String::<72>::from_utf16(&units).unwrap_or_default(), p))
            .collect();
        PartitionIndex { map }
    }

    /// `heapless::LinearMap::get`: the partition of the first entry named `name`.
    #[verifier::external_body]
    pub(crate) fn get(&self, name: &str) -> (p: Option<Partition>)
        ensures
            p == first_named(index_entries(*self), name@),
    {
        self.map.get(name).copied()
    }

    /// `heapless::LinearMap::iter`: every entry as an owned name and its partition, in order.
    #[verifier::external_body]
    pub(crate) fn entries(&self) -> (v: Vec<(String, Partition)>)
        ensures
            v@.len() == index_entries(*self).len(),
            forall|i: int| 0 <= i < v@.len() ==> (#[trigger] v@[i]).0@ == index_entries(*self)[i].0
                && v@[i].1 == index_entries(*self)[i].1,
    {
        self.map.iter().map(|(k, v)| (k.as_str().to_owned(), *v)).collect()
    }
}

/// A used entry as the loader reads it: its name units up to the first NUL, first and last LBA.
pub open spec fn spl_used_entry(raw: Seq<u8>) -> Option<(Seq<u16>, u64, u64)> {
    if raw.take(16) == zeros(16) {
        None
    } else {
        Some((take_until_zero(spec_entry_units(raw)), le64_at(raw, 32), le64_at(raw, 40)))
    }
}

/// The used entries among the first `n` entries of `bytes`, in order.
pub open spec fn spl_used_entries(bytes: Seq<u8>, n: nat) -> Seq<(Seq<u16>, u64, u64)>
    decreases n,
{
    if n == 0 {
        Seq::empty()
    } else {
        let prev = spl_used_entries(bytes, (n - 1) as nat);
        match spl_used_entry(bytes.subrange(128 * (n - 1), 128 * n as int)) {
            Some(e) => prev.push(e),
            None => prev,
        }
    }
}

/// The used entries of a whole entry array.
pub open spec fn spl_used(bytes: Seq<u8>) -> Seq<(Seq<u16>, u64, u64)> {
    spl_used_entries(bytes, bytes.len() / 128)
}

/// A used entry's range is sound: it ends at or after its start and its byte size fits.
pub open spec fn range_ok(e: (Seq<u16>, u64, u64)) -> bool {
    e.1 <= e.2 && (e.2 - e.1 + 1) * 512 <= u64::MAX
}

/// The partition of a used entry.
pub open spec fn partition_of(e: (Seq<u16>, u64, u64)) -> Partition {
    Partition { start_lba: e.1, size_bytes: ((e.2 - e.1 + 1) * 512) as u64 }
}

/// What the loader copies for one partition.
#[derive(Clone, Copy)]
pub struct LoadStep {
    /// First LBA to read.
    pub start_lba: u64,
    /// DDR address to copy to.
    pub load_base: u64,
    /// Bytes to read: the partition size rounded up to whole LBAs.
    pub read_bytes: u64,
}

/// `x` rounded up to a multiple of 512.
pub open spec fn round_up_512(x: u64) -> int {
    if x % 512 == 0 { x as int } else { x + (512 - x % 512) }
}

/// Every partition the loader needs is present and fits its DDR window.
pub open spec fn loadable(entries: Seq<(Seq<char>, Partition)>) -> bool {
    forall|i: int| 0 <= i < 4 ==> {
        let part = #[trigger] spec_gpt_partitions()[i];
        let found = first_named(entries, part.name@);
        found is Some && round_up_512(found->0.size_bytes) <= part.load_max
    }
}

/// The load of the `i`-th partition the loader needs.
pub open spec fn load_step_of(entries: Seq<(Seq<char>, Partition)>, i: int) -> LoadStep {
    let part = spec_gpt_partitions()[i];
    let found = first_named(entries, part.name@)->0;
    LoadStep { start_lba: found.start_lba, load_base: part.load_base, read_bytes: round_up_512(found.size_bytes) as u64 }
}

/// The loads of the partitions the loader needs, in load order.
pub open spec fn load_steps(entries: Seq<(Seq<char>, Partition)>) -> Seq<LoadStep> {
    Seq::new(4, |i: int| load_step_of(entries, i))
}

/// The NVMe state after the first `i` loads from `s`.
pub open spec fn load_state(s: NvmeState, steps: Seq<LoadStep>, i: nat) -> NvmeState
    decreases i,
{
    if i == 0 {
        s
    } else {
        io_after(load_state(s, steps, (i - 1) as nat), chunk_total(steps[i - 1].read_bytes as int))
    }
}

/// One load from state `p`: the image's buffer is its DDR window, the partition's first
/// bytes are read into it, and the window is cleaned from the data cache.
pub open spec fn spec_load_step_ops(p: NvmeState, st: LoadStep) -> Seq<RegOp> {
    seq![RegOp::UseBuffer { base: st.load_base }]
        + spec_transfer_ops(p, OPC_READ, st.start_lba, st.read_bytes as int, chunk_total(st.read_bytes as int))
        + spec_maintain_ops(st.load_base as usize, st.read_bytes as usize, true)
}

/// Every copy of a partition's load lands in that partition's DDR window: the load first
/// selects the window as the buffer and nothing after that selects another one.
pub proof fn load_copies_into_window(p: NvmeState, st: LoadStep)
    ensures
        spec_load_step_ops(p, st)[0] == (RegOp::UseBuffer { base: st.load_base }),
        forall|j: int| 0 < j < spec_load_step_ops(p, st).len() ==> !(#[trigger] spec_load_step_ops(p, st)[j] is UseBuffer),
{
    let t = spec_transfer_ops(p, OPC_READ, st.start_lba, st.read_bytes as int, chunk_total(st.read_bytes as int));
    let m = spec_maintain_ops(st.load_base as usize, st.read_bytes as usize, true);
    transfer_keeps_buffer(p, OPC_READ, st.start_lba, st.read_bytes as int, chunk_total(st.read_bytes as int));
    maintain_ops_are_cache_only(st.load_base as usize, st.read_bytes as usize, true);
    let ops = spec_load_step_ops(p, st);
    assert forall|j: int| 0 < j < ops.len() implies !(#[trigger] ops[j] is UseBuffer) by {
        if j < 1 + t.len() {
            assert(ops[j] == t[j - 1]);
        } else {
            assert(ops[j] == m[j - 1 - t.len()]);
            let op = m[j - 1 - t.len()];
            assert(op is CboClean || op is CboInval || op is Fence || op is FenceI);
        }
    }
}

/// The first `i` loads from state `s`.
pub open spec fn spec_load_ops(s: NvmeState, steps: Seq<LoadStep>, i: nat) -> Seq<RegOp>
    decreases i,
{
    if i == 0 {
        Seq::empty()
    } else {
        spec_load_ops(s, steps, (i - 1) as nat) + spec_load_step_ops(load_state(s, steps, (i - 1) as nat), steps[i - 1])
    }
}

impl Partition {
    /// Bytes the loader reads for this partition: the size rounded up to whole LBAs, which
    /// must fit the window of `mem_max_size` bytes.
    pub fn load_bytes(self, mem_max_size: u64) -> (n: u64)
        requires
            round_up_512(self.size_bytes) <= mem_max_size,
        ensures
            n == round_up_512(self.size_bytes),
    {
        let rem = self.size_bytes % 512;
        if rem == 0 {
            self.size_bytes
        } else {
            self.size_bytes + (512 - rem)
        }
    }
}

/// The loader's partition table, indexed by UTF-16 partition name.
pub struct Gpt {
    /// The used entries, named.
    pub partitions: PartitionIndex,
}

impl Gpt {
    /// LBA of the GPT header.
    pub const GPT_HEADER_LBA: u64 = 1;
    /// Bytes per entry.
    pub const ENTRY_BYTES: usize = 0x80;
    /// Logical block size used for GPT I/O.
    pub const LBA_BYTES: usize = 512;
    /// Entries per LBA.
    pub const ENTRY_COUNT_PER_LBA: usize = 4;

    /// The entry-array fields of a header block, which must carry the `EFI PART` signature
    /// and an entry size of 128 bytes.
    pub fn parse_header(gpt_header: &[u8]) -> (info: GptEntryInfo)
        requires
            gpt_header@.len() >= 0x58,
            gpt_header@.take(8) == spec_signature(),
            le32_at(gpt_header@, 0x54) == 128,
        ensures
            info.lba == le64_at(gpt_header@, 0x48),
            info.count == le32_at(gpt_header@, 0x50),
            info.size == 128,
    {
        GptEntryInfo::from_gpt_header(gpt_header)
    }

    /// The LBAs holding the entry array: one per started group of four entries.
    pub fn entry_lbas(info: GptEntryInfo) -> (v: Vec<u64>)
        requires
            info.lba + (info.count + 3) / 4 <= u64::MAX,
        ensures
            v@.len() == (info.count + 3) / 4,
            forall|k: int| 0 <= k < v@.len() ==> #[trigger] v@[k] == info.lba + k,
    {
        let n: u64 = (info.count as u64 + 3) / 4;
        let mut v: Vec<u64> = Vec::new();
        let mut k: u64 = 0;
        while k < n
            invariant
                k <= n,
                n == (info.count + 3) / 4,
                info.lba + n <= u64::MAX,
                v@.len() == k,
                forall|j: int| 0 <= j < k ==> #[trigger] v@[j] == info.lba + j,
            decreases n - k,
        {
            v.push(info.lba + k);
            k += 1;
        }
        v
    }

    /// Index the used entries of an entry array (whole 128-byte entries) by name. Every used
    /// entry must end at or after its start with a byte size that fits 64 bits, and there
    /// are at most 16 of them.
    pub fn from_entry_array(bytes: &[u8]) -> (g: Gpt)
        requires
            bytes@.len() % 128 == 0,
            forall|i: int| 0 <= i < spl_used(bytes@).len() ==> range_ok(#[trigger] spl_used(bytes@)[i]),
            spl_used(bytes@).len() <= 16,
        ensures
            index_entries(g.partitions) == spl_used(bytes@).map_values(
                |e: (Seq<u16>, u64, u64)| (index_name(e.0), partition_of(e)),
            ),
    {
        let n = bytes.len() / ENTRY_BYTES;
        assert(128 * n == bytes@.len()) by (nonlinear_arith)
            requires
                n == bytes@.len() / 128,
                bytes@.len() % 128 == 0,
        ;
        let ghost used_all = spl_used_entries(bytes@, n as nat);
        let mut out: Vec<(Vec<u16>, Partition)> = Vec::new();
        let ghost mut seen: Seq<(Seq<u16>, u64, u64)> = Seq::empty();
        let mut j: usize = 0;
        while j < n
            invariant
                j <= n,
                128 * n == bytes.len(),
                n == bytes@.len() / 128,
                seen == spl_used_entries(bytes@, j as nat),
                forall|i: int| 0 <= i < spl_used(bytes@).len() ==> range_ok(#[trigger] spl_used(bytes@)[i]),
                spl_used(bytes@).len() <= 16,
                forall|i: int| 0 <= i < seen.len() ==> range_ok(#[trigger] seen[i]),
                out@.len() == seen.len(),
                forall|i: int| 0 <= i < out@.len() ==> (#[trigger] out@[i]).0@ == seen[i].0 && out@[i].1
                    == partition_of(seen[i]),
            decreases n - j,
        {
            let raw = vstd::slice::slice_subrange(bytes, ENTRY_BYTES * j, ENTRY_BYTES * j + ENTRY_BYTES);
            let entry = GptEntry::from_bytes(raw);
            let mut used = false;
            let mut i: usize = 0;
            assert(raw@.take(0) =~= zeros(0));
            while i < 16
                invariant
                    i <= 16,
                    raw@.len() == 128,
                    entry.partition_type_guid@ == raw@.take(16),
                    used == !(raw@.take(i as int) == zeros(i as nat)),
                decreases 16 - i,
            {
                if entry.partition_type_guid[i] != 0 {
                    used = true;
                }
                i += 1;
                proof {
                    assert(raw@.take(i as int).drop_last() =~= raw@.take(i - 1));
                    if !used {
                        assert(raw@.take(i as int) =~= zeros(i as nat));
                    } else if raw@.take(i as int) == zeros(i as nat) {
                        assert(raw@.take(i - 1) =~= zeros((i - 1) as nat));
                    }
                }
            }
            if used {
                let mut units: Vec<u16> = Vec::new();
                let ghost all = spec_entry_units(raw@);
                let mut k: usize = 0;
                while k < 36
                    invariant
                        k <= 36,
                        entry.partition_name@ == all,
                        units@ == all.take(k as int),
                        forall|m: int| 0 <= m < k ==> all[m] != 0,
                    ensures
                        k <= 36,
                        units@ == all.take(k as int),
                        forall|m: int| 0 <= m < k ==> all[m] != 0,
                        k == 36 || all[k as int] == 0,
                    decreases 36 - k,
                {
                    let u = entry.partition_name[k];
                    if u == 0 {
                        break;
                    }
                    units.push(u);
                    k += 1;
                    assert(units@ =~= all.take(k as int));
                }
                proof {
                    lemma_take_until_zero(all, k as int);
                }
                let start = entry.starting_lba;
                let end = entry.ending_lba;
                proof {
                    let e = (units@, start, end);
                    lemma_used_entries_extend(bytes@, j as nat);
                    assert(spl_used_entries(bytes@, (j + 1) as nat) == seen.push(e));
                    lemma_used_entries_prefix(bytes@, (j + 1) as nat, n as nat, seen.len() as int);
                    assert(range_ok(spl_used(bytes@)[seen.len() as int]));
                }
                let size_bytes = (end - start + 1) * 512;
                out.push((units, Partition { start_lba: start, size_bytes }));
                proof {
                    lemma_used_entries_extend(bytes@, j as nat);
                    seen = seen.push((all.take(k as int), start, end));
                }
            } else {
                proof {
                    lemma_used_entries_extend(bytes@, j as nat);
                }
            }
            j += 1;
        }
        let ghost outv = out@;
        let partitions = PartitionIndex::from_entries(out);
        assert(outv.map_values(|e: (Vec<u16>, Partition)| (index_name(e.0@), e.1)) =~= seen.map_values(
            |e: (Seq<u16>, u64, u64)| (index_name(e.0), partition_of(e)),
        ));
        Gpt { partitions }
    }

    /// The partition named `name`: the first entry of that name.
    pub fn partition(&self, name: &str) -> (p: Option<Partition>)
        ensures
            p == first_named(index_entries(self.partitions), name@),
    {
        self.partitions.get(name)
    }

    /// Every named partition, in table order.
    pub fn list_all_partitions(&self) -> (v: Vec<(String, Partition)>)
        ensures
            v@.len() == index_entries(self.partitions).len(),
            forall|i: int| 0 <= i < v@.len() ==> (#[trigger] v@[i]).0@ == index_entries(self.partitions)[i].0
                && v@[i].1 == index_entries(self.partitions)[i].1,
    {
        self.partitions.entries()
    }

    /// What to copy into DDR for each partition the loader needs, in load order: the
    /// partition's first LBA, its window and the bytes to read. Each of those partitions must
    /// be present and fit its window.
    pub fn load_plan(&self) -> (steps: Vec<LoadStep>)
        requires
            loadable(index_entries(self.partitions)),
        ensures
            steps@ == load_steps(index_entries(self.partitions)),
            steps@.len() == 4,
            forall|i: int| 0 <= i < 4 ==> {
                let part = #[trigger] spec_gpt_partitions()[i];
                let found = first_named(index_entries(self.partitions), part.name@);
                &&& steps@[i].start_lba == found->0.start_lba
                &&& steps@[i].load_base == part.load_base
                &&& steps@[i].read_bytes == round_up_512(found->0.size_bytes)
            },
    {
        let parts = gpt_partitions();
        let mut steps: Vec<LoadStep> = Vec::new();
        let mut i: usize = 0;
        while i < parts.len()
            invariant
                i <= parts.len(),
                parts@ == spec_gpt_partitions(),
                forall|k: int| 0 <= k < 4 ==> {
                    let part = #[trigger] spec_gpt_partitions()[k];
                    let found = first_named(index_entries(self.partitions), part.name@);
                    found is Some && round_up_512(found->0.size_bytes) <= part.load_max
                },
                steps@.len() == i,
                forall|k: int| 0 <= k < i ==> {
                    let part = #[trigger] spec_gpt_partitions()[k];
                    let found = first_named(index_entries(self.partitions), part.name@);
                    &&& steps@[k].start_lba == found->0.start_lba
                    &&& steps@[k].load_base == part.load_base
                    &&& steps@[k].read_bytes == round_up_512(found->0.size_bytes)
                },
            decreases parts.len() - i,
        {
            let part: GptPart = parts[i];
            assert(spec_gpt_partitions()[i as int] == part);
            let p = self.partitions.get(part.name).unwrap();
            let n = p.load_bytes(part.load_max);
            steps.push(LoadStep { start_lba: p.start_lba, load_base: part.load_base, read_bytes: n });
            i += 1;
        }
        assert(steps@ =~= load_steps(index_entries(self.partitions)));
        steps
    }

    /// Load every partition the loader needs into its DDR window, in load order: for each,
    /// its window becomes the buffer, `Nvme::read` reads the partition's first bytes (its
    /// size rounded up to whole LBAs), and the window is cleaned from the data cache. Each
    /// partition must be present, fit its window, and its reads must stay within 64-bit LBAs.
    pub fn load_all_partitions(&self, nvme: &mut Nvme, plan: &mut Vec<RegOp>)
        requires
            loadable(index_entries(self.partitions)),
            old(nvme).wf(),
            forall|i: int| 0 <= i < 4 ==> {
                let st = #[trigger] load_step_of(index_entries(self.partitions), i);
                st.start_lba + 8 * (st.read_bytes / 4096 + 1) <= u64::MAX
            },
        ensures
            final(nvme).wf(),
            final(nvme)@ == load_state(old(nvme)@, load_steps(index_entries(self.partitions)), 4),
            final(plan)@ == old(plan)@ + spec_load_ops(old(nvme)@, load_steps(index_entries(self.partitions)), 4),
    {
        let ghost entries = index_entries(self.partitions);
        let ghost steps_s = load_steps(entries);
        let ghost s0 = nvme@;
        let ghost head = plan@;
        let steps = self.load_plan();
        let mut i: usize = 0;
        while i < steps.len()
            invariant
                i <= steps@.len(),
                steps@ == steps_s,
                steps_s == load_steps(entries),
                steps@.len() == 4,
                loadable(entries),
                forall|k: int| 0 <= k < 4 ==> {
                    let st = #[trigger] load_step_of(entries, k);
                    st.start_lba + 8 * (st.read_bytes / 4096 + 1) <= u64::MAX
                },
                nvme.wf(),
                nvme@ == load_state(s0, steps_s, i as nat),
                plan@ == head + spec_load_ops(s0, steps_s, i as nat),
            decreases steps@.len() - i,
        {
            let st = steps[i];
            proof {
                lemma_load_step_fits(entries, i as int);
                assert(st == load_step_of(entries, i as int));
            }
            load_one(nvme, plan, st);
            assert(plan@ =~= head + spec_load_ops(s0, steps_s, (i + 1) as nat));
            i += 1;
        }
    }
}

proof fn lemma_load_step_fits(entries: Seq<(Seq<char>, Partition)>, i: int)
    requires
        loadable(entries),
        0 <= i < 4,
    ensures
        load_step_of(entries, i).read_bytes % 512 == 0,
        load_step_of(entries, i).load_base + load_step_of(entries, i).read_bytes <= 0x1000_0000,
{
    let part = spec_gpt_partitions()[i];
    let found = first_named(entries, part.name@)->0;
    assert(round_up_512(found.size_bytes) <= part.load_max);
    assert(round_up_512(found.size_bytes) % 512 == 0) by (nonlinear_arith)
        requires
            round_up_512(found.size_bytes) == (if found.size_bytes % 512 == 0 {
                found.size_bytes as int
            } else {
                found.size_bytes + (512 - found.size_bytes % 512)
            }),
    ;
    assert(part.load_base + part.load_max <= 0x1000_0000);
}

fn load_one(nvme: &mut Nvme, plan: &mut Vec<RegOp>, st: LoadStep)
    requires
        old(nvme).wf(),
        st.read_bytes % 512 == 0,
        st.load_base + st.read_bytes <= 0x1000_0000,
        st.start_lba + 8 * (st.read_bytes / 4096 + 1) <= u64::MAX,
    ensures
        final(nvme).wf(),
        final(nvme)@ == io_after(old(nvme)@, chunk_total(st.read_bytes as int)),
        final(plan)@ == old(plan)@ + spec_load_step_ops(old(nvme)@, st),
{
    let ghost head = plan@;
    plan.push(RegOp::UseBuffer { base: st.load_base });
    nvme.read(plan, st.start_lba, st.read_bytes as usize);
    clean(plan, st.load_base as usize, st.read_bytes as usize);
    assert(plan@ =~= head + spec_load_step_ops(old(nvme)@, st));
}

proof fn lemma_used_entries_extend(bytes: Seq<u8>, j: nat)
    ensures
        spl_used_entries(bytes, j + 1) == match spl_used_entry(bytes.subrange(128 * j as int, 128 * j as int + 128)) {
            Some(e) => spl_used_entries(bytes, j).push(e),
            None => spl_used_entries(bytes, j),
        },
{
}

proof fn lemma_used_entries_prefix(bytes: Seq<u8>, j: nat, n: nat, i: int)
    requires
        j <= n,
        0 <= i < spl_used_entries(bytes, j).len(),
    ensures
        i < spl_used_entries(bytes, n).len(),
        spl_used_entries(bytes, n)[i] == spl_used_entries(bytes, j)[i],
    decreases n - j,
{
    if j < n {
        lemma_used_entries_prefix(bytes, j, (n - 1) as nat, i);
    }
}

} // verus!
