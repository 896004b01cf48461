//! The flashing tool's view of the GPT: partition listing, the fixed layout, the plan
//! for writing a fresh table and the plan for flashing partitions by name.
use vstd::prelude::*;
use vstd::slice::slice_subrange;
use crate::gpt::disk::{
    build_entries_with_guids, build_header, build_pmbr, crc32, crc32_ieee, has_gpt_signature,
    le32_at, le64_at, planned_ok, planned_view, planned_views, random_guid, read_u64_le, spec_entries_area,
    spec_entry_units, spec_header, spec_parse_entries, spec_parse_entry, spec_pmbr,
    spec_signature, take_until_zero, lemma_take_until_zero, zeros, DiskPart, PlannedPart, ENTRY_BYTES, ENTRY_LBA,
    entries_roundtrip, header_roundtrip, listed, name_fits, pmbr_layout,
    ENTRY_LBA_COUNT, FIRST_USABLE_LBA, GPT_HEADER_LBA, TAIL_OCCUPY_LBA_COUNT,
};
use crate::utf16::{encode_utf16, string_from_utf16_lossy};

verus! {

broadcast use vstd::seq_lib::group_seq_properties;

/// A partition as listed from the disk: name, first and last LBA.
pub struct Partition {
    /// Partition name, decoded from UTF-16.
    pub name: String,
    /// First LBA.
    pub start_lba: u64,
    /// Last LBA (inclusive).
    pub end_lba: u64,
}

impl View for Partition {
    type V = DiskPart;

    open spec fn view(&self) -> DiskPart {
        (self.name@, self.start_lba, self.end_lba)
    }
}

/// Bytes spanned by the LBAs `start..=end`.
pub open spec fn spec_size_bytes(start: u64, end: u64) -> int {
    (end - start + 1) * 512
}

impl Partition {
    /// Size in bytes: `(end_lba - start_lba + 1) * 512`.
    pub fn size_bytes(&self) -> (r: u64)
        requires
            self.start_lba <= self.end_lba,
            spec_size_bytes(self.start_lba, self.end_lba) <= u64::MAX,
        ensures
            r == spec_size_bytes(self.start_lba, self.end_lba),
    {
        (self.end_lba - self.start_lba + 1) * 512
    }
}

/// The views of a list of partitions.
pub open spec fn partition_views(v: Seq<Partition>) -> Seq<DiskPart> {
    v.map_values(|p: Partition| p@)
}

fn is_zero_prefix16(raw: &[u8]) -> (r: bool)
    requires
        raw@.len() >= 16,
    ensures
        r == (raw@.take(16) == zeros(16)),
{
    let mut i: usize = 0;
    while i < 16
        invariant
            i <= 16,
            raw@.len() >= 16,
            raw@.take(i as int) == zeros(i as nat),
        decreases 16 - i,
    {
        if raw[i] != 0 {
            assert(raw@.take(16)[i as int] != zeros(16)[i as int]);
            return false;
        }
        i += 1;
        assert(raw@.take(i as int) =~= zeros(i as nat));
    }
    true
}

/// Parse one 128-byte entry: `None` for an unused entry (zero type GUID).
pub fn parse_entry(raw: &[u8]) -> (p: Option<Partition>)
    requires
        raw@.len() == 128,
    ensures
        match p {
            Some(q) => spec_parse_entry(raw@) == Some(q@),
            None => spec_parse_entry(raw@) is None,
        },
{
    if is_zero_prefix16(raw) {
        return None;
    }
    let ghost all = spec_entry_units(raw@);
    let mut units: Vec<u16> = Vec::new();
    let mut k: usize = 0;
    while k < 36
        invariant
            k <= 36,
            raw@.len() == 128,
            all == spec_entry_units(raw@),
            units@ == all.take(k as int),
            forall|j: int| 0 <= j < k ==> all[j] != 0,
        ensures
            k <= 36,
            units@ == all.take(k as int),
            forall|j: int| 0 <= j < k ==> all[j] != 0,
            k == 36 || all[k as int] == 0,
        decreases 36 - k,
    {
        let u: u16 = (raw[56 + 2 * k] as u16) | ((raw[57 + 2 * k] as u16) << 8u16);
        assert(u == all[k as int]);
        if u == 0 {
            break;
        }
        units.push(u);
        k += 1;
        assert(units@ =~= all.take(k as int));
    }
    proof {
        lemma_take_until_zero(all, k as int);
    }
    let name = string_from_utf16_lossy(units.as_slice());
    let start_lba = read_u64_le(raw, 32);
    let end_lba = read_u64_le(raw, 40);
    Some(Partition { name, start_lba, end_lba })
}

/// The used entries of an entry array (a whole number of 128-byte entries), in order.
pub fn parse_partitions(bytes: &[u8]) -> (v: Vec<Partition>)
    requires
        bytes@.len() % 128 == 0,
    ensures
        partition_views(v@) == spec_parse_entries(bytes@, bytes@.len() / 128),
{
    let n = bytes.len() / ENTRY_BYTES;
    assert(128 * n == bytes@.len()) by (nonlinear_arith)
        requires
            n == bytes@.len() / 128,
            bytes@.len() % 128 == 0,
    ;
    let mut v: Vec<Partition> = Vec::new();
    let mut j: usize = 0;
    while j < n
        invariant
            j <= n,
            n == bytes@.len() / 128,
            128 * n == bytes.len(),
            bytes@.len() % 128 == 0,
            partition_views(v@) == spec_parse_entries(bytes@, j as nat),
        decreases n - j,
    {
        let raw = slice_subrange(bytes, ENTRY_BYTES * j, ENTRY_BYTES * j + ENTRY_BYTES);
        let p = parse_entry(raw);
        let ghost prev = v@;
        match p {
            Some(q) => {
                v.push(q);
                assert(partition_views(v@) =~= partition_views(prev).push(q@));
            },
            None => {},
        }
        j += 1;
    }
    v
}

/// The alternate header's LBA recorded in a primary header, or `None` when the block
/// holds no GPT header.
pub fn alternate_header_lba(hdr: &[u8]) -> (r: Option<u64>)
    requires
        hdr@.len() >= 40,
    ensures
        r == (if hdr@.take(8) == spec_signature() { Some(le64_at(hdr@, 32)) } else { None::<u64> }),
{
    if !has_gpt_signature(hdr) {
        return None;
    }
    Some(read_u64_le(hdr, 32))
}

/// Bytes to read for the entry array: `entry_count * entry_size` rounded up to whole LBAs.
pub fn entry_array_bytes(entry_count: u32, entry_size: u32) -> (r: u64)
    requires
        entry_count * entry_size + 511 <= u32::MAX,
    ensures
        r % 512 == 0,
        r >= entry_count * entry_size,
        r < entry_count * entry_size + 512,
{
    let total = entry_count * entry_size;
    let r = if total % 512 == 0 { total } else { total + (512 - total % 512) };
    r as u64
}

// ---- the fixed layout ----

/// The fixed layout: name, first LBA and size in LBAs (`0` = up to the last usable LBA).
pub open spec fn spec_layout() -> Seq<(Seq<char>, u64, u64)> {
    seq![
        ("sbi"@, 2048u64, 1024u64),
        ("kernel"@, 4096u64, 24576u64),
        ("dtb"@, 28672u64, 512u64),
        ("initramfs"@, 32768u64, 131072u64),
        ("rootfs"@, 163840u64, 0u64),
    ]
}

/// The size a layout row resolves to.
pub open spec fn resolved_size(start: u64, size: u64, last_usable: u64) -> int {
    if size == 0 {
        (if last_usable >= start { last_usable - start } else { 0 }) + 1
    } else {
        size as int
    }
}

/// The layout resolved below `last_usable`.
pub open spec fn resolved_layout(last_usable: u64) -> Seq<PlannedPart> {
    spec_layout().map_values(|row: (Seq<char>, u64, u64)| resolved_row(row, last_usable))
}

/// A resolved row fits below the last usable LBA.
pub open spec fn row_fits(row: (Seq<char>, u64, u64), last_usable: u64) -> bool {
    row.1 + resolved_size(row.1, row.2, last_usable) - 1 <= last_usable
}

/// A resolved row.
pub open spec fn resolved_row(row: (Seq<char>, u64, u64), last_usable: u64) -> PlannedPart {
    (row.0, row.1, resolved_size(row.1, row.2, last_usable) as u64)
}

/// Errors of the layout and table planning.
pub enum GptPlanError {
    /// Neither a header on disk nor the caller gives the disk size.
    UnknownDiskLbaCount,
    /// The disk cannot hold the GPT.
    DiskTooSmall,
    /// A partition ends past the last usable LBA (its name, and the last usable LBA).
    PartitionOutOfRange(String, u64),
}

fn layout_rows() -> (v: Vec<(&'static str, u64, u64)>)
    ensures
        v@.len() == 5,
        forall|i: int| 0 <= i < 5 ==> (#[trigger] v@[i]).0@ == spec_layout()[i].0 && v@[i].1 == spec_layout()[i].1
            && v@[i].2 == spec_layout()[i].2,
{
    let v = vec![
        ("sbi", 2048u64, 1024u64),
        ("kernel", 4096u64, 24576u64),
        ("dtb", 28672u64, 512u64),
        ("initramfs", 32768u64, 131072u64),
        ("rootfs", 163840u64, 0u64),
    ];
    v
}

/// Resolve the fixed layout below `last_usable`: the root filesystem takes the rest of
/// the disk; the first row that does not fit is reported.
pub fn resolve_layout(last_usable: u64) -> (r: Result<Vec<(String, u64, u64)>, GptPlanError>)
    requires
        last_usable < u64::MAX,
    ensures
        match r {
            Ok(v) => (forall|i: int| 0 <= i < 5 ==> row_fits(#[trigger] spec_layout()[i], last_usable))
                && planned_views(v@) == resolved_layout(last_usable),
            Err(GptPlanError::PartitionOutOfRange(name, last)) => exists|k: int|
                0 <= k < 5 && !row_fits(#[trigger] spec_layout()[k], last_usable) && (forall|i: int|
                    0 <= i < k ==> row_fits(#[trigger] spec_layout()[i], last_usable)) && name@
                    == spec_layout()[k].0 && last == last_usable,
            Err(_) => false,
        },
{
    let rows = layout_rows();
    let ghost target = resolved_layout(last_usable);
    let mut out: Vec<(String, u64, u64)> = Vec::new();
    let mut i: usize = 0;
    while i < 5
        invariant
            i <= 5,
            last_usable < u64::MAX,
            rows@.len() == 5,
            forall|j: int| 0 <= j < 5 ==> (#[trigger] rows@[j]).0@ == spec_layout()[j].0 && rows@[j].1
                == spec_layout()[j].1 && rows@[j].2 == spec_layout()[j].2,
            target == resolved_layout(last_usable),
            forall|j: int| 0 <= j < i ==> row_fits(#[trigger] spec_layout()[j], last_usable),
            planned_views(out@) == target.take(i as int),
            out@.len() == i,
        decreases 5 - i,
    {
        let (name, start, size) = rows[i];
        let size = if size == 0 { last_usable.saturating_sub(start) + 1 } else { size };
        if start as u128 + size as u128 - 1 > last_usable as u128 {
            let ghost k = i as int;
            assert(!row_fits(spec_layout()[k], last_usable));
            return Err(GptPlanError::PartitionOutOfRange(name.to_owned(), last_usable));
        }
        let ghost prev = out@;
        let owned = name.to_owned();
        assert(owned@ == spec_layout()[i as int].0);
        assert(size == resolved_size(start, rows@[i as int].2, last_usable));
        out.push((owned, start, size));
        assert(planned_view(out@[i as int]) == target[i as int]);
        i += 1;
        assert(planned_views(out@) =~= target.take(i as int));
    }
    assert(target.take(5) =~= target);
    Ok(out)
}

// ---- a fresh table ----

/// The LBA of the alternate header: the one a header on disk records, else the caller's
/// disk size minus one.
pub open spec fn spec_alternate_lba(on_disk: Option<u64>, disk_lba_count: Option<u64>) -> Option<u64> {
    match on_disk {
        Some(a) => Some(a),
        None => match disk_lba_count {
            Some(n) => Some(if n == 0 { 0 } else { (n - 1) as u64 }),
            None => None,
        },
    }
}

/// What writing a fresh GPT consists of: the primary copy written at LBA 0, and the
/// alternate copy (entries, then header) written at `alternate_entry_lba`.
pub struct GptInitPlan {
    /// Protective MBR, primary header and entry array, from LBA 0.
    pub primary: Vec<u8>,
    /// First LBA of the alternate entry array.
    pub alternate_entry_lba: u64,
    /// Alternate entry array followed by the alternate header.
    pub alternate: Vec<u8>,
}

/// The table written for the resolved layout `parts`, with the given GUIDs.
pub open spec fn spec_init_plan(
    alt: u64,
    parts: Seq<PlannedPart>,
    disk_guid: [u8; 16],
    guids: Seq<[u8; 16]>,
) -> (Seq<u8>, u64, Seq<u8>) {
    let last = (alt - 33) as u64;
    let area = spec_entries_area(parts, guids);
    let crc = crc32_ieee(area);
    let alt_entry_lba = (alt - 32) as u64;
    (
        spec_pmbr((alt + 1) as u64) + spec_header(1, alt, 34, last, 2, disk_guid@, crc) + area,
        alt_entry_lba,
        area + spec_header(alt, 1, 34, last, alt_entry_lba, disk_guid@, crc),
    )
}

/// Plan a fresh GPT from the alternate-header LBA recorded on disk (if any) or the
/// caller's disk size, with the given disk GUID and partition GUIDs.
pub fn plan_gpt_init_with(
    on_disk_alternate_lba: Option<u64>,
    disk_lba_count: Option<u64>,
    disk_guid: [u8; 16],
    guids: &Vec<[u8; 16]>,
) -> (r: Result<GptInitPlan, GptPlanError>)
    requires
        guids.len() == 5,
        spec_alternate_lba(on_disk_alternate_lba, disk_lba_count) != Some(u64::MAX),
    ensures
        match spec_alternate_lba(on_disk_alternate_lba, disk_lba_count) {
            None => r matches Err(GptPlanError::UnknownDiskLbaCount),
            Some(alt) => if alt < 33 {
                r matches Err(GptPlanError::DiskTooSmall)
            } else if forall|i: int| 0 <= i < 5 ==> row_fits(#[trigger] spec_layout()[i], (alt - 33) as u64) {
                r matches Ok(plan) && {
                    let s = spec_init_plan(alt, resolved_layout((alt - 33) as u64), disk_guid, guids@);
                    plan.primary@ == s.0 && plan.alternate_entry_lba == s.1 && plan.alternate@ == s.2
                }
            } else {
                r matches Err(GptPlanError::PartitionOutOfRange(name, last)) && last == alt - 33 && exists|k: int|
                    0 <= k < 5 && !row_fits(#[trigger] spec_layout()[k], (alt - 33) as u64) && (forall|i: int|
                        0 <= i < k ==> row_fits(#[trigger] spec_layout()[i], (alt - 33) as u64)) && name@
                        == spec_layout()[k].0
            },
        },
{
    let alt = match on_disk_alternate_lba {
        Some(a) => a,
        None => match disk_lba_count {
            Some(n) => n.saturating_sub(1),
            None => return Err(GptPlanError::UnknownDiskLbaCount),
        },
    };
    let disk = alt + 1;
    if alt < TAIL_OCCUPY_LBA_COUNT {
        return Err(GptPlanError::DiskTooSmall);
    }
    let last_usable = alt - TAIL_OCCUPY_LBA_COUNT;
    let parts = match resolve_layout(last_usable) {
        Ok(p) => p,
        Err(e) => {
            return Err(e);
        },
    };
    let ghost pv = planned_views(parts@);
    assert(pv.len() == parts@.len());
    assert(parts.len() == 5);
    assert forall|i: int| 0 <= i < parts.len() implies planned_ok(planned_view(#[trigger] parts@[i])) by {
        assert(pv[i] == planned_view(parts@[i]));
        assert(row_fits(spec_layout()[i], last_usable));
    }
    let entries = build_entries_with_guids(&parts, guids);
    let crc = crc32(entries.as_slice());
    let mut primary = build_pmbr(disk);
    let mut hdr = build_header(GPT_HEADER_LBA, alt, FIRST_USABLE_LBA, last_usable, ENTRY_LBA, disk_guid, crc);
    primary.append(&mut hdr);
    let mut ent_copy = entries.clone();
    primary.append(&mut ent_copy);
    let alternate_entry_lba = alt - ENTRY_LBA_COUNT;
    let mut alternate = entries;
    let mut alt_hdr = build_header(alt, GPT_HEADER_LBA, FIRST_USABLE_LBA, last_usable, alternate_entry_lba, disk_guid, crc);
    alternate.append(&mut alt_hdr);
    Ok(GptInitPlan { primary, alternate_entry_lba, alternate })
}

/// Plan a fresh GPT with a random disk GUID and random partition GUIDs.
pub fn plan_gpt_init(on_disk_alternate_lba: Option<u64>, disk_lba_count: Option<u64>) -> (r: Result<GptInitPlan, GptPlanError>)
    requires
        spec_alternate_lba(on_disk_alternate_lba, disk_lba_count) != Some(u64::MAX),
    ensures
        match spec_alternate_lba(on_disk_alternate_lba, disk_lba_count) {
            None => r matches Err(GptPlanError::UnknownDiskLbaCount),
            Some(alt) => if alt < 33 {
                r matches Err(GptPlanError::DiskTooSmall)
            } else if forall|i: int| 0 <= i < 5 ==> row_fits(#[trigger] spec_layout()[i], (alt - 33) as u64) {
                r matches Ok(plan) && exists|disk_guid: [u8; 16], guids: Seq<[u8; 16]>|
                    guids.len() == 5 && plan.primary@ == (#[trigger] spec_init_plan(
                        alt,
                        resolved_layout((alt - 33) as u64),
                        disk_guid,
                        guids,
                    )).0 && plan.alternate_entry_lba == spec_init_plan(
                        alt,
                        resolved_layout((alt - 33) as u64),
                        disk_guid,
                        guids,
                    ).1 && plan.alternate@ == spec_init_plan(
                        alt,
                        resolved_layout((alt - 33) as u64),
                        disk_guid,
                        guids,
                    ).2
            } else {
                r matches Err(GptPlanError::PartitionOutOfRange(name, last)) && last == alt - 33 && exists|k: int|
                    0 <= k < 5 && !row_fits(#[trigger] spec_layout()[k], (alt - 33) as u64) && (forall|i: int|
                        0 <= i < k ==> row_fits(#[trigger] spec_layout()[i], (alt - 33) as u64)) && name@
                        == spec_layout()[k].0
            },
        },
{
    let disk_guid = random_guid();
    let mut guids: Vec<[u8; 16]> = Vec::new();
    let mut i: usize = 0;
    while i < 5
        invariant
            i <= 5,
            guids.len() == i,
        decreases 5 - i,
    {
        guids.push(random_guid());
        i += 1;
    }
    plan_gpt_init_with(on_disk_alternate_lba, disk_lba_count, disk_guid, &guids)
}

/// Why a flash request is refused before anything is written.
pub enum GptFlashError {
    /// No partition has this name.
    NotFound(String),
    /// The file (first size) exceeds the partition (second size), in bytes.
    FileTooLarge(u64, u64),
}

/// What planning a flash decides: the start LBA of each file, or the first refusal.
pub enum FlashOutcome {
    /// Every file fits its partition; these are the partitions' first LBAs, in order.
    Planned(Seq<u64>),
    /// The named partition does not exist.
    NotFound(Seq<char>),
    /// A file (first size) is larger than its partition (second size).
    FileTooLarge(u64, u64),
}

/// Index of the first listed partition called `name`.
pub open spec fn first_index_named(parts: Seq<DiskPart>, name: Seq<char>) -> Option<int>
    decreases parts.len(),
{
    if parts.len() == 0 {
        None
    } else {
        match first_index_named(parts.drop_last(), name) {
            Some(i) => Some(i),
            None => if parts.last().0 == name { Some(parts.len() - 1) } else { None },
        }
    }
}

/// The flash plan for `jobs` (partition name, file size) over the listed `parts`: files are
/// checked in order; each must name a listed partition (the first of that name) and fit in
/// it.
pub open spec fn spec_flash_plan(parts: Seq<DiskPart>, jobs: Seq<(Seq<char>, u64)>) -> FlashOutcome
    decreases jobs.len(),
{
    if jobs.len() == 0 {
        FlashOutcome::Planned(Seq::empty())
    } else {
        match spec_flash_plan(parts, jobs.drop_last()) {
            FlashOutcome::Planned(v) => {
                let job = jobs.last();
                match first_index_named(parts, job.0) {
                    None => FlashOutcome::NotFound(job.0),
                    Some(i) => {
                        let size = spec_size_bytes(parts[i].1, parts[i].2);
                        if job.1 > size {
                            FlashOutcome::FileTooLarge(job.1, size as u64)
                        } else {
                            FlashOutcome::Planned(v.push(parts[i].1))
                        }
                    },
                }
            },
            other => other,
        }
    }
}

/// A partition spans a non-empty LBA range whose byte size fits in 64 bits.
pub open spec fn part_sized(p: DiskPart) -> bool {
    p.1 <= p.2 && spec_size_bytes(p.1, p.2) <= u64::MAX
}

/// Every partition whose size the plan computes is sized: the partition named by job `k`,
/// whenever the jobs before `k` were all planned.
pub open spec fn jobs_sized(parts: Seq<DiskPart>, jobs: Seq<(Seq<char>, u64)>) -> bool {
    forall|k: int| #![trigger jobs[k]]
        0 <= k < jobs.len() && spec_flash_plan(parts, jobs.take(k)) is Planned ==> match first_index_named(
            parts,
            jobs[k].0,
        ) {
            Some(i) => part_sized(parts[i]),
            None => true,
        }
}

fn find_named(partitions: &Vec<Partition>, name: &String) -> (r: Option<usize>)
    ensures
        r matches Some(i) ==> i < partitions@.len() && first_index_named(partition_views(partitions@), name@) == Some(i as int),
        r is None ==> first_index_named(partition_views(partitions@), name@) is None,
{
    let ghost views = partition_views(partitions@);
    let mut k: usize = 0;
    while k < partitions.len()
        invariant
            k <= partitions.len(),
            views == partition_views(partitions@),
            first_index_named(views.take(k as int), name@) is None,
        decreases partitions.len() - k,
    {
        assert(views.take(k + 1).drop_last() =~= views.take(k as int));
        if partitions[k].name == *name {
            assert(first_index_named(views.take(k + 1), name@) == Some(k as int));
            proof {
                lemma_first_index_prefix(views, name@, k + 1);
            }
            return Some(k);
        }
        k = k + 1;
    }
    assert(views.take(partitions.len() as int) =~= views);
    None
}

proof fn lemma_first_index_bounds(parts: Seq<DiskPart>, name: Seq<char>)
    ensures
        first_index_named(parts, name) matches Some(i) ==> 0 <= i < parts.len() && parts[i].0 == name,
    decreases parts.len(),
{
    if parts.len() > 0 {
        lemma_first_index_bounds(parts.drop_last(), name);
    }
}

proof fn lemma_first_index_prefix(parts: Seq<DiskPart>, name: Seq<char>, n: int)
    requires
        0 <= n <= parts.len(),
        first_index_named(parts.take(n), name) is Some,
    ensures
        first_index_named(parts, name) == first_index_named(parts.take(n), name),
    decreases parts.len() - n,
{
    if n < parts.len() {
        assert(parts.take(n + 1).drop_last() =~= parts.take(n));
        lemma_first_index_prefix(parts, name, n + 1);
    } else {
        assert(parts.take(n) =~= parts);
    }
}

/// Check a flash request against the listed partitions: for each (name, file size), the
/// first partition of that name must exist and be at least as large as the file. The
/// result is the start LBA of each file's partition, in order, or the first refusal.
pub fn plan_gpt_flash(partitions: &Vec<Partition>, jobs: &Vec<(String, u64)>) -> (r: Result<Vec<u64>, GptFlashError>)
    requires
        jobs_sized(partition_views(partitions@), jobs@.map_values(|j: (String, u64)| (j.0@, j.1))),
    ensures
        match r {
            Ok(v) => spec_flash_plan(partition_views(partitions@), jobs@.map_values(|j: (String, u64)| (j.0@, j.1)))
                == FlashOutcome::Planned(v@),
            Err(GptFlashError::NotFound(n)) => spec_flash_plan(
                partition_views(partitions@),
                jobs@.map_values(|j: (String, u64)| (j.0@, j.1)),
            ) == FlashOutcome::NotFound(n@),
            Err(GptFlashError::FileTooLarge(a, b)) => spec_flash_plan(
                partition_views(partitions@),
                jobs@.map_values(|j: (String, u64)| (j.0@, j.1)),
            ) == FlashOutcome::FileTooLarge(a, b),
        },
{
    let ghost views = partition_views(partitions@);
    let ghost js = jobs@.map_values(|j: (String, u64)| (j.0@, j.1));
    let mut out: Vec<u64> = Vec::new();
    let mut k: usize = 0;
    while k < jobs.len()
        invariant
            k <= jobs.len(),
            views == partition_views(partitions@),
            js == jobs@.map_values(|j: (String, u64)| (j.0@, j.1)),
            jobs_sized(views, js),
            spec_flash_plan(views, js.take(k as int)) == FlashOutcome::Planned(out@),
        decreases jobs.len() - k,
    {
        assert(js.take(k + 1).drop_last() =~= js.take(k as int));
        assert(js.take(k + 1).last() == (jobs@[k as int].0@, jobs@[k as int].1));
        let name = &jobs[k].0;
        let size = jobs[k].1;
        match find_named(partitions, name) {
            None => {
                proof {
                    lemma_flash_plan_prefix_stops(views, js, k + 1);
                }
                return Err(GptFlashError::NotFound(name.clone()));
            },
            Some(i) => {
                proof {
                    lemma_first_index_bounds(views, name@);
                    assert(js[k as int] == (name@, size));
                    assert(part_sized(views[i as int]));
                }
                assert(views[i as int] == partitions@[i as int]@);
                let part_size = partitions[i].size_bytes();
                assert(js.take(k + 1).last() == (name@, size));
                assert(spec_size_bytes(views[i as int].1, views[i as int].2) == part_size);
                if size > part_size {
                    assert(spec_flash_plan(views, js.take(k + 1)) == FlashOutcome::FileTooLarge(size, part_size));
                    proof {
                        lemma_flash_plan_prefix_stops(views, js, k + 1);
                    }
                    return Err(GptFlashError::FileTooLarge(size, part_size));
                }
                out.push(partitions[i].start_lba);
            },
        }
        k = k + 1;
    }
    assert(js.take(jobs.len() as int) =~= js);
    Ok(out)
}

proof fn lemma_flash_plan_prefix_stops(parts: Seq<DiskPart>, jobs: Seq<(Seq<char>, u64)>, n: int)
    requires
        0 <= n <= jobs.len(),
        !(spec_flash_plan(parts, jobs.take(n)) is Planned),
    ensures
        spec_flash_plan(parts, jobs) == spec_flash_plan(parts, jobs.take(n)),
    decreases jobs.len() - n,
{
    if n < jobs.len() {
        assert(jobs.take(n + 1).drop_last() =~= jobs.take(n));
        lemma_flash_plan_prefix_stops(parts, jobs, n + 1);
    } else {
        assert(jobs.take(n) =~= jobs);
    }
}

proof fn lemma_bmp_name_fits(name: Seq<char>)
    requires
        name.len() <= 36,
        forall|i: int| 0 <= i < name.len() ==> 0 < (#[trigger] name[i] as u32) < 0x10000,
    ensures
        encode_utf16(name).len() == name.len(),
        name_fits(name),
    decreases name.len(),
{
    if name.len() > 0 {
        assert forall|i: int| 0 <= i < name.drop_first().len() implies 0 < (#[trigger] name.drop_first()[i] as u32) < 0x10000 by {
            assert(name.drop_first()[i] == name[i + 1]);
        }
        lemma_bmp_name_fits(name.drop_first());
    }
}

proof fn lemma_layout_names_fit()
    ensures
        forall|i: int| 0 <= i < 5 ==> name_fits(#[trigger] spec_layout()[i].0),
{
    reveal_strlit("sbi");
    reveal_strlit("kernel");
    reveal_strlit("dtb");
    reveal_strlit("initramfs");
    reveal_strlit("rootfs");
    lemma_bmp_name_fits("sbi"@);
    lemma_bmp_name_fits("kernel"@);
    lemma_bmp_name_fits("dtb"@);
    lemma_bmp_name_fits("initramfs"@);
    lemma_bmp_name_fits("rootfs"@);
}

/// Listing a freshly initialised disk gives back the fixed layout: the entry array of the
/// primary copy (after the protective MBR and the primary header) and the one at the start
/// of the alternate copy both parse to the resolved partitions, in order, each with its
/// name, first LBA and last LBA, whatever GUIDs were drawn.
pub proof fn gpt_init_then_list(alt: u64, disk_guid: [u8; 16], guids: Seq<[u8; 16]>)
    requires
        guids.len() == 5,
        33 <= alt < u64::MAX,
        forall|i: int| 0 <= i < 5 ==> row_fits(#[trigger] spec_layout()[i], (alt - 33) as u64),
    ensures
        ({
            let parts = resolved_layout((alt - 33) as u64);
            let s = spec_init_plan(alt, parts, disk_guid, guids);
            &&& spec_parse_entries(s.0.subrange(1024, 17408), 128) == parts.map_values(|p: PlannedPart| listed(p))
            &&& spec_parse_entries(s.2.subrange(0, 16384), 128) == parts.map_values(|p: PlannedPart| listed(p))
        }),
{
    let last = (alt - 33) as u64;
    let parts = resolved_layout(last);
    lemma_layout_names_fit();
    assert forall|i: int| 0 <= i < parts.len() implies planned_ok(#[trigger] parts[i]) && name_fits(parts[i].0) by {
        assert(parts[i] == resolved_row(spec_layout()[i], last));
        assert(row_fits(spec_layout()[i], last));
    }
    entries_roundtrip(parts, guids);
    let area = spec_entries_area(parts, guids);
    let crc = crc32_ieee(area);
    pmbr_layout((alt + 1) as u64);
    header_roundtrip(1, alt, 34, last, 2, disk_guid, crc);
    header_roundtrip(alt, 1, 34, last, (alt - 32) as u64, disk_guid, crc);
    let s = spec_init_plan(alt, parts, disk_guid, guids);
    let h1 = spec_header(1, alt, 34, last, 2, disk_guid@, crc);
    let h2 = spec_header(alt, 1, 34, last, (alt - 32) as u64, disk_guid@, crc);
    assert(s.0 == spec_pmbr((alt + 1) as u64) + h1 + area);
    assert(s.0.subrange(1024, 17408) =~= area);
    assert(s.2 == area + h2);
    assert(s.2.subrange(0, 16384) =~= area);
}

/// Both copies of a freshly planned table record the checksum of the entries they carry:
/// the primary header (bytes 512..1024 of the primary copy) and the alternate header
/// (bytes 16384..16896 of the alternate copy, right after its entry array) hold at their
/// offset 88 (bytes 600 and 16472 of the two copies) the CRC-32 of their own 16384-byte
/// entry array, so the two fields are equal.
pub proof fn gpt_init_headers_check_entries(alt: u64, disk_guid: [u8; 16], guids: Seq<[u8; 16]>)
    requires
        guids.len() == 5,
        33 <= alt < u64::MAX,
        forall|i: int| 0 <= i < 5 ==> row_fits(#[trigger] spec_layout()[i], (alt - 33) as u64),
    ensures
        ({
            let s = spec_init_plan(alt, resolved_layout((alt - 33) as u64), disk_guid, guids);
            &&& le32_at(s.0, 600) == crc32_ieee(s.0.subrange(1024, 17408))
            &&& le32_at(s.2, 16472) == crc32_ieee(s.2.subrange(0, 16384))
            &&& le32_at(s.2, 16472) == le32_at(s.0, 600)
        }),
{
    let last = (alt - 33) as u64;
    let parts = resolved_layout(last);
    lemma_layout_names_fit();
    assert forall|i: int| 0 <= i < parts.len() implies planned_ok(#[trigger] parts[i]) && name_fits(parts[i].0) by {
        assert(parts[i] == resolved_row(spec_layout()[i], last));
        assert(row_fits(spec_layout()[i], last));
    }
    entries_roundtrip(parts, guids);
    let area = spec_entries_area(parts, guids);
    let crc = crc32_ieee(area);
    pmbr_layout((alt + 1) as u64);
    header_roundtrip(1, alt, 34, last, 2, disk_guid, crc);
    header_roundtrip(alt, 1, 34, last, (alt - 32) as u64, disk_guid, crc);
    let s = spec_init_plan(alt, parts, disk_guid, guids);
    let m = spec_pmbr((alt + 1) as u64);
    let h1 = spec_header(1, alt, 34, last, 2, disk_guid@, crc);
    let h2 = spec_header(alt, 1, 34, last, (alt - 32) as u64, disk_guid@, crc);
    assert(s.0 == m + h1 + area);
    assert(s.0.subrange(1024, 17408) =~= area);
    assert(s.0.subrange(600, 604) =~= h1.subrange(88, 92));
    assert(s.2 == area + h2);
    assert(s.2.subrange(0, 16384) =~= area);
    assert(s.2.subrange(16472, 16476) =~= h2.subrange(88, 92));
}

} // verus!
