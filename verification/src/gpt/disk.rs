//! The GPT on disk: protective MBR, header and partition-entry array, built and parsed
//! as byte sequences.
use vstd::prelude::*;
use vstd::bytes::*;
use vstd::slice::slice_subrange;
use crate::utf16::{
    decode_utf16_lossy, encode_str_utf16, encode_utf16, lemma_decode_encode, lemma_encode_no_zero,
};

verus! {

broadcast use vstd::seq_lib::group_seq_properties;

/// Logical block size of the NVMe disk.
pub const LBA_BYTES: usize = 512;
/// Bytes per GPT partition entry.
pub const ENTRY_BYTES: usize = 128;
/// Partition entries per LBA.
pub const ENTRY_COUNT_PER_LBA: usize = 4;
/// LBA of the primary GPT header (LBA 0 holds the protective MBR).
pub const GPT_HEADER_LBA: u64 = 1;
/// Number of partition entries written by this tool.
pub const ENTRY_COUNT: u64 = 128;
/// First LBA of the primary entry array.
pub const ENTRY_LBA: u64 = 2;
/// LBAs taken by the entry array.
pub const ENTRY_LBA_COUNT: u64 = 32;
/// Bytes of the whole entry array.
pub const TOTAL_ENTRIES_BYTES: usize = 16384;
/// LBAs taken at the head of the disk: protective MBR, header and entries.
pub const HEAD_OCCUPY_LBA_COUNT: u64 = 34;
/// First LBA a partition may use.
pub const FIRST_USABLE_LBA: u64 = 34;
/// LBAs taken at the tail of the disk: the alternate entries and header.
pub const TAIL_OCCUPY_LBA_COUNT: u64 = 33;
/// LBAs taken by the alternate header.
pub const ALTERNATE_GPT_HEADER_LBA_COUNT: u64 = 1;
/// Size of the checksummed part of the header.
pub const HEADER_SIZE: u32 = 92;
/// GPT revision 1.0.
pub const GPT_REVISION: u32 = 0x0001_0000;
/// Bytes of the UTF-16LE name field of an entry.
pub const NAME_BYTES: usize = 72;
/// Code units of the name field of an entry.
pub const NAME_UNITS: usize = 36;

/// `n` zero bytes.
pub open spec fn zeros(n: nat) -> Seq<u8> {
    Seq::new(n, |_i: int| 0u8)
}

/// `n` zero code units.
pub open spec fn zero_units(n: nat) -> Seq<u16> {
    Seq::new(n, |_i: int| 0u16)
}

/// `EFI PART`.
pub open spec fn spec_signature() -> Seq<u8> {
    seq![0x45u8, 0x46, 0x49, 0x20, 0x50, 0x41, 0x52, 0x54]
}

/// Partition type GUID of a Linux filesystem, as stored on disk.
pub open spec fn spec_type_linux() -> Seq<u8> {
    seq![0xafu8, 0x3d, 0xc6, 0x0f, 0x83, 0x84, 0x72, 0x47, 0x8e, 0x79, 0x3d, 0x69, 0xd8, 0x47, 0x7d, 0xe4]
}

/// Little-endian bytes of a word.
pub open spec fn le32(x: u32) -> Seq<u8> {
    spec_u32_to_le_bytes(x)
}

/// Little-endian bytes of a double word.
pub open spec fn le64(x: u64) -> Seq<u8> {
    spec_u64_to_le_bytes(x)
}

/// The word stored little-endian at `off`.
pub open spec fn le32_at(s: Seq<u8>, off: int) -> u32 {
    spec_u32_from_le_bytes(s.subrange(off, off + 4))
}

/// The double word stored little-endian at `off`.
pub open spec fn le64_at(s: Seq<u8>, off: int) -> u64 {
    spec_u64_from_le_bytes(s.subrange(off, off + 8))
}

/// One bit of the reflected CRC-32 register: shift right, XOR-ing the reflected IEEE
/// polynomial `0xEDB88320` in when the bit shifted out is 1.
pub open spec fn crc32_shift(c: u32) -> u32 {
    if (c & 1) == 1 { (c >> 1u32) ^ 0xEDB8_8320u32 } else { c >> 1u32 }
}

/// `n` bit steps of the register.
pub open spec fn crc32_bits(c: u32, n: nat) -> u32
    decreases n,
{
    if n == 0 { c } else { crc32_bits(crc32_shift(c), (n - 1) as nat) }
}

/// The register after `data`: from all ones, each byte XOR-ed into the low byte and
/// followed by eight bit steps.
pub open spec fn crc32_register(data: Seq<u8>) -> u32
    decreases data.len(),
{
    if data.len() == 0 {
        0xFFFF_FFFFu32
    } else {
        crc32_bits(crc32_register(data.drop_last()) ^ (data.last() as u32), 8)
    }
}

/// CRC-32 (IEEE 802.3, reflected, as zlib and the UEFI specification compute it) of
/// `data`: the complement of the final register.
#[verifier::opaque]
pub open spec fn crc32_ieee(data: Seq<u8>) -> u32 {
    !crc32_register(data)
}

/// `crc32fast::hash`: the CRC-32/IEEE of `data`, as `crc32_ieee` defines it.
#[verifier::external_body]
pub(crate) fn crc32(data: &[u8]) -> (c: u32)
    ensures
        c == crc32_ieee(data@),
{
    crc32fast::hash(data)
}

/// `rand::random::<[u8; 16]>`: sixteen random bytes. Nothing is claimed of their value.
#[verifier::external_body]
pub(crate) fn random_guid() -> (g: [u8; 16]) {
    rand::random::<[u8; 16]>()
}

/// The header with a zero checksum field.
pub open spec fn spec_header_body(
    current_lba: u64,
    alternate_lba: u64,
    first_usable: u64,
    last_usable: u64,
    entry_lba: u64,
    disk_guid: Seq<u8>,
    entries_crc: u32,
) -> Seq<u8> {
    spec_signature() + le32(GPT_REVISION) + le32(HEADER_SIZE) + zeros(8) + le64(current_lba)
        + le64(alternate_lba) + le64(first_usable) + le64(last_usable) + disk_guid + le64(entry_lba)
        + le32(128) + le32(128) + le32(entries_crc) + zeros(420)
}

/// A 512-byte GPT header; its checksum covers its first 92 bytes with the checksum field zero.
pub open spec fn spec_header(
    current_lba: u64,
    alternate_lba: u64,
    first_usable: u64,
    last_usable: u64,
    entry_lba: u64,
    disk_guid: Seq<u8>,
    entries_crc: u32,
) -> Seq<u8> {
    let body = spec_header_body(
        current_lba,
        alternate_lba,
        first_usable,
        last_usable,
        entry_lba,
        disk_guid,
        entries_crc,
    );
    body.take(16) + le32(crc32_ieee(body.take(92))) + body.skip(20)
}

/// A protective MBR covering `disk_lba_count - 1` sectors (at most `u32::MAX`).
pub open spec fn spec_pmbr(disk_lba_count: u64) -> Seq<u8> {
    let last = if disk_lba_count == 0 { 0 } else { disk_lba_count - 1 };
    let size = if last > u32::MAX { u32::MAX } else { last as u32 };
    zeros(446) + seq![0x00u8, 0x00, 0x02, 0x00, 0xEE, 0xFF, 0xFF, 0xFF] + le32(1) + le32(size)
        + zeros(48) + seq![0x55u8, 0xAA]
}

/// Little-endian bytes of a code unit.
pub open spec fn le16(x: u16) -> Seq<u8> {
    seq![(x & 0xff) as u8, ((x >> 8u16) & 0xff) as u8]
}

/// The code unit stored little-endian at `off`.
pub open spec fn le16_at(s: Seq<u8>, off: int) -> u16 {
    (s[off] as u16) | ((s[off + 1] as u16) << 8u16)
}

/// Little-endian bytes of a code-unit sequence.
pub open spec fn units_le(u: Seq<u16>) -> Seq<u8>
    decreases u.len(),
{
    if u.len() == 0 {
        Seq::empty()
    } else {
        units_le(u.drop_last()) + le16(u.last())
    }
}

/// The 72-byte name field: the first 36 units of `units`, little-endian, zero-padded.
pub open spec fn spec_name_field(units: Seq<u16>) -> Seq<u8> {
    let n = if units.len() < 36 { units.len() } else { 36 };
    units_le(units.take(n as int)) + zeros((72 - 2 * n) as nat)
}

/// One 128-byte Linux-filesystem entry.
pub open spec fn spec_entry_bytes(guid: Seq<u8>, start: u64, end: u64, units: Seq<u16>) -> Seq<u8> {
    spec_type_linux() + guid + le64(start) + le64(end) + zeros(8) + spec_name_field(units)
}

/// A planned partition: name, first LBA and size in LBAs.
pub type PlannedPart = (Seq<char>, u64, u64);

/// The view of a planned partition.
pub open spec fn planned_view(p: (String, u64, u64)) -> PlannedPart {
    (p.0@, p.1, p.2)
}

/// The views of planned partitions.
pub open spec fn planned_views(parts: Seq<(String, u64, u64)>) -> Seq<PlannedPart> {
    parts.map_values(|p: (String, u64, u64)| planned_view(p))
}

/// The entry of a planned partition with unique GUID `guid`.
pub open spec fn spec_entry_of(p: PlannedPart, guid: [u8; 16]) -> Seq<u8> {
    spec_entry_bytes(guid@, p.1, (p.1 + p.2 - 1) as u64, encode_utf16(p.0))
}

/// The entries of planned partitions, back to back.
pub open spec fn spec_entries(parts: Seq<PlannedPart>, guids: Seq<[u8; 16]>) -> Seq<u8>
    decreases parts.len(),
{
    if parts.len() == 0 {
        Seq::empty()
    } else {
        spec_entries(parts.drop_last(), guids.take(parts.len() - 1)) + spec_entry_of(
            parts.last(),
            guids[parts.len() - 1],
        )
    }
}

/// The 128-entry array: the entries of `parts`, then unused (zero) entries.
pub open spec fn spec_entries_area(parts: Seq<PlannedPart>, guids: Seq<[u8; 16]>) -> Seq<u8> {
    spec_entries(parts, guids) + zeros((TOTAL_ENTRIES_BYTES - 128 * parts.len()) as nat)
}

/// A planned partition can be written: it has at least one LBA and its last LBA fits.
pub open spec fn planned_ok(p: PlannedPart) -> bool {
    p.2 >= 1 && p.1 + p.2 - 1 <= u64::MAX
}

// ---- parsing ----

/// The 36 code units stored in an entry's name field.
pub open spec fn spec_entry_units(raw: Seq<u8>) -> Seq<u16> {
    Seq::new(36, |k: int| le16_at(raw, 56 + 2 * k))
}

/// The units before the first zero unit.
pub open spec fn take_until_zero(u: Seq<u16>) -> Seq<u16>
    decreases u.len(),
{
    if u.len() == 0 || u[0] == 0 {
        Seq::empty()
    } else {
        seq![u[0]] + take_until_zero(u.drop_first())
    }
}

/// The units before the first zero are the first `k` when none of them is zero and the
/// `k`-th (if any) is.
pub proof fn lemma_take_until_zero(u: Seq<u16>, k: int)
    requires
        0 <= k <= u.len(),
        forall|j: int| 0 <= j < k ==> u[j] != 0,
        k == u.len() || u[k] == 0,
    ensures
        take_until_zero(u) == u.take(k),
    decreases k,
{
    if k == 0 {
        assert(u.take(0) =~= Seq::<u16>::empty());
    } else {
        lemma_take_until_zero(u.drop_first(), k - 1);
        assert(seq![u[0]] + u.drop_first().take(k - 1) =~= u.take(k));
    }
}

/// A partition read from disk: name, first LBA and last LBA.
pub type DiskPart = (Seq<char>, u64, u64);

/// A 128-byte entry: `None` when its type GUID is zero (unused), else its name, first and last LBA.
pub open spec fn spec_parse_entry(raw: Seq<u8>) -> Option<DiskPart> {
    if raw.take(16) == zeros(16) {
        None
    } else {
        Some(
            (
                decode_utf16_lossy(take_until_zero(spec_entry_units(raw))),
                le64_at(raw, 32),
                le64_at(raw, 40),
            ),
        )
    }
}

/// The used entries among the first `n` entries of `bytes`, in order.
pub open spec fn spec_parse_entries(bytes: Seq<u8>, n: nat) -> Seq<DiskPart>
    decreases n,
{
    if n == 0 {
        Seq::empty()
    } else {
        let prev = spec_parse_entries(bytes, (n - 1) as nat);
        match spec_parse_entry(bytes.subrange(128 * (n - 1), 128 * n as int)) {
            Some(p) => prev.push(p),
            None => prev,
        }
    }
}

/// What the header records of the entry array and of the other header copy.
#[derive(Clone, Copy)]
pub struct GptHeaderInfo {
    /// LBA of the other header copy (offset 32).
    pub alternate_lba: u64,
    /// First LBA of the entry array (offset 72).
    pub entry_lba: u64,
    /// Number of entries (offset 80).
    pub entry_count: u32,
    /// Bytes per entry (offset 84).
    pub entry_size: u32,
}

/// A header built for a layout records that layout: reading its fields gives back what
/// was written, and its checksum field holds the CRC-32 of its first 92 bytes taken with
/// the checksum field zero.
pub proof fn header_roundtrip(
    current_lba: u64,
    alternate_lba: u64,
    first_usable: u64,
    last_usable: u64,
    entry_lba: u64,
    disk_guid: [u8; 16],
    entries_crc: u32,
)
    ensures
        ({
            let h = spec_header(
                current_lba,
                alternate_lba,
                first_usable,
                last_usable,
                entry_lba,
                disk_guid@,
                entries_crc,
            );
            &&& h.len() == 512
            &&& h.take(8) == spec_signature()
            &&& le32_at(h, 8) == GPT_REVISION
            &&& le32_at(h, 12) == HEADER_SIZE
            &&& le64_at(h, 24) == current_lba
            &&& le64_at(h, 32) == alternate_lba
            &&& le64_at(h, 40) == first_usable
            &&& le64_at(h, 48) == last_usable
            &&& h.subrange(56, 72) == disk_guid@
            &&& le64_at(h, 72) == entry_lba
            &&& le32_at(h, 80) == 128
            &&& le32_at(h, 84) == 128
            &&& le32_at(h, 88) == entries_crc
            &&& le32_at(h, 16) == crc32_ieee(h.take(16) + zeros(4) + h.subrange(20, 92))
        }),
{
    lemma_auto_spec_u64_to_from_le_bytes();
    lemma_auto_spec_u32_to_from_le_bytes();
    let body = spec_header_body(
        current_lba,
        alternate_lba,
        first_usable,
        last_usable,
        entry_lba,
        disk_guid@,
        entries_crc,
    );
    let crc = crc32_ieee(body.take(92));
    let h = body.take(16) + le32(crc) + body.skip(20);
    assert(body.len() == 512);
    assert(h.len() == 512);
    assert(h.take(8) =~= spec_signature());
    assert(h.subrange(8, 12) =~= le32(GPT_REVISION));
    assert(h.subrange(12, 16) =~= le32(HEADER_SIZE));
    assert(h.subrange(16, 20) =~= le32(crc));
    assert(h.subrange(24, 32) =~= le64(current_lba));
    assert(h.subrange(32, 40) =~= le64(alternate_lba));
    assert(h.subrange(40, 48) =~= le64(first_usable));
    assert(h.subrange(48, 56) =~= le64(last_usable));
    assert(h.subrange(56, 72) =~= disk_guid@);
    assert(h.subrange(72, 80) =~= le64(entry_lba));
    assert(h.subrange(80, 84) =~= le32(128));
    assert(h.subrange(84, 88) =~= le32(128));
    assert(h.subrange(88, 92) =~= le32(entries_crc));
    assert(h.take(16) + zeros(4) + h.subrange(20, 92) =~= body.take(92));
}

/// A protective MBR carries the boot signature, one partition of type 0xEE starting at
/// LBA 1, and a size of `disk_lba_count - 1` sectors capped at `u32::MAX`.
pub proof fn pmbr_layout(disk_lba_count: u64)
    ensures
        ({
            let m = spec_pmbr(disk_lba_count);
            let last = if disk_lba_count == 0 { 0 } else { disk_lba_count - 1 };
            &&& m.len() == 512
            &&& m[450] == 0xEE
            &&& m[510] == 0x55
            &&& m[511] == 0xAA
            &&& le32_at(m, 454) == 1
            &&& le32_at(m, 458) == (if last > u32::MAX { u32::MAX as int } else { last })
        }),
{
    lemma_auto_spec_u32_to_from_le_bytes();
    let last = if disk_lba_count == 0 { 0 } else { disk_lba_count - 1 };
    let size = if last > u32::MAX { u32::MAX } else { last as u32 };
    let m = spec_pmbr(disk_lba_count);
    assert(m.len() == 512);
    assert(m.subrange(454, 458) =~= le32(1));
    assert(m.subrange(458, 462) =~= le32(size));
}

proof fn lemma_units_le_len(u: Seq<u16>)
    ensures
        units_le(u).len() == 2 * u.len(),
    decreases u.len(),
{
    lemma_auto_spec_u16_to_from_le_bytes();
    if u.len() > 0 {
        lemma_units_le_len(u.drop_last());
    }
}

proof fn lemma_units_le_at(u: Seq<u16>, k: int)
    requires
        0 <= k < u.len(),
    ensures
        units_le(u).subrange(2 * k, 2 * k + 2) == le16(u[k]),
    decreases u.len(),
{
    lemma_auto_spec_u16_to_from_le_bytes();
    lemma_units_le_len(u.drop_last());
    if k == u.len() - 1 {
        assert(units_le(u).subrange(2 * k, 2 * k + 2) =~= le16(u[k]));
    } else {
        lemma_units_le_at(u.drop_last(), k);
        assert(units_le(u).subrange(2 * k, 2 * k + 2) =~= units_le(u.drop_last()).subrange(
            2 * k,
            2 * k + 2,
        ));
    }
}

proof fn lemma_entry_len(p: PlannedPart, guid: [u8; 16])
    ensures
        spec_entry_of(p, guid).len() == 128,
{
    lemma_auto_spec_u64_to_from_le_bytes();
    let units = encode_utf16(p.0);
    let n = if units.len() < 36 { units.len() } else { 36 };
    lemma_units_le_len(units.take(n as int));
}

proof fn lemma_entries_len(parts: Seq<PlannedPart>, guids: Seq<[u8; 16]>)
    requires
        guids.len() >= parts.len(),
    ensures
        spec_entries(parts, guids).len() == 128 * parts.len(),
    decreases parts.len(),
{
    if parts.len() > 0 {
        lemma_entries_len(parts.drop_last(), guids.take(parts.len() - 1));
        lemma_entry_len(parts.last(), guids[parts.len() - 1]);
    }
}

proof fn lemma_entries_chunk(parts: Seq<PlannedPart>, guids: Seq<[u8; 16]>, i: int)
    requires
        guids.len() >= parts.len(),
        0 <= i < parts.len(),
    ensures
        spec_entries(parts, guids).subrange(128 * i, 128 * i + 128) == spec_entry_of(parts[i], guids[i]),
    decreases parts.len(),
{
    let n = parts.len();
    let prev = spec_entries(parts.drop_last(), guids.take(n - 1));
    lemma_entries_len(parts.drop_last(), guids.take(n - 1));
    lemma_entry_len(parts.last(), guids[n - 1]);
    if i == n - 1 {
        assert(spec_entries(parts, guids).subrange(128 * i, 128 * i + 128) =~= spec_entry_of(
            parts[i],
            guids[i],
        ));
    } else {
        lemma_entries_chunk(parts.drop_last(), guids.take(n - 1), i);
        assert(spec_entries(parts, guids).subrange(128 * i, 128 * i + 128) =~= prev.subrange(
            128 * i,
            128 * i + 128,
        ));
    }
}

proof fn lemma_take_until_zero_padded(u: Seq<u16>, m: nat)
    requires
        forall|i: int| 0 <= i < u.len() ==> u[i] != 0,
    ensures
        take_until_zero(u + zero_units(m)) == u,
    decreases u.len(),
{
    if u.len() == 0 {
        if m > 0 {
            assert((u + zero_units(m))[0] == 0);
        }
        assert(take_until_zero(u + zero_units(m)) =~= u);
    } else {
        lemma_take_until_zero_padded(u.drop_first(), m);
        assert((u + zero_units(m)).drop_first() =~= u.drop_first() + zero_units(m));
        assert(seq![u[0]] + u.drop_first() =~= u);
    }
}

/// A name that fits the entry's name field and contains no NUL.
pub open spec fn name_fits(name: Seq<char>) -> bool {
    &&& encode_utf16(name).len() <= 36
    &&& forall|i: int| 0 <= i < name.len() ==> (name[i] as u32) != 0
}

proof fn lemma_parse_entry_of(p: PlannedPart, guid: [u8; 16])
    requires
        planned_ok(p),
        name_fits(p.0),
    ensures
        spec_parse_entry(spec_entry_of(p, guid)) == Some((p.0, p.1, (p.1 + p.2 - 1) as u64)),
{
    lemma_auto_spec_u64_to_from_le_bytes();
    lemma_auto_spec_u16_to_from_le_bytes();
    lemma_entry_len(p, guid);
    let units = encode_utf16(p.0);
    let n = units.len();
    let raw = spec_entry_of(p, guid);
    let field = spec_name_field(units);
    assert(units.take(n as int) =~= units);
    lemma_units_le_len(units);
    assert(raw.subrange(56, 128) =~= field);
    assert(raw.take(16) =~= spec_type_linux());
    assert(raw.take(16)[0] != zeros(16)[0]);
    assert(raw.subrange(32, 40) =~= le64(p.1));
    assert(raw.subrange(40, 48) =~= le64((p.1 + p.2 - 1) as u64));
    let got = spec_entry_units(raw);
    assert forall|k: int| 0 <= k < 36 implies got[k] == (units + zero_units((36 - n) as nat))[k] by {
        if k < n {
            lemma_units_le_at(units, k);
            let x = units[k];
            assert(raw[56 + 2 * k] == units_le(units).subrange(2 * k, 2 * k + 2)[0]);
            assert(raw[57 + 2 * k] == units_le(units).subrange(2 * k, 2 * k + 2)[1]);
            assert((((x & 0xff) as u8) as u16) | (((((x >> 8u16) & 0xff) as u8) as u16) << 8u16) == x)
                by (bit_vector);
        } else {
            assert(raw[56 + 2 * k] == 0 && raw[57 + 2 * k] == 0);
            assert(((0u8 as u16) | ((0u8 as u16) << 8u16)) == 0u16) by (bit_vector);
        }
    }
    assert(got =~= units + zero_units((36 - n) as nat));
    lemma_encode_no_zero(p.0);
    lemma_take_until_zero_padded(units, (36 - n) as nat);
    lemma_decode_encode(p.0);
}

/// The listed form of a planned partition: its name, first LBA and last LBA.
pub open spec fn listed(p: PlannedPart) -> DiskPart {
    (p.0, p.1, (p.1 + p.2 - 1) as u64)
}

proof fn lemma_parse_area_prefix(parts: Seq<PlannedPart>, guids: Seq<[u8; 16]>, m: nat)
    requires
        parts.len() <= 128,
        guids.len() == parts.len(),
        m <= 128,
        forall|i: int| 0 <= i < parts.len() ==> planned_ok(#[trigger] parts[i]) && name_fits(parts[i].0),
    ensures
        spec_parse_entries(spec_entries_area(parts, guids), m) == parts.take(
            if m < parts.len() { m as int } else { parts.len() as int },
        ).map_values(|p: PlannedPart| listed(p)),
    decreases m,
{
    let area = spec_entries_area(parts, guids);
    let n = parts.len();
    lemma_entries_len(parts, guids);
    if m > 0 {
        lemma_parse_area_prefix(parts, guids, (m - 1) as nat);
        let j = m - 1;
        let chunk = area.subrange(128 * j, 128 * j + 128);
        if j < n {
            lemma_entries_chunk(parts, guids, j);
            assert(chunk =~= spec_entries(parts, guids).subrange(128 * j, 128 * j + 128));
            lemma_parse_entry_of(parts[j], guids[j]);
            assert(parts.take(m as int).map_values(|p: PlannedPart| listed(p)) =~= parts.take(
                j,
            ).map_values(|p: PlannedPart| listed(p)).push(listed(parts[j])));
        } else {
            assert(chunk =~= zeros(128));
            assert(chunk.take(16) =~= zeros(16));
        }
    } else {
        assert(parts.take(0).map_values(|p: PlannedPart| listed(p)) =~= Seq::<DiskPart>::empty());
    }
}

/// Listing a freshly written entry array gives back the planned partitions: every entry
/// parses to its partition's name, first LBA and last LBA, in order, and the unused
/// entries after them list nothing. Holds when each name fits the 36-unit name field and
/// contains no NUL.
pub proof fn entries_roundtrip(parts: Seq<PlannedPart>, guids: Seq<[u8; 16]>)
    requires
        parts.len() <= 128,
        guids.len() == parts.len(),
        forall|i: int| 0 <= i < parts.len() ==> planned_ok(#[trigger] parts[i]) && name_fits(parts[i].0),
    ensures
        spec_entries_area(parts, guids).len() == TOTAL_ENTRIES_BYTES,
        spec_parse_entries(spec_entries_area(parts, guids), 128) == parts.map_values(
            |p: PlannedPart| listed(p),
        ),
{
    lemma_entries_len(parts, guids);
    lemma_parse_area_prefix(parts, guids, 128);
    assert(parts.take(parts.len() as int) =~= parts);
}

// ---- exec helpers ----

fn push_all(v: &mut Vec<u8>, mut bytes: Vec<u8>)
    ensures
        final(v)@ == old(v)@ + bytes@,
{
    v.append(&mut bytes);
}

fn push_zeros(v: &mut Vec<u8>, n: usize)
    ensures
        final(v)@ == old(v)@ + zeros(n as nat),
{
    let ghost start = v@;
    let mut i: usize = 0;
    while i < n
        invariant
            i <= n,
            v@ == start + zeros(i as nat),
        decreases n - i,
    {
        v.push(0u8);
        i += 1;
        assert(v@ =~= start + zeros(i as nat));
    }
}

fn push_slice(v: &mut Vec<u8>, s: &[u8])
    ensures
        final(v)@ == old(v)@ + s@,
{
    let ghost start = v@;
    let mut i: usize = 0;
    while i < s.len()
        invariant
            i <= s.len(),
            v@ == start + s@.take(i as int),
        decreases s.len() - i,
    {
        v.push(s[i]);
        i += 1;
        assert(v@ =~= start + s@.take(i as int));
    }
    assert(s@.take(s.len() as int) =~= s@);
}

/// The GPT signature bytes.
pub fn gpt_signature() -> (s: Vec<u8>)
    ensures
        s@ == spec_signature(),
{
    let s = vec![0x45u8, 0x46, 0x49, 0x20, 0x50, 0x41, 0x52, 0x54];
    assert(s@ =~= spec_signature());
    s
}

fn type_linux() -> (s: Vec<u8>)
    ensures
        s@ == spec_type_linux(),
{
    let s = vec![0xafu8, 0x3d, 0xc6, 0x0f, 0x83, 0x84, 0x72, 0x47, 0x8e, 0x79, 0x3d, 0x69, 0xd8, 0x47, 0x7d, 0xe4];
    assert(s@ =~= spec_type_linux());
    s
}

/// Build a GPT header for the given layout; the checksum is computed over the first
/// 92 bytes with the checksum field zero.
pub fn build_header(
    current_lba: u64,
    alternate_lba: u64,
    first_usable: u64,
    last_usable: u64,
    entry_lba: u64,
    disk_guid: [u8; 16],
    entries_crc: u32,
) -> (h: Vec<u8>)
    ensures
        h@ == spec_header(
            current_lba,
            alternate_lba,
            first_usable,
            last_usable,
            entry_lba,
            disk_guid@,
            entries_crc,
        ),
{
    let mut h: Vec<u8> = Vec::new();
    push_all(&mut h, gpt_signature());
    push_all(&mut h, u32_to_le_bytes(GPT_REVISION));
    push_all(&mut h, u32_to_le_bytes(HEADER_SIZE));
    push_zeros(&mut h, 8);
    push_all(&mut h, u64_to_le_bytes(current_lba));
    push_all(&mut h, u64_to_le_bytes(alternate_lba));
    push_all(&mut h, u64_to_le_bytes(first_usable));
    push_all(&mut h, u64_to_le_bytes(last_usable));
    push_slice(&mut h, vstd::array::array_as_slice(&disk_guid));
    push_all(&mut h, u64_to_le_bytes(entry_lba));
    push_all(&mut h, u32_to_le_bytes(128));
    push_all(&mut h, u32_to_le_bytes(128));
    push_all(&mut h, u32_to_le_bytes(entries_crc));
    push_zeros(&mut h, 420);
    let ghost body = spec_header_body(
        current_lba,
        alternate_lba,
        first_usable,
        last_usable,
        entry_lba,
        disk_guid@,
        entries_crc,
    );
    assert(h@ =~= body);
    let crc = crc32(slice_subrange(h.as_slice(), 0, 92));
    let c = u32_to_le_bytes(crc);
    h.set(16, c[0]);
    h.set(17, c[1]);
    h.set(18, c[2]);
    h.set(19, c[3]);
    assert(h@ =~= body.take(16) + le32(crc) + body.skip(20));
    h
}

/// Build a protective MBR for a disk of `disk_lba_count` sectors.
pub fn build_pmbr(disk_lba_count: u64) -> (m: Vec<u8>)
    ensures
        m@ == spec_pmbr(disk_lba_count),
{
    let last = disk_lba_count.saturating_sub(1);
    let size: u32 = if last > u32::MAX as u64 { u32::MAX } else { last as u32 };
    let mut m: Vec<u8> = Vec::new();
    push_zeros(&mut m, 446);
    push_all(&mut m, vec![0x00u8, 0x00, 0x02, 0x00, 0xEE, 0xFF, 0xFF, 0xFF]);
    push_all(&mut m, u32_to_le_bytes(1));
    push_all(&mut m, u32_to_le_bytes(size));
    push_zeros(&mut m, 48);
    push_all(&mut m, vec![0x55u8, 0xAA]);
    m
}

fn push_entry(v: &mut Vec<u8>, part: &(String, u64, u64), guid: [u8; 16])
    requires
        planned_ok(planned_view(*part)),
    ensures
        final(v)@ == old(v)@ + spec_entry_of(planned_view(*part), guid),
{
    let ghost start = v@;
    let name = &part.0;
    let first = part.1;
    let size = part.2;
    push_all(v, type_linux());
    push_slice(v, vstd::array::array_as_slice(&guid));
    push_all(v, u64_to_le_bytes(first));
    push_all(v, u64_to_le_bytes(first + (size - 1)));
    push_zeros(v, 8);
    let ghost mid = v@;
    let units = encode_str_utf16(name.as_str());
    let n: usize = if units.len() < NAME_UNITS { units.len() } else { NAME_UNITS };
    let mut j: usize = 0;
    while j < n
        invariant
            j <= n,
            n <= units@.len(),
            v@ == mid + units_le(units@.take(j as int)),
        decreases n - j,
    {
        let ghost before = v@;
        let u = units[j];
        v.push((u & 0xff) as u8);
        v.push(((u >> 8u16) & 0xff) as u8);
        j += 1;
        assert(units@.take(j as int).drop_last() =~= units@.take(j - 1));
        assert(v@ =~= before + le16(u));
    }
    push_zeros(v, NAME_BYTES - 2 * n);
    assert(v@ =~= start + spec_entry_of(planned_view(*part), guid));
}

/// The 128-entry array for `partitions`, entry `i` carrying unique GUID `guids[i]`.
pub fn build_entries_with_guids(partitions: &Vec<(String, u64, u64)>, guids: &Vec<[u8; 16]>) -> (v: Vec<u8>)
    requires
        partitions.len() <= 128,
        guids.len() == partitions.len(),
        forall|i: int| 0 <= i < partitions.len() ==> planned_ok(planned_view(#[trigger] partitions@[i])),
    ensures
        v@ == spec_entries_area(planned_views(partitions@), guids@),
{
    let ghost views = planned_views(partitions@);
    let mut v: Vec<u8> = Vec::new();
    let mut i: usize = 0;
    while i < partitions.len()
        invariant
            i <= partitions.len(),
            partitions.len() <= 128,
            guids.len() == partitions.len(),
            views == planned_views(partitions@),
            forall|k: int| 0 <= k < partitions.len() ==> planned_ok(planned_view(#[trigger] partitions@[k])),
            v@ == spec_entries(views.take(i as int), guids@.take(i as int)),
        decreases partitions.len() - i,
    {
        push_entry(&mut v, &partitions[i], guids[i]);
        i += 1;
        assert(views.take(i as int).drop_last() =~= views.take(i - 1));
        assert(guids@.take(i as int).take(i - 1) =~= guids@.take(i - 1));
    }
    assert(views.take(i as int) =~= views);
    assert(guids@.take(i as int) =~= guids@);
    push_zeros(&mut v, TOTAL_ENTRIES_BYTES - ENTRY_BYTES * partitions.len());
    v
}

/// The 128-entry array for `partitions`, each entry with a fresh random unique GUID.
pub fn build_entries(partitions: &Vec<(String, u64, u64)>) -> (v: Vec<u8>)
    requires
        partitions.len() <= 128,
        forall|i: int| 0 <= i < partitions.len() ==> planned_ok(planned_view(#[trigger] partitions@[i])),
    ensures
        exists|guids: Seq<[u8; 16]>|
            guids.len() == partitions.len() && v@ == spec_entries_area(planned_views(partitions@), guids),
{
    let mut guids: Vec<[u8; 16]> = Vec::new();
    let mut i: usize = 0;
    while i < partitions.len()
        invariant
            i <= partitions.len(),
            guids.len() == i,
        decreases partitions.len() - i,
    {
        guids.push(random_guid());
        i += 1;
    }
    build_entries_with_guids(partitions, &guids)
}

/// Whether the first 8 bytes are the GPT signature.
pub fn has_gpt_signature(hdr: &[u8]) -> (r: bool)
    requires
        hdr@.len() >= 8,
    ensures
        r == (hdr@.take(8) == spec_signature()),
{
    let sig = gpt_signature();
    let mut i: usize = 0;
    while i < 8
        invariant
            i <= 8,
            hdr@.len() >= 8,
            sig@ == spec_signature(),
            hdr@.take(i as int) == spec_signature().take(i as int),
        decreases 8 - i,
    {
        if hdr[i] != sig[i] {
            assert(hdr@.take(8)[i as int] != spec_signature()[i as int]);
            return false;
        }
        i += 1;
        assert(hdr@.take(i as int) =~= spec_signature().take(i as int));
    }
    assert(spec_signature().take(8) =~= spec_signature());
    true
}

/// The double word stored little-endian at `off`.
pub fn read_u64_le(s: &[u8], off: usize) -> (x: u64)
    requires
        off + 8 <= s.len(),
    ensures
        x == le64_at(s@, off as int),
{
    u64_from_le_bytes(slice_subrange(s, off, off + 8))
}

/// The word stored little-endian at `off`.
pub fn read_u32_le(s: &[u8], off: usize) -> (x: u32)
    requires
        off + 4 <= s.len(),
    ensures
        x == le32_at(s@, off as int),
{
    u32_from_le_bytes(slice_subrange(s, off, off + 4))
}

/// What a header records of its entry array and of the other header copy.
pub fn parse_header_info(hdr: &[u8]) -> (info: GptHeaderInfo)
    requires
        hdr@.len() >= 92,
    ensures
        info.alternate_lba == le64_at(hdr@, 32),
        info.entry_lba == le64_at(hdr@, 72),
        info.entry_count == le32_at(hdr@, 80),
        info.entry_size == le32_at(hdr@, 84),
{
    GptHeaderInfo {
        alternate_lba: read_u64_le(hdr, 32),
        entry_lba: read_u64_le(hdr, 72),
        entry_count: read_u32_le(hdr, 80),
        entry_size: read_u32_le(hdr, 84),
    }
}

} // verus!
