use k1_musebook::gpt::client::{
    alternate_header_lba, entry_array_bytes, parse_entry, parse_partitions, plan_gpt_flash,
    plan_gpt_init, plan_gpt_init_with, resolve_layout, GptFlashError, GptPlanError, Partition,
};
use k1_musebook::gpt::disk::{
    build_entries, build_entries_with_guids, build_header, build_pmbr, gpt_signature, has_gpt_signature,
    parse_header_info, read_u32_le, read_u64_le,
};
use k1_musebook::gpt::{Gpt, GptEntry};
use k1_musebook::mmio::RegOp;
use k1_musebook::nvme::Nvme;

fn le32(b: &[u8], off: usize) -> u32 {
    u32::from_le_bytes([b[off], b[off + 1], b[off + 2], b[off + 3]])
}

fn le64(b: &[u8], off: usize) -> u64 {
    let mut a = [0u8; 8];
    a.copy_from_slice(&b[off..off + 8]);
    u64::from_le_bytes(a)
}

fn layout(last_usable: u64) -> Vec<(String, u64, u64)> {
    match resolve_layout(last_usable) {
        Ok(v) => v,
        Err(_) => panic!("layout does not fit"),
    }
}

fn guids(n: usize) -> Vec<[u8; 16]> {
    (0..n).map(|i| [i as u8 + 1; 16]).collect()
}

#[test]
fn signature_is_efi_part() {
    assert_eq!(gpt_signature(), b"EFI PART".to_vec());
}

#[test]
fn pmbr_covers_disk_minus_one() {
    let m = build_pmbr(1_000_000);
    assert_eq!(m.len(), 512);
    assert_eq!(m[450], 0xEE);
    assert_eq!(&m[510..512], &[0x55, 0xAA]);
    assert_eq!(le32(&m, 454), 1);
    assert_eq!(le32(&m, 458), 999_999);
    assert!(m[..446].iter().all(|&b| b == 0));
}

#[test]
fn pmbr_size_is_capped_and_floored() {
    assert_eq!(le32(&build_pmbr(0), 458), 0);
    assert_eq!(le32(&build_pmbr(u64::MAX), 458), u32::MAX);
    assert_eq!(le32(&build_pmbr(0x1_0000_0001), 458), u32::MAX);
}

#[test]
fn header_fields_and_checksum() {
    let guid = [0xA5u8; 16];
    let h = build_header(1, 999_999, 34, 999_966, 2, guid, 0x1234_5678);
    assert_eq!(h.len(), 512);
    assert_eq!(&h[..8], b"EFI PART");
    assert_eq!(le32(&h, 8), 0x0001_0000);
    assert_eq!(le32(&h, 12), 92);
    assert_eq!(le64(&h, 24), 1);
    assert_eq!(le64(&h, 32), 999_999);
    assert_eq!(le64(&h, 40), 34);
    assert_eq!(le64(&h, 48), 999_966);
    assert_eq!(&h[56..72], &guid);
    assert_eq!(le64(&h, 72), 2);
    assert_eq!(le32(&h, 80), 128);
    assert_eq!(le32(&h, 84), 128);
    assert_eq!(le32(&h, 88), 0x1234_5678);
    let mut zeroed = h[..92].to_vec();
    zeroed[16..20].copy_from_slice(&[0, 0, 0, 0]);
    assert_eq!(le32(&h, 16), crc32fast::hash(&zeroed));
    assert_ne!(le32(&h, 16), 0);
    assert!(h[92..].iter().all(|&b| b == 0));
}

#[test]
fn header_reading_helpers() {
    let h = build_header(1, 77, 34, 44, 2, [0; 16], 5);
    assert!(has_gpt_signature(&h));
    assert!(!has_gpt_signature(&[0u8; 92]));
    assert_eq!(read_u64_le(&h, 32), 77);
    assert_eq!(read_u32_le(&h, 80), 128);
    let info = parse_header_info(&h);
    assert_eq!((info.alternate_lba, info.entry_lba, info.entry_count, info.entry_size), (77, 2, 128, 128));
    assert_eq!(alternate_header_lba(&h), Some(77));
    assert_eq!(alternate_header_lba(&[0u8; 512]), None);
}

#[test]
fn resolve_layout_fills_disk_with_rootfs() {
    let v = layout(999_966);
    let got: Vec<(&str, u64, u64)> = v.iter().map(|(n, s, z)| (n.as_str(), *s, *z)).collect();
    assert_eq!(
        got,
        vec![
            ("sbi", 2048, 1024),
            ("kernel", 4096, 24576),
            ("dtb", 28672, 512),
            ("initramfs", 32768, 131072),
            ("rootfs", 163840, 999_966 - 163840 + 1),
        ]
    );
}

#[test]
fn resolve_layout_reports_first_partition_out_of_range() {
    match resolve_layout(100) {
        Err(GptPlanError::PartitionOutOfRange(name, last)) => {
            assert_eq!(name, "sbi");
            assert_eq!(last, 100);
        },
        _ => panic!("expected out of range"),
    }
    match resolve_layout(163_839) {
        Err(GptPlanError::PartitionOutOfRange(name, _)) => assert_eq!(name, "rootfs"),
        _ => panic!("expected rootfs out of range"),
    }
    assert!(resolve_layout(163_840).is_ok());
}

#[test]
fn entries_list_back_as_written() {
    let parts = layout(999_966);
    let area = build_entries_with_guids(&parts, &guids(5));
    assert_eq!(area.len(), 16384);
    let listed = parse_partitions(&area);
    assert_eq!(listed.len(), 5);
    for (p, (name, start, size)) in listed.iter().zip(parts.iter()) {
        assert_eq!(&p.name, name);
        assert_eq!(p.start_lba, *start);
        assert_eq!(p.end_lba, start + size - 1);
    }
    assert_eq!(&area[16..32], &[1u8; 16]);
    assert!(area[5 * 128..].iter().all(|&b| b == 0));
}

#[test]
fn entry_name_is_utf16le() {
    let parts = vec![("kernel".to_string(), 10u64, 5u64)];
    let area = build_entries_with_guids(&parts, &guids(1));
    let name: Vec<u8> = "kernel".encode_utf16().flat_map(|u| u.to_le_bytes()).collect();
    assert_eq!(&area[56..56 + name.len()], &name[..]);
    assert_eq!(le64(&area, 32), 10);
    assert_eq!(le64(&area, 40), 14);
}

#[test]
fn non_ascii_names_round_trip() {
    let parts = vec![("données-Ω".to_string(), 100u64, 8u64), ("😀boot".to_string(), 200u64, 1u64)];
    let area = build_entries_with_guids(&parts, &guids(2));
    let listed = parse_partitions(&area);
    assert_eq!(listed[0].name, "données-Ω");
    assert_eq!(listed[1].name, "😀boot");
    assert_eq!((listed[1].start_lba, listed[1].end_lba), (200, 200));
}

#[test]
fn random_guid_entries_still_list_back() {
    let parts = layout(5_000_000);
    let area = build_entries(&parts);
    let listed = parse_partitions(&area);
    assert_eq!(listed.len(), 5);
    assert_eq!(listed[4].end_lba, 5_000_000);
    assert_ne!(&area[16..32], &area[128 + 16..128 + 32]);
}

#[test]
fn unused_entry_parses_to_nothing() {
    assert!(parse_entry(&[0u8; 128]).is_none());
}

#[test]
fn entry_array_bytes_rounds_to_lbas() {
    assert_eq!(entry_array_bytes(128, 128), 16384);
    assert_eq!(entry_array_bytes(3, 100), 512);
    assert_eq!(entry_array_bytes(0, 128), 0);
    assert_eq!(entry_array_bytes(5, 128), 1024);
}

#[test]
fn gpt_init_needs_a_disk_size() {
    assert!(matches!(plan_gpt_init_with(None, None, [0; 16], &guids(5)), Err(GptPlanError::UnknownDiskLbaCount)));
    assert!(matches!(plan_gpt_init_with(None, Some(20), [0; 16], &guids(5)), Err(GptPlanError::DiskTooSmall)));
    assert!(matches!(plan_gpt_init(None, Some(0)), Err(GptPlanError::DiskTooSmall)));
    match plan_gpt_init_with(Some(1000), None, [0; 16], &guids(5)) {
        Err(GptPlanError::PartitionOutOfRange(name, last)) => {
            assert_eq!(name, "sbi");
            assert_eq!(last, 967);
        },
        _ => panic!("expected out of range"),
    }
}

#[test]
fn gpt_init_then_list_gives_layout() {
    let disk_guid = [0x11u8; 16];
    let plan = match plan_gpt_init_with(None, Some(1_000_000), disk_guid, &guids(5)) {
        Ok(p) => p,
        Err(_) => panic!("plan refused"),
    };
    assert_eq!(plan.primary.len(), 512 + 512 + 16384);
    assert_eq!(plan.alternate_entry_lba, 999_999 - 32);
    assert_eq!(plan.alternate.len(), 16384 + 512);
    let primary_header = &plan.primary[512..1024];
    assert_eq!(le64(primary_header, 24), 1);
    assert_eq!(le64(primary_header, 32), 999_999);
    assert_eq!(le64(primary_header, 48), 999_966);
    assert_eq!(le32(primary_header, 88), crc32fast::hash(&plan.primary[1024..]));
    let alt_header = &plan.alternate[16384..];
    assert_eq!(le64(alt_header, 24), 999_999);
    assert_eq!(le64(alt_header, 32), 1);
    assert_eq!(le64(alt_header, 72), 999_967);
    assert_eq!(&plan.alternate[..16384], &plan.primary[1024..]);
    let listed = parse_partitions(&plan.primary[1024..]);
    let names: Vec<&str> = listed.iter().map(|p| p.name.as_str()).collect();
    assert_eq!(names, vec!["sbi", "kernel", "dtb", "initramfs", "rootfs"]);
    assert_eq!((listed[4].start_lba, listed[4].end_lba), (163840, 999_966));
}

#[test]
fn gpt_init_prefers_header_on_disk() {
    let plan = match plan_gpt_init(Some(2_000_000), Some(10)) {
        Ok(p) => p,
        Err(_) => panic!("plan refused"),
    };
    assert_eq!(plan.alternate_entry_lba, 2_000_000 - 32);
}

fn listed_layout() -> Vec<Partition> {
    let area = build_entries_with_guids(&layout(999_966), &guids(5));
    parse_partitions(&area)
}

#[test]
fn partition_size_bytes() {
    let listed = listed_layout();
    assert_eq!(listed[1].size_bytes(), 24576 * 512);
    assert_eq!(listed[0].size_bytes(), 1024 * 512);
}

#[test]
fn gpt_flash_plans_start_lbas() {
    let listed = listed_layout();
    let jobs = vec![("kernel".to_string(), 1000u64), ("sbi".to_string(), 1024 * 512)];
    match plan_gpt_flash(&listed, &jobs) {
        Ok(v) => assert_eq!(v, vec![4096, 2048]),
        Err(_) => panic!("flash refused"),
    }
    match plan_gpt_flash(&listed, &vec![]) {
        Ok(v) => assert!(v.is_empty()),
        Err(_) => panic!("flash refused"),
    }
}

#[test]
fn gpt_flash_refuses_unknown_and_oversized() {
    let listed = listed_layout();
    match plan_gpt_flash(&listed, &vec![("kernel".to_string(), 1), ("nope".to_string(), 1)]) {
        Err(GptFlashError::NotFound(n)) => assert_eq!(n, "nope"),
        _ => panic!("expected not found"),
    }
    match plan_gpt_flash(&listed, &vec![("dtb".to_string(), 512 * 512 + 1)]) {
        Err(GptFlashError::FileTooLarge(a, b)) => assert_eq!((a, b), (262_145, 262_144)),
        _ => panic!("expected too large"),
    }
}

#[test]
fn loader_parses_header_block() {
    let h = build_header(1, 999_999, 34, 999_966, 2, [7; 16], 0);
    assert!(has_gpt_signature(&h));
    let info = Gpt::parse_header(&h);
    assert_eq!((info.lba, info.count, info.size), (2, 128, 128));
    assert_eq!(Gpt::entry_lbas(info), (2u64..34).collect::<Vec<_>>());
    assert!(!has_gpt_signature(&[0u8; 512]));
}

#[test]
fn loader_entry_fields() {
    let area = build_entries_with_guids(&layout(999_966), &guids(5));
    let e = GptEntry::from_bytes(&area[128..256]);
    assert_eq!(e.starting_lba, 4096);
    assert_eq!(e.ending_lba, 28671);
    assert_eq!(e.unique_partition_guid, [2u8; 16]);
    assert_eq!(e.partition_name[0], 'k' as u16);
    assert_eq!(e.partition_name[6], 0);
}

#[test]
fn loader_plans_partition_loads() {
    let area = build_entries_with_guids(&layout(999_966), &guids(5));
    let gpt = Gpt::from_entry_array(&area);
    let kernel = gpt.partition("kernel").unwrap();
    assert_eq!((kernel.start_lba, kernel.size_bytes), (4096, 24576 * 512));
    assert!(gpt.partition("missing").is_none());
    let names: Vec<String> = gpt.list_all_partitions().into_iter().map(|(n, _)| n).collect();
    assert_eq!(names, vec!["sbi", "kernel", "dtb", "initramfs", "rootfs"]);
    let steps = gpt.load_plan();
    let got: Vec<(u64, u64, u64)> = steps.iter().map(|s| (s.start_lba, s.load_base, s.read_bytes)).collect();
    assert_eq!(
        got,
        vec![
            (2048, 0x0008_0000, 1024 * 512),
            (4096, 0x0020_0000, 24576 * 512),
            (28672, 0x0100_0000, 512 * 512),
            (32768, 0x0800_0000, 131072 * 512),
        ]
    );
}

#[test]
fn loader_sees_missing_and_oversized_partitions() {
    let mut parts = layout(999_966);
    parts.remove(2);
    let area = build_entries_with_guids(&parts, &guids(4));
    let gpt = Gpt::from_entry_array(&area);
    assert!(gpt.partition("dtb").is_none());
    let mut parts = layout(999_966);
    parts[0].2 = 2049;
    let area = build_entries_with_guids(&parts, &guids(5));
    let gpt = Gpt::from_entry_array(&area);
    let sbi = gpt.partition("sbi").unwrap();
    assert_eq!(sbi.size_bytes, 2049 * 512);
    assert!(sbi.size_bytes > 0x0010_0000);
    assert_eq!(sbi.load_bytes(0x0020_0000), 2049 * 512);
}

#[test]
fn loader_reads_each_partition_into_its_window() {
    let parts: Vec<(String, u64, u64)> = vec![
        ("sbi".to_string(), 2048, 8),
        ("kernel".to_string(), 4096, 9),
        ("dtb".to_string(), 28672, 1),
        ("initramfs".to_string(), 32768, 16),
    ];
    let area = build_entries_with_guids(&parts, &guids(4));
    let gpt = Gpt::from_entry_array(&area);
    let mut boot = Vec::new();
    let mut nvme = Nvme::open(&mut boot, 0);
    let mut plan = Vec::new();
    gpt.load_all_partitions(&mut nvme, &mut plan);
    let windows: Vec<u64> = plan
        .iter()
        .filter_map(|op| match *op {
            RegOp::UseBuffer { base } => Some(base),
            _ => None,
        })
        .collect();
    assert_eq!(windows, vec![0x0008_0000, 0x0020_0000, 0x0100_0000, 0x0800_0000]);
    let reads: Vec<(u16, u32, u32)> = plan
        .iter()
        .filter_map(|op| match *op {
            RegOp::StoreSqe { sqe, .. } => Some((sqe.cdw0.cid, sqe.cdw10, sqe.cdw12)),
            _ => None,
        })
        .collect();
    assert_eq!(reads, vec![(3, 2048, 7), (4, 4096, 7), (5, 4104, 0), (6, 28672, 0), (7, 32768, 7), (8, 32776, 7)]);
    assert_eq!(plan.last(), Some(&RegOp::FenceI));
    assert!(plan.contains(&RegOp::CboClean { line: 0x0800_0000 + 16 * 512 - 64 }));
}
