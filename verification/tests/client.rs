use k1_musebook::client::args::{parse_partition_arg, parse_u64};
use k1_musebook::client::rpc::{
    nor_erase_window, nor_read_requests, nor_write_chunks, nvme_pad, nvme_read_requests, nvme_write_chunks,
    NorWriteFileError,
};
use k1_musebook::client::usb::{
    brom_okay, classify_version_reply, continue_command, download_accepted, download_command, flash_server_reply,
    frame_prefix, starts_with, version_probe, DetectedStage,
};
use k1_musebook::protocol::{nvme_write, NvmeChunk};

const MIB: u32 = 1 << 20;

#[test]
fn nor_reads_are_cut_into_mib_chunks() {
    let v = nor_read_requests(0x100, 2 * MIB + 5);
    let got: Vec<(u32, u32)> = v.iter().map(|r| (r.offset, r.len)).collect();
    assert_eq!(got, vec![(0x100, MIB), (0x100 + MIB, MIB), (0x100 + 2 * MIB, 5)]);
    assert!(nor_read_requests(0, 0).is_empty());
    let v = nor_read_requests(0, 2 * MIB);
    assert_eq!(v.len(), 2);
    assert_eq!(v[1].len, MIB);
}

#[test]
fn nvme_reads_step_by_2048_lbas() {
    let v = nvme_read_requests(10, MIB as u64 + 512);
    let got: Vec<(u64, u32)> = v.iter().map(|r| (r.lba, r.len)).collect();
    assert_eq!(got, vec![(10, MIB), (10 + 2048, 512)]);
    assert_eq!(nvme_read_requests(0, 512).len(), 1);
}

#[test]
fn nvme_read_tail_is_whole_blocks() {
    let v = nvme_read_requests(7, 100);
    let got: Vec<(u64, u32)> = v.iter().map(|r| (r.lba, r.len)).collect();
    assert_eq!(got, vec![(7, 512)]);
    let v = nvme_read_requests(0, MIB as u64 + 513);
    let got: Vec<(u64, u32)> = v.iter().map(|r| (r.lba, r.len)).collect();
    assert_eq!(got, vec![(0, MIB), (2048, 1024)]);
}

#[test]
fn nor_writes_are_sliced() {
    let data: Vec<u8> = (0..(2 * MIB as usize + 3)).map(|i| (i % 251) as u8).collect();
    let chunks = nor_write_chunks(0x2_0000, &data);
    assert_eq!(chunks.len(), 3);
    assert_eq!(chunks[0].offset, 0x2_0000);
    assert_eq!(chunks[1].offset, 0x2_0000 + MIB);
    assert_eq!(chunks[2].offset, 0x2_0000 + 2 * MIB);
    assert_eq!(chunks[2].data, &data[2 * MIB as usize..]);
    let joined: Vec<u8> = chunks.iter().flat_map(|c| c.data.iter().copied()).collect();
    assert_eq!(joined, data);
    assert!(nor_write_chunks(0, &[]).is_empty());
}

#[test]
fn nvme_payload_padding() {
    let p = nvme_pad(&[1, 2, 3]);
    assert_eq!(p.len(), 512);
    assert_eq!(&p[..3], &[1, 2, 3]);
    assert!(p[3..].iter().all(|&b| b == 0xFF));
    assert_eq!(nvme_pad(&[7u8; 512]), vec![7u8; 512]);
    assert!(nvme_pad(&[]).is_empty());
    assert_eq!(nvme_pad(&[0u8; 513]).len(), 1024);
}

#[test]
fn nvme_write_chunks_are_accepted_by_server() {
    let padded = nvme_pad(&vec![9u8; MIB as usize + 100]);
    let chunks = nvme_write_chunks(100, &padded);
    assert_eq!(chunks.len(), 2);
    assert_eq!((chunks[0].lba, chunks[0].data.len()), (100, MIB as usize));
    assert_eq!((chunks[1].lba, chunks[1].data.len()), (2148, 512));
    for c in &chunks {
        assert_eq!(nvme_write(&NvmeChunk { lba: c.lba, data: c.data }), Ok(()));
    }
}

#[test]
fn nor_erase_window_rounds_to_sectors() {
    assert!(matches!(nor_erase_window(0x2_0000, 0), Ok(None)));
    let w = nor_erase_window(0x2_0010, 0x1000).unwrap().unwrap();
    assert_eq!((w.offset, w.len), (0x2_0000, 0x2000));
    let w = nor_erase_window(0x2_0000, 0x1000).unwrap().unwrap();
    assert_eq!((w.offset, w.len), (0x2_0000, 0x1000));
    let w = nor_erase_window(0, 1).unwrap().unwrap();
    assert_eq!((w.offset, w.len), (0, 0x1000));
    assert!(matches!(nor_erase_window(u32::MAX - 5, 10), Err(NorWriteFileError::OffsetOverflow)));
}

#[test]
fn stage_probe_bytes() {
    assert_eq!(version_probe(), b"getvar:version".to_vec());
    assert_eq!(flash_server_reply(), b"FLASH_SERVER".to_vec());
    assert_eq!(continue_command(), b"continue".to_vec());
}

#[test]
fn stage_classification() {
    assert_eq!(classify_version_reply(b"FLASH_SERVER"), Some(DetectedStage::FlashServer));
    assert_eq!(classify_version_reply(b"FLASH_SERVER\0\0"), Some(DetectedStage::FlashServer));
    assert_eq!(classify_version_reply(b"OKAY1.0"), Some(DetectedStage::BromFastboot));
    assert_eq!(classify_version_reply(b"OKA"), None);
    assert_eq!(classify_version_reply(b"FAILunknown"), None);
    assert_eq!(classify_version_reply(b""), None);
    assert_eq!(classify_version_reply(&flash_server_reply()), Some(DetectedStage::FlashServer));
}

#[test]
fn bootrom_answers() {
    assert!(download_accepted(b"DATA00010000"));
    assert!(!download_accepted(b"FAIL"));
    assert!(brom_okay(b"OKAY"));
    assert!(!brom_okay(b"OK"));
    assert!(starts_with(b"abc", b""));
    assert!(!starts_with(b"ab", b"abc"));
}

#[test]
fn download_command_is_hex() {
    assert_eq!(download_command(0x1234), b"download:00001234".to_vec());
    assert_eq!(download_command(0), b"download:00000000".to_vec());
    assert_eq!(download_command(0xABCDEF), b"download:00ABCDEF".to_vec());
    assert_eq!(download_command(0xFFFF_FFFF), b"download:FFFFFFFF".to_vec());
    assert_eq!(download_command(12345), format!("download:{:08X}", 12345).into_bytes());
    if usize::BITS == 64 {
        assert_eq!(download_command(0x12_3456_789A), b"download:123456789A".to_vec());
    }
}

#[test]
fn frame_prefix_packet() {
    let p = frame_prefix(0x0102_0304);
    assert_eq!(p.len(), 512);
    assert_eq!(&p[..4], &[4, 3, 2, 1]);
    assert!(p[4..].iter().all(|&b| b == 0));
    assert_eq!(&frame_prefix(300)[..4], &300u32.to_le_bytes());
}

#[test]
fn command_line_numbers() {
    assert_eq!(parse_u64("0x20000"), Some(0x20000));
    assert_eq!(parse_u64(" 42 "), Some(42));
    assert_eq!(parse_u64("0X1f"), Some(31));
    assert_eq!(parse_u64("0xABcd"), Some(0xABCD));
    assert_eq!(parse_u64("+7"), Some(7));
    assert_eq!(parse_u64("0x+a"), Some(10));
    assert_eq!(parse_u64("\u{3000}5\t"), Some(5));
    assert_eq!(parse_u64("18446744073709551615"), Some(u64::MAX));
    assert_eq!(parse_u64("0xFFFFFFFFFFFFFFFF"), Some(u64::MAX));
    assert_eq!(parse_u64("18446744073709551616"), None);
    assert_eq!(parse_u64("0x10000000000000000"), None);
    assert_eq!(parse_u64(""), None);
    assert_eq!(parse_u64("0x"), None);
    assert_eq!(parse_u64("+"), None);
    assert_eq!(parse_u64("-1"), None);
    assert_eq!(parse_u64("12a"), None);
    assert_eq!(parse_u64("1 2"), None);
    assert_eq!(parse_u64("0"), Some(0));
}

#[test]
fn partition_arguments() {
    assert_eq!(parse_partition_arg("kernel=./k.bin"), Some(("kernel".to_string(), "./k.bin".to_string())));
    assert_eq!(parse_partition_arg("a=b=c"), Some(("a".to_string(), "b=c".to_string())));
    assert_eq!(parse_partition_arg("=x"), Some((String::new(), "x".to_string())));
    assert_eq!(parse_partition_arg("noequals"), None);
    assert_eq!(parse_partition_arg("dönnées=ü"), Some(("dönnées".to_string(), "ü".to_string())));
}
