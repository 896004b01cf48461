use k1_musebook::handoff::FwDynamicInfo;
use k1_musebook::layout::{dtb, gpt_partitions, initramfs, kernel, rootfs, sbi, NVME_ACQ_BASE, NVME_READ_DMA_BASE};

#[test]
fn layout_partitions_have_documented_places() {
    let s = sbi();
    assert_eq!(s.name, "sbi");
    assert_eq!((s.lba_start, s.lba_max, s.load_base, s.load_max), (2048, 1024, 0x0008_0000, 0x0010_0000));
    let k = kernel();
    assert_eq!(k.name, "kernel");
    assert_eq!((k.lba_start, k.lba_max, k.load_base, k.load_max), (4096, 24576, 0x0020_0000, 0x00E0_0000));
    let d = dtb();
    assert_eq!((d.lba_start, d.lba_max, d.load_base, d.load_max), (28672, 512, 0x0100_0000, 0x0010_0000));
    let i = initramfs();
    assert_eq!((i.lba_start, i.lba_max, i.load_base, i.load_max), (32768, 131072, 0x0800_0000, 0x0400_0000));
    let r = rootfs();
    assert_eq!(r.name, "rootfs");
    assert_eq!(r.start_lba, 163840);
}

#[test]
fn end_lba_is_last_usable_lba() {
    assert_eq!(sbi().end_lba(), 3071);
    assert_eq!(kernel().end_lba(), 28671);
    assert_eq!(dtb().end_lba(), 29183);
    assert_eq!(initramfs().end_lba(), 163839);
}

#[test]
fn layout_windows_do_not_overlap() {
    sbi().before(kernel());
    kernel().before(dtb());
    dtb().before(initramfs());
    assert!(initramfs().end_lba() < rootfs().start_lba);
}

#[test]
fn gpt_partitions_are_in_load_order() {
    let names: Vec<&str> = gpt_partitions().iter().map(|p| p.name).collect();
    assert_eq!(names, vec!["sbi", "kernel", "dtb", "initramfs"]);
}

#[test]
fn nvme_dma_window_layout() {
    assert_eq!(NVME_ACQ_BASE, 0x0400_1000);
    assert_eq!(NVME_READ_DMA_BASE, 0x0400_5000);
}

#[test]
fn fw_dynamic_info_points_at_kernel_in_s_mode() {
    let info = FwDynamicInfo::new();
    assert_eq!(info.magic, 0x4942_534F);
    assert_eq!(info.version, 2);
    assert_eq!(info.next_addr, 0x0020_0000);
    assert_eq!(info.next_mode, 1);
    assert_eq!(info.options, 0);
    assert_eq!(info.boot_hart, 0);
}

#[test]
fn end_lba_of_an_empty_partition() {
    let mut p = sbi();
    p.lba_start = 10;
    p.lba_max = 0;
    assert_eq!(p.end_lba(), 9);
}
