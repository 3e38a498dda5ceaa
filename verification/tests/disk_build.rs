use bootdisk::build_disk_image;
use bootdisk::disk::{create_gpt_disk, last_lba_for, DiskImage};
use bootdisk::fat::create_fat_filesystem;
use bootdisk::fileset::FileSet;

const LABEL: [u8; 11] = *b"BOOT       ";

fn build_set(pairs: &[(&str, Vec<u8>)]) -> FileSet {
    let mut files = FileSet::new();
    for (path, content) in pairs {
        assert!(files.add(String::from(*path), content.clone()));
    }
    files
}

fn pattern(len: usize, seed: u8) -> Vec<u8> {
    let mut v = Vec::with_capacity(len);
    let mut x = seed;
    for _ in 0..len {
        v.push(x);
        x = x.wrapping_mul(31).wrapping_add(7);
    }
    v
}

fn small_fat() -> Vec<u8> {
    let files = build_set(&[("boot/kernel", pattern(500000, 3))]);
    create_fat_filesystem(&files, LABEL).unwrap()
}

#[test]
fn disk_length_is_partition_plus_headroom() {
    let fat = small_fat();
    let d = create_gpt_disk(&fat).unwrap();
    assert_eq!(d.partition_size, fat.len() as u64);
    assert_eq!(d.bytes.len(), fat.len() + 65536);
}

#[test]
fn partition_region_equals_fat_image() {
    let fat = small_fat();
    let d = create_gpt_disk(&fat).unwrap();
    let start = d.partition_start as usize;
    assert_eq!(&d.bytes[start..start + fat.len()], fat.as_slice());
}

#[test]
fn protective_mbr_fields() {
    let fat = small_fat();
    let d = create_gpt_disk(&fat).unwrap();
    let disk_len = d.bytes.len() as u64;
    let last_lba = (disk_len / 512 - 1) as u32;
    assert_eq!(d.bytes[446], 0x00);
    assert_eq!(d.bytes[448], 0x02);
    assert_eq!(d.bytes[450], 0xEE);
    assert_eq!(&d.bytes[454..458], &1u32.to_le_bytes());
    assert_eq!(&d.bytes[458..462], &last_lba.to_le_bytes());
    assert_eq!(d.bytes[510], 0x55);
    assert_eq!(d.bytes[511], 0xAA);
    for b in &d.bytes[0..446] {
        assert_eq!(*b, 0);
    }
}

#[test]
fn last_lba_clamps_for_oversized_disks() {
    assert_eq!(last_lba_for(2 * 1024 * 1024 + 65536), 4223);
    assert_eq!(last_lba_for(0x1_0000_0000u64 * 512), 0xFFFF_FFFF);
    assert_eq!(last_lba_for(0x1_0000_0001u64 * 512), 0xFFFF_FFFF);
    assert_eq!(last_lba_for(0xFFFF_FFFFu64 * 512 + 511), 0xFFFF_FFFE);
}

#[test]
fn partition_table_reads_back() {
    let fat = small_fat();
    let d = create_gpt_disk(&fat).unwrap();
    let cur = std::io::Cursor::new(d.bytes.clone());
    let g = gpt::GptConfig::new()
        .writable(false)
        .logical_block_size(gpt::disk::LogicalBlockSize::Lb512)
        .open_from_device(cur)
        .unwrap();
    assert_eq!(g.partitions().len(), 1);
    let p = g.partitions().values().next().unwrap();
    assert_eq!(p.name, "boot");
    assert_eq!(p.part_type_guid, gpt::partition_types::EFI);
    assert_eq!(
        p.bytes_start(gpt::disk::LogicalBlockSize::Lb512).unwrap(),
        d.partition_start
    );
    assert_eq!(
        p.bytes_len(gpt::disk::LogicalBlockSize::Lb512).unwrap(),
        d.partition_size
    );
}

#[test]
fn empty_file_set_still_yields_valid_disk() {
    let files = FileSet::new();
    let fat = create_fat_filesystem(&files, LABEL).unwrap();
    assert_eq!(fat.len() as u64, 2 * 1024 * 1024);
    let d = create_gpt_disk(&fat).unwrap();
    assert_eq!(d.bytes.len(), fat.len() + 65536);
    let start = d.partition_start as usize;
    assert_eq!(&d.bytes[start..start + fat.len()], fat.as_slice());
    let cur = std::io::Cursor::new(d.bytes.clone());
    let g = gpt::GptConfig::new()
        .writable(false)
        .logical_block_size(gpt::disk::LogicalBlockSize::Lb512)
        .open_from_device(cur)
        .unwrap();
    assert_eq!(g.partitions().len(), 1);
}

#[test]
fn pipeline_image_boots_the_same_files() {
    let kernel = pattern(500000, 3);
    let note = pattern(10, 9);
    let files = build_set(&[("boot/kernel", kernel.clone()), ("a/b/c.txt", note.clone())]);
    let d: DiskImage = build_disk_image(&files, LABEL).unwrap();
    let start = d.partition_start as usize;
    let size = d.partition_size as usize;
    assert_eq!(size as u64, 2 * 1024 * 1024);
    let part = d.bytes[start..start + size].to_vec();
    let fs = fatfs::FileSystem::new(std::io::Cursor::new(part), fatfs::FsOptions::new()).unwrap();
    let mut buf = Vec::new();
    std::io::Read::read_to_end(&mut fs.root_dir().open_file("boot/kernel").unwrap(), &mut buf)
        .unwrap();
    assert_eq!(buf, kernel);
    buf.clear();
    std::io::Read::read_to_end(&mut fs.root_dir().open_file("a/b/c.txt").unwrap(), &mut buf)
        .unwrap();
    assert_eq!(buf, note);
}

#[test]
fn rebuilds_differ_only_in_randomized_fields() {
    let pairs = [("boot/kernel", pattern(40000, 5)), ("a/b/c.txt", pattern(10, 9))];
    let fat1 = create_fat_filesystem(&build_set(&pairs), LABEL).unwrap();
    let fat2 = create_fat_filesystem(&build_set(&pairs), LABEL).unwrap();
    assert_eq!(fat1, fat2);
    let d1 = create_gpt_disk(&fat1).unwrap();
    let d2 = create_gpt_disk(&fat2).unwrap();
    assert_eq!(d1.partition_start, d2.partition_start);
    assert_eq!(d1.bytes.len(), d2.bytes.len());
    let len = d1.bytes.len();
    // Randomized by the GPT encoder: the disk GUID and checksums in the
    // primary header sector, the partition's unique GUID in both copies
    // of the partition array, and the backup header sector.
    let masked = [
        (512, 1024),
        (1024 + 16, 1024 + 32),
        (len - 16896 + 16, len - 16896 + 32),
        (len - 512, len),
    ];
    for i in 0..len {
        if masked.iter().any(|&(a, b)| a <= i && i < b) {
            continue;
        }
        assert_eq!(d1.bytes[i], d2.bytes[i], "byte {i}");
    }
}
