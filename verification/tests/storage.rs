use chrono::{TimeZone, Utc};
use yatsenos::storage::fat16::direntry::{
    invalid_byte, le_u32, prase_datetime, upper, Attributes, Cluster, DirEntry, ShortFileName,
    ATTR_ARCHIVE, ATTR_DIRECTORY, ATTR_LFN, CLUSTER_END_OF_FILE, CLUSTER_ROOT_DIR,
};
use yatsenos::storage::fat16::file::File;
use yatsenos::storage::fat16::impls::{fat_entry_of, find_in_block};
use yatsenos::storage::fat16::{le_u16, Directory, Fat16Bpb, Fat16Impl};
use yatsenos::storage::partition::Partition;
use yatsenos::storage::{
    Block, BlockDevice, FileType, FilenameError, FsError, FsTime, RamDisk, BLOCK_SIZE,
};

const KERNEL_ENTRY: [u8; 32] = [
    0x4b, 0x45, 0x52, 0x4e, 0x45, 0x4c, 0x20, 0x20, 0x45, 0x4c, 0x46, 0x20, 0x00, 0x00, 0x0f, 0xbe,
    0xd0, 0x50, 0xd0, 0x50, 0x00, 0x00, 0x0f, 0xbe, 0xd0, 0x50, 0x02, 0x00, 0xf0, 0xe4, 0x0e, 0x00,
];

fn time(y: i32, mo: u32, d: u32, h: u32, mi: u32, s: u32) -> FsTime {
    FsTime { secs: Utc.with_ymd_and_hms(y, mo, d, h, mi, s).unwrap().timestamp() }
}

#[test]
fn test_dir_entry() {
    let data = KERNEL_ENTRY;

    let res = DirEntry::parse(&data).unwrap();

    assert_eq!(&res.filename.name, b"KERNEL  ");
    assert_eq!(&res.filename.ext, b"ELF");
    assert_eq!(res.attributes, Attributes::from_bits_truncate(ATTR_ARCHIVE));
    assert_eq!(res.cluster, Cluster(2));
    assert_eq!(res.size, 0xee4f0);
    assert_eq!(res.created_time, time(2020, 6, 16, 23, 48, 30));
    assert_eq!(res.modified_time, time(2020, 6, 16, 23, 48, 30));
    assert_eq!(res.accessed_time, time(2020, 6, 16, 0, 0, 0));

    println!("{:#?}", res);
}

#[test]
fn dir_entry_name_and_kind() {
    let entry = DirEntry::parse(&KERNEL_ENTRY).unwrap();
    assert!(entry.is_valid());
    assert!(!entry.is_long_name());
    assert!(!entry.is_directory());
    assert_eq!(entry.filename(), "KERNEL.ELF");
    assert_eq!(entry.filename.to_string(), "KERNEL.ELF");
    assert_eq!(entry.filename.basename(), "KERNEL  ");
    assert_eq!(entry.filename.extension(), "ELF");
    let meta = entry.as_meta();
    assert_eq!(meta.entry_type, FileType::File);
    assert!(!meta.is_dir());
    assert_eq!(meta.name, "KERNEL.ELF");
    assert_eq!(meta.len, 0xee4f0);
    assert_eq!(meta.created, Some(time(2020, 6, 16, 23, 48, 30)));
    assert_eq!(meta.accessed, Some(time(2020, 6, 16, 0, 0, 0)));
}

#[test]
fn dir_entry_without_extension_and_directory() {
    let mut data = KERNEL_ENTRY;
    data[8] = 0x20;
    data[9] = 0x20;
    data[10] = 0x20;
    data[11] = ATTR_DIRECTORY;
    let entry = DirEntry::parse(&data).unwrap();
    assert_eq!(entry.filename(), "KERNEL");
    assert!(entry.is_directory());
    assert_eq!(entry.as_meta().entry_type, FileType::Directory);
}

#[test]
fn dir_entry_unused_end_and_long_name() {
    let mut data = KERNEL_ENTRY;
    data[0] = 0xE5;
    let entry = DirEntry::parse(&data).unwrap();
    assert!(entry.filename.is_unused());
    assert!(!entry.is_valid());
    assert_eq!(entry.filename(), "unknown");
    let mut data = KERNEL_ENTRY;
    data[0] = 0;
    data[8] = 0;
    let entry = DirEntry::parse(&data).unwrap();
    assert!(entry.filename.is_eod());
    assert!(!entry.is_valid());
    let mut data = KERNEL_ENTRY;
    data[11] = ATTR_LFN;
    let entry = DirEntry::parse(&data).unwrap();
    assert!(entry.is_long_name());
    assert_eq!(entry.filename(), "unknown");
    data[11] = 0xff;
    assert_eq!(DirEntry::parse(&data).unwrap().attributes.bits(), 0x3f);
}

#[test]
fn dir_entry_cluster_uses_both_halves() {
    let mut data = KERNEL_ENTRY;
    data[20] = 0x34;
    data[21] = 0x12;
    data[26] = 0x78;
    data[27] = 0x56;
    assert_eq!(DirEntry::parse(&data).unwrap().cluster, Cluster(0x1234_5678));
}

#[test]
fn packed_time_with_no_such_moment_is_the_epoch() {
    // month 0
    assert_eq!(prase_datetime(0), FsTime { secs: 0 });
    // 30 February 2020
    let date = (40u32 << 25) | (2 << 21) | (30 << 16);
    assert_eq!(prase_datetime(date), FsTime { secs: 0 });
    // second 60
    let odd = (40u32 << 25) | (6 << 21) | (16 << 16) | 30;
    assert_eq!(prase_datetime(odd), FsTime { secs: 0 });
    let ok = (40u32 << 25) | (6 << 21) | (16 << 16) | (1 << 11) | (2 << 5) | 3;
    assert_eq!(prase_datetime(ok), time(2020, 6, 16, 1, 2, 6));
    assert_eq!(prase_datetime(1 << 21 | 1 << 16), time(1980, 1, 1, 0, 0, 0));
}

#[test]
fn little_endian_numbers() {
    assert_eq!(le_u32(0x78, 0x56, 0x34, 0x12), 0x1234_5678);
    assert_eq!(le_u32(0xff, 0xff, 0xff, 0xff), u32::MAX);
    assert_eq!(le_u16(0x55, 0xAA), 0xAA55);
}

#[test]
fn short_file_name_parse() {
    let sfn = ShortFileName::parse("kernel.elf").unwrap();
    assert_eq!(&sfn.name, b"KERNEL  ");
    assert_eq!(&sfn.ext, b"ELF");
    let sfn = ShortFileName::parse("README").unwrap();
    assert_eq!(&sfn.name, b"README  ");
    assert_eq!(&sfn.ext, b"   ");
    let sfn = ShortFileName::parse("a.b.c").unwrap();
    assert_eq!(&sfn.name, b"A       ");
    assert_eq!(&sfn.ext, b"B.C");
    let sfn = ShortFileName::parse("12345678.123").unwrap();
    assert_eq!(&sfn.name, b"12345678");
    assert_eq!(&sfn.ext, b"123");
    let sfn = ShortFileName::parse("x.").unwrap();
    assert_eq!(&sfn.name, b"X       ");
    assert_eq!(&sfn.ext, b"   ");
    assert!(sfn.matches(&ShortFileName::parse("X").unwrap()));
    assert!(!sfn.matches(&ShortFileName::parse("Y").unwrap()));
    assert!(!sfn.matches(&ShortFileName::parse("X.A").unwrap()));
}

#[test]
fn short_file_name_errors() {
    let err = |e| Err::<(), FsError>(FsError::FileNameError(e));
    let parse = |s: &str| ShortFileName::parse(s).map(|_| ());
    assert_eq!(parse(""), err(FilenameError::FilenameEmpty));
    assert_eq!(parse("   "), err(FilenameError::FilenameEmpty));
    assert_eq!(parse(".elf"), err(FilenameError::FilenameEmpty));
    assert_eq!(parse("a b"), err(FilenameError::InvalidCharacter));
    assert_eq!(parse(" a"), err(FilenameError::InvalidCharacter));
    assert_eq!(parse("a*"), err(FilenameError::InvalidCharacter));
    assert_eq!(parse("a/b"), err(FilenameError::InvalidCharacter));
    assert_eq!(parse("a\tb"), err(FilenameError::InvalidCharacter));
    assert_eq!(parse("123456789"), err(FilenameError::NameTooLong));
    assert_eq!(parse("a.1234"), err(FilenameError::NameTooLong));
    assert!(invalid_byte(b'|') && invalid_byte(b'[') && invalid_byte(0x1f) && invalid_byte(b'?'));
    assert!(!invalid_byte(b'a') && !invalid_byte(b'.') && !invalid_byte(b'~') && !invalid_byte(0x80));
    assert_eq!(upper(b'a'), b'A');
    assert_eq!(upper(b'z'), b'Z');
    assert_eq!(upper(b'{'), b'{');
    assert_eq!(upper(b'1'), b'1');
}

#[test]
fn short_file_name_trims_unicode_space() {
    // a no-break space is no byte that a name may not hold, and is trimmed
    let sfn = ShortFileName::parse("\u{a0}ab\u{a0}").unwrap();
    assert_eq!(&sfn.name, b"AB      ");
}

fn boot_sector() -> Block {
    let mut block = Block::default();
    block.contents[11] = 0x00;
    block.contents[12] = 0x02; // 512 bytes per sector
    block.contents[13] = 2; // sectors per cluster
    block.contents[14] = 1; // reserved sectors
    block.contents[16] = 2; // tables
    block.contents[17] = 16; // root entries
    block.contents[22] = 1; // sectors per table
    block.contents[510] = 0x55;
    block.contents[511] = 0xAA;
    block
}

fn entry(name: &[u8; 11], attr: u8, cluster: u16) -> [u8; 32] {
    let mut data = [0u8; 32];
    data[..11].copy_from_slice(name);
    data[11] = attr;
    data[26] = cluster as u8;
    data[27] = (cluster >> 8) as u8;
    data
}

/// Sector 0 boot, 1 and 2 tables, 3 root directory, 4.. clusters of two sectors.
fn volume() -> Fat16Impl<RamDisk> {
    let mut blocks: Vec<Block> = (0..12).map(|_| Block::default()).collect();
    blocks[0] = boot_sector();
    // chain 2 -> 3 -> end, cluster 4 is bad, cluster 5 -> end
    let fat: [u16; 6] = [0xFFF8, 0xFFFF, 3, 0xFFFF, 0xFFF7, 0xFFF8];
    for (i, e) in fat.iter().enumerate() {
        blocks[1].contents[2 * i] = *e as u8;
        blocks[1].contents[2 * i + 1] = (*e >> 8) as u8;
    }
    blocks[3].contents[..32].copy_from_slice(&entry(b"BIN        ", ATTR_DIRECTORY, 2));
    blocks[3].contents[32..64].copy_from_slice(&entry(b"README  TXT", ATTR_ARCHIVE, 5));
    // directory BIN: cluster 2 is sectors 4 and 5, cluster 3 is sectors 6 and 7
    blocks[4].contents[..32].copy_from_slice(&entry(b"OLD     BIN", ATTR_LFN, 9));
    blocks[5].contents[32..64].copy_from_slice(&entry(b"HELLO      ", ATTR_ARCHIVE, 5));
    blocks[7].contents[64..96].copy_from_slice(&entry(b"DEEP       ", ATTR_DIRECTORY, 5));
    Fat16Impl::new(RamDisk::new(blocks)).unwrap()
}

#[test]
fn boot_sector_gives_the_layout() {
    let volume = volume();
    assert_eq!(volume.bpb.bytes_per_sector(), 512);
    assert_eq!(volume.bpb.sectors_per_cluster(), 2);
    assert_eq!(volume.bpb.reserved_sector_count(), 1);
    assert_eq!(volume.bpb.fat_count(), 2);
    assert_eq!(volume.bpb.root_entries_count(), 16);
    assert_eq!(volume.bpb.sectors_per_fat(), 1);
    assert_eq!(volume.fat_start, 1);
    assert_eq!(volume.first_root_dir_sector, 3);
    assert_eq!(volume.first_data_sector, 4);
}

#[test]
fn bad_boot_sectors() {
    assert_eq!(Fat16Bpb::new(&[0u8; 100]), Err(FsError::InvalidDataLength));
    assert_eq!(Fat16Bpb::new(&[0u8; 512]), Err(FsError::InvalidOperation));
    assert!(Fat16Impl::new(RamDisk::new(vec![Block::default()])).is_err());
    assert_eq!(
        Fat16Impl::new(RamDisk::new(Vec::new())).err(),
        Some(FsError::InvalidOffset)
    );
    assert!(Fat16Impl::from_boot_sector(RamDisk::new(Vec::new()), &boot_sector()).is_ok());
}

#[test]
fn cluster_to_sector_counts_from_cluster_two() {
    let volume = volume();
    assert_eq!(volume.cluster_to_sector(&Cluster(CLUSTER_ROOT_DIR)), 3);
    assert_eq!(volume.cluster_to_sector(&Cluster(2)), 4);
    assert_eq!(volume.cluster_to_sector(&Cluster(3)), 6);
    assert_eq!(volume.cluster_to_sector(&Cluster(0xFFFF)), 4 + 0xFFFD * 2);
    assert_eq!(volume.cluster_to_sector(&Cluster(0x1_0000)), 4 + 0xFFFE * 2);
    assert_eq!(volume.cluster_to_sector(&Cluster(0x12_3456)), 4 + 0x12_3454 * 2);
}

#[test]
fn next_cluster_follows_the_table() {
    let volume = volume();
    assert_eq!(volume.next_cluster(Cluster(CLUSTER_ROOT_DIR)), Ok(Cluster(CLUSTER_ROOT_DIR)));
    assert_eq!(volume.next_cluster(Cluster(2)), Ok(Cluster(3)));
    assert_eq!(volume.next_cluster(Cluster(3)), Ok(Cluster(CLUSTER_END_OF_FILE)));
    assert_eq!(volume.next_cluster(Cluster(4)), Err(FsError::BadCluster));
    assert_eq!(volume.next_cluster(Cluster(5)), Ok(Cluster(CLUSTER_END_OF_FILE)));
    assert_eq!(volume.next_cluster(Cluster(6)), Ok(Cluster(0)));
    // the entry lies behind the device
    assert_eq!(volume.next_cluster(Cluster(0xFFFF)), Err(FsError::InvalidOffset));
    let mut block = Block::default();
    block.contents[6] = 0xF7;
    block.contents[7] = 0xFF;
    assert_eq!(fat_entry_of(&block, Cluster(3)), Err(FsError::BadCluster));
    assert_eq!(fat_entry_of(&block, Cluster(259)), Err(FsError::BadCluster));
    assert_eq!(fat_entry_of(&block, Cluster(2)), Ok(Cluster(0)));
}

#[test]
fn name_to_entry_finds_files() {
    let volume = volume();
    let root = volume.root_dir().unwrap();
    assert_eq!(root.cluster, Cluster(CLUSTER_ROOT_DIR));
    let bin = volume.name_to_entry(&root, "bin").unwrap();
    assert!(bin.is_directory());
    assert_eq!(bin.cluster, Cluster(2));
    let readme = volume.name_to_entry(&root, "readme.TXT").unwrap();
    assert_eq!(readme.cluster, Cluster(5));
    assert_eq!(volume.name_to_entry(&root, "hello").err(), Some(FsError::FileNotFound));
    assert_eq!(
        volume.name_to_entry(&root, "a b").err(),
        Some(FsError::FileNameError(FilenameError::InvalidCharacter))
    );
    // in the second sector of the first cluster, and in the second cluster
    let dir = Directory::from_entry(bin);
    assert_eq!(volume.name_to_entry(&dir, "Hello").unwrap().cluster, Cluster(5));
    assert!(volume.name_to_entry(&dir, "deep").unwrap().is_directory());
    // an entry that holds a part of a long name is passed over
    assert_eq!(volume.name_to_entry(&dir, "old.bin").err(), Some(FsError::FileNotFound));
    assert_eq!(
        volume.name_to_entry(&Directory::new(Cluster(1)), "x").err(),
        Some(FsError::BadCluster)
    );
    assert_eq!(
        volume.name_to_entry(&Directory::new(Cluster(0x10000)), "x").err(),
        Some(FsError::BadCluster)
    );
    assert_eq!(
        volume.name_to_entry(&Directory::new(Cluster(4)), "x").err(),
        Some(FsError::BadCluster)
    );
}

#[test]
fn find_in_block_takes_the_first_match() {
    let mut block = Block::default();
    block.contents[64..96].copy_from_slice(&entry(b"A          ", ATTR_ARCHIVE, 7));
    block.contents[96..128].copy_from_slice(&entry(b"A          ", ATTR_ARCHIVE, 8));
    let name = ShortFileName::parse("a").unwrap();
    assert_eq!(find_in_block(&block, &name).unwrap().cluster, Cluster(7));
    assert!(find_in_block(&block, &ShortFileName::parse("b").unwrap()).is_none());
    assert!(find_in_block(&Block::default(), &name).is_none());
}

#[test]
fn parse_path_walks_directories() {
    let volume = volume();
    for path in ["", "/", "//", "///"] {
        let dir = volume.parse_path(path).unwrap();
        assert_eq!(dir.cluster, Cluster(CLUSTER_ROOT_DIR));
        assert!(dir.entry.is_none());
    }
    for path in ["bin", "/bin", "/bin/", "//BIN//"] {
        assert_eq!(volume.parse_path(path).unwrap().cluster, Cluster(2));
    }
    assert_eq!(volume.parse_path("/bin/deep").unwrap().cluster, Cluster(5));
    assert!(volume.parse_path("/readme.txt").is_none());
    assert!(volume.parse_path("/bin/hello").is_none());
    assert!(volume.parse_path("/nope").is_none());
    assert!(volume.parse_path("/bin/a b").is_none());
}

#[test]
fn file_starts_at_its_first_cluster() {
    let volume = volume();
    let root = volume.root_dir().unwrap();
    let mut readme = volume.name_to_entry(&root, "readme.txt").unwrap();
    readme.size = 1234;
    let file = File::new(std::sync::Arc::new(volume), readme);
    assert_eq!(file.length(), 1234);
    assert_eq!(file.offset, 0);
    assert_eq!(file.current_cluster, Cluster(5));
}

#[test]
fn partition_reads_from_its_offset() {
    let mut blocks: Vec<Block> = (0..4).map(|_| Block::default()).collect();
    for (i, block) in blocks.iter_mut().enumerate() {
        block.contents[0] = i as u8;
    }
    let part = Partition::new(RamDisk::new(blocks), 1, 2);
    assert_eq!(part.block_count(), Ok(2));
    let mut block = Block::default();
    assert_eq!(part.read_block(0, &mut block), Ok(()));
    assert_eq!(block.contents[0], 1);
    assert_eq!(part.read_block(1, &mut block), Ok(()));
    assert_eq!(block.contents[0], 2);
    assert_eq!(part.read_block(2, &mut block), Err(FsError::InvalidOffset));
    let part = Partition::new(RamDisk::new(Vec::new()), usize::MAX, 2);
    assert_eq!(part.read_block(1, &mut block), Err(FsError::InvalidOffset));
    let part = Partition::new(RamDisk::new(Vec::new()), 3, 2);
    assert_eq!(part.read_block(1, &mut block), Err(FsError::InvalidOffset));
    assert_eq!(BLOCK_SIZE, 512);
}

#[test]
fn volume_on_a_partition() {
    let mut blocks: Vec<Block> = (0..6).map(|_| Block::default()).collect();
    blocks[2] = boot_sector();
    let volume = Fat16Impl::new(Partition::new(RamDisk::new(blocks), 2, 4)).unwrap();
    assert_eq!(volume.first_data_sector, 4);
    assert_eq!(volume.next_cluster(Cluster(2)), Ok(Cluster(0)));
}

#[test]
fn ram_disk_reads_its_blocks() {
    let mut blocks: Vec<Block> = (0..3).map(|_| Block::default()).collect();
    for (i, block) in blocks.iter_mut().enumerate() {
        block.contents[7] = 10 + i as u8;
    }
    let disk = RamDisk::new(blocks);
    assert_eq!(disk.block_count(), Ok(3));
    let mut block = Block::default();
    assert_eq!(disk.read_block(2, &mut block), Ok(()));
    assert_eq!(block.contents[7], 12);
    assert_eq!(disk.read_block(0, &mut block), Ok(()));
    assert_eq!(block.contents[7], 10);
    assert_eq!(disk.read_block(3, &mut block), Err(FsError::InvalidOffset));
    assert_eq!(block.contents[7], 10);
    let part = Partition::new(disk, 1, 1);
    assert_eq!(part.block_count(), Ok(1));
    assert_eq!(part.read_block(1, &mut block), Err(FsError::InvalidOffset));
    assert_eq!(block.contents[7], 10);
    assert_eq!(part.read_block(0, &mut block), Ok(()));
    assert_eq!(block.contents[7], 11);
}

#[test]
fn ram_disk_writes_its_blocks() {
    let blocks: Vec<Block> = (0..3).map(|_| Block::default()).collect();
    let mut disk = RamDisk::new(blocks);
    let mut block = Block::default();
    block.contents[0] = 0xAB;
    block.contents[511] = 0xCD;
    assert_eq!(disk.write_block(1, &block), Ok(()));
    assert_eq!(disk.write_block(3, &block), Err(FsError::InvalidOffset));
    assert_eq!(disk.block_count(), Ok(3));
    let mut back = Block::default();
    assert_eq!(disk.read_block(1, &mut back), Ok(()));
    assert_eq!(back.contents[0], 0xAB);
    assert_eq!(back.contents[511], 0xCD);
    assert_eq!(disk.read_block(0, &mut back), Ok(()));
    assert_eq!(back.contents, [0u8; 512]);
    assert_eq!(disk.read_block(2, &mut back), Ok(()));
    assert_eq!(back.contents, [0u8; 512]);
}

#[test]
fn partition_writes_at_its_offset() {
    let blocks: Vec<Block> = (0..4).map(|_| Block::default()).collect();
    let mut part = Partition::new(RamDisk::new(blocks), 1, 2);
    let mut block = Block::default();
    block.contents[5] = 7;
    assert_eq!(part.write_block(1, &block), Ok(()));
    assert_eq!(part.write_block(2, &block), Err(FsError::InvalidOffset));
    assert_eq!(part.inner.data[2].contents[5], 7);
    assert_eq!(part.inner.data[0].contents[5], 0);
    assert_eq!(part.inner.data[1].contents[5], 0);
    assert_eq!(part.inner.data[3].contents[5], 0);
    let mut back = Block::default();
    assert_eq!(part.read_block(1, &mut back), Ok(()));
    assert_eq!(back.contents[5], 7);
    let mut far = Partition::new(RamDisk::new(Vec::new()), usize::MAX, 2);
    assert_eq!(far.write_block(1, &block), Err(FsError::InvalidOffset));
    let mut beyond = Partition::new(RamDisk::new(Vec::new()), 3, 2);
    assert_eq!(beyond.write_block(1, &block), Err(FsError::InvalidOffset));
}
