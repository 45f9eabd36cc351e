use yatsenos::storage::fat16::direntry::{ATTR_ARCHIVE, ATTR_DIRECTORY, ATTR_LFN};
use yatsenos::storage::fat16::fs::{check_dir_exists, is_root_path, last_slash, Fat16};
use yatsenos::storage::fat16::Fat16Impl;
use yatsenos::storage::{Block, FileType, FilenameError, FsError, RamDisk};

fn dir_entry(name: &[u8; 11], attr: u8, cluster: u16, size: u32) -> [u8; 32] {
    let mut data = [0u8; 32];
    data[..11].copy_from_slice(name);
    data[11] = attr;
    data[26] = cluster as u8;
    data[27] = (cluster >> 8) as u8;
    data[28..32].copy_from_slice(&size.to_le_bytes());
    data
}

/// Sector 0 boot, 1 table, 2 root directory, 3.. clusters of two sectors:
/// cluster 2 is the directory DOCS, clusters 3 and 5 are the file A.TXT of
/// 1500 bytes, cluster 4 the file B of 10 bytes.
fn file_system() -> Fat16<RamDisk> {
    let mut blocks: Vec<Block> = (0..16).map(|_| Block::default()).collect();
    blocks[0].contents[12] = 0x02;
    blocks[0].contents[13] = 2;
    blocks[0].contents[14] = 1;
    blocks[0].contents[16] = 1;
    blocks[0].contents[17] = 16;
    blocks[0].contents[22] = 1;
    blocks[0].contents[510] = 0x55;
    blocks[0].contents[511] = 0xAA;
    let fat: [u16; 6] = [0xFFF8, 0xFFFF, 0xFFFF, 5, 0xFFFF, 0xFFFF];
    for (i, e) in fat.iter().enumerate() {
        blocks[1].contents[2 * i] = *e as u8;
        blocks[1].contents[2 * i + 1] = (*e >> 8) as u8;
    }
    blocks[2].contents[..32].copy_from_slice(&dir_entry(b"DOCS       ", ATTR_DIRECTORY, 2, 0));
    blocks[2].contents[32..64].copy_from_slice(&dir_entry(b"\xE5OLD       ", ATTR_ARCHIVE, 9, 1));
    blocks[2].contents[64..96].copy_from_slice(&dir_entry(b"B          ", ATTR_ARCHIVE, 4, 10));
    blocks[3].contents[..32].copy_from_slice(&dir_entry(b"LONGNAMEPRT", ATTR_LFN, 0, 0));
    blocks[3].contents[32..64].copy_from_slice(&dir_entry(b"A       TXT", ATTR_ARCHIVE, 3, 1500));
    // cluster 3 is sectors 5 and 6, cluster 4 sectors 7 and 8, cluster 5 sectors 9 and 10
    for sector in [5usize, 6, 9, 10] {
        for i in 0..512 {
            blocks[sector].contents[i] = (sector * 16 + i % 16) as u8;
        }
    }
    blocks[7].contents[..10].copy_from_slice(b"0123456789");
    Fat16::new(Fat16Impl::new(RamDisk::new(blocks)).unwrap())
}

fn byte_at(position: usize) -> u8 {
    let sector = [5usize, 6, 9, 10][position / 512];
    (sector * 16 + position % 16) as u8
}

#[test]
fn path_helpers() {
    assert_eq!(last_slash(b""), None);
    assert_eq!(last_slash(b"abc"), None);
    assert_eq!(last_slash(b"/abc"), Some(0));
    assert_eq!(last_slash(b"/a/bc"), Some(2));
    assert_eq!(last_slash(b"/a/"), Some(2));
    assert!(is_root_path(b""));
    assert!(is_root_path(b"/"));
    assert!(is_root_path(b"///"));
    assert!(!is_root_path(b"/a"));
}

#[test]
fn exists_and_metadata() {
    let fs = file_system();
    assert_eq!(fs.path_exists(""), Ok(true));
    assert_eq!(fs.path_exists("/"), Ok(true));
    assert_eq!(fs.path_exists("/docs"), Ok(true));
    assert_eq!(fs.path_exists("docs"), Ok(true));
    assert_eq!(fs.path_exists("/b"), Ok(true));
    assert_eq!(fs.path_exists("/docs/a.txt"), Ok(true));
    assert_eq!(fs.path_exists("/docs/b"), Ok(false));
    assert_eq!(fs.path_exists("/nope/a.txt"), Ok(false));
    assert_eq!(fs.path_exists("/b/x"), Ok(false));
    assert_eq!(fs.path_exists("/docs/"), Err(FsError::NotAFile));
    assert_eq!(
        fs.path_exists("/a b"),
        Err(FsError::FileNameError(FilenameError::InvalidCharacter))
    );
    let root = fs.metadata("/").unwrap();
    assert_eq!(root.name, "/");
    assert!(root.is_dir());
    assert_eq!(root.len, 0);
    let docs = fs.metadata("/docs").unwrap();
    assert_eq!(docs.entry_type, FileType::Directory);
    assert_eq!(docs.name, "DOCS");
    let a = fs.metadata("/docs/a.txt").unwrap();
    assert_eq!(a.entry_type, FileType::File);
    assert_eq!(a.name, "A.TXT");
    assert_eq!(a.len, 1500);
    assert_eq!(fs.metadata("/docs/zzz").err(), Some(FsError::FileNotFound));
    assert_eq!(fs.metadata("/zzz/a").err(), Some(FsError::FileNotFound));
    assert_eq!(fs.metadata("/docs/").err(), Some(FsError::NotAFile));
    assert!(check_dir_exists(&fs, "/"));
    assert!(check_dir_exists(&fs, "/docs"));
    assert!(!check_dir_exists(&fs, "/b"));
    assert!(!check_dir_exists(&fs, "/nope"));
    assert!(!check_dir_exists(&fs, "/docs/"));
}

#[test]
fn read_dir_lists_the_entries_in_use() {
    let fs = file_system();
    let root = fs.read_dir("/").unwrap();
    let names: Vec<&str> = root.iter().map(|m| m.name.as_str()).collect();
    assert_eq!(names, vec!["DOCS", "B"]);
    assert!(root[0].is_dir());
    assert_eq!(root[1].len, 10);
    let docs = fs.read_dir("/docs").unwrap();
    assert_eq!(docs.len(), 1);
    assert_eq!(docs[0].name, "A.TXT");
    assert_eq!(fs.read_dir("/b").err(), Some(FsError::NotADirectory));
    assert_eq!(fs.read_dir("/nope").err(), Some(FsError::NotADirectory));
}

#[test]
fn open_file_refuses_directories() {
    let fs = file_system();
    assert_eq!(fs.open_file("/docs").err(), Some(FsError::NotAFile));
    assert_eq!(fs.open_file("/docs/").err(), Some(FsError::NotAFile));
    assert_eq!(fs.open_file("/nope").err(), Some(FsError::FileNotFound));
    assert_eq!(
        fs.open_file("").err(),
        Some(FsError::FileNameError(FilenameError::FilenameEmpty))
    );
    let handle = fs.open_file("/b").unwrap();
    assert_eq!(handle.meta.name, "B");
    assert_eq!(handle.meta.len, 10);
    assert_eq!(handle.file.length(), 10);
    assert_eq!(handle.file.offset, 0);
}

#[test]
fn read_small_file() {
    let fs = file_system();
    let mut file = fs.open_file("/b").unwrap().file;
    let mut buf = [0xAAu8; 16];
    assert_eq!(file.read(&mut buf), Ok(10));
    assert_eq!(&buf[..10], b"0123456789");
    assert_eq!(&buf[10..], &[0xAA; 6]);
    assert_eq!(file.offset, 10);
    assert_eq!(file.read(&mut buf), Ok(0));
    assert_eq!(file.read(&mut []), Ok(0));
}

#[test]
fn read_in_pieces() {
    let fs = file_system();
    let mut file = fs.open_file("/b").unwrap().file;
    let mut buf = [0u8; 4];
    assert_eq!(file.read(&mut buf), Ok(4));
    assert_eq!(&buf, b"0123");
    assert_eq!(file.read(&mut buf), Ok(4));
    assert_eq!(&buf, b"4567");
    assert_eq!(file.read(&mut buf), Ok(2));
    assert_eq!(&buf, b"8967");
    assert_eq!(file.read(&mut buf), Ok(0));
}

#[test]
fn read_across_sectors_and_clusters() {
    let fs = file_system();
    let mut file = fs.open_file("/docs/a.txt").unwrap().file;
    let mut buf = vec![0u8; 2000];
    assert_eq!(file.read(&mut buf), Ok(1500));
    for (i, byte) in buf[..1500].iter().enumerate() {
        assert_eq!(*byte, byte_at(i), "byte {}", i);
    }
    assert!(buf[1500..].iter().all(|b| *b == 0));
    assert_eq!(file.offset, 1500);
    assert_eq!(file.read(&mut buf), Ok(0));
    let mut file = fs.open_file("/docs/a.txt").unwrap().file;
    let mut buf = vec![0u8; 700];
    assert_eq!(file.read(&mut buf), Ok(700));
    for (i, byte) in buf.iter().enumerate() {
        assert_eq!(*byte, byte_at(i));
    }
    assert_eq!(file.read(&mut buf), Ok(700));
    for (i, byte) in buf.iter().enumerate() {
        assert_eq!(*byte, byte_at(700 + i));
    }
    assert_eq!(file.read(&mut buf), Ok(100));
}

#[test]
fn read_stops_where_the_chain_ends() {
    let fs = file_system();
    let mut handle = fs.open_file("/b").unwrap();
    handle.file.entry.size = 3000;
    let mut buf = vec![0u8; 3000];
    assert_eq!(handle.file.read(&mut buf), Ok(1024));
    assert_eq!(&buf[..10], b"0123456789");
    let mut handle = fs.open_file("/b").unwrap();
    handle.file.current_cluster = yatsenos::storage::fat16::direntry::Cluster(1);
    assert_eq!(handle.file.read(&mut buf), Err(FsError::BadCluster));
}

#[test]
fn read_dir_follows_the_chain_in_order() {
    let mut blocks: Vec<Block> = (0..16).map(|_| Block::default()).collect();
    blocks[0].contents[12] = 0x02;
    blocks[0].contents[13] = 2;
    blocks[0].contents[14] = 1;
    blocks[0].contents[16] = 1;
    blocks[0].contents[17] = 16;
    blocks[0].contents[22] = 1;
    blocks[0].contents[510] = 0x55;
    blocks[0].contents[511] = 0xAA;
    // the directory DOCS is cluster 2 and then cluster 6
    let fat: [u16; 7] = [0xFFF8, 0xFFFF, 6, 0xFFFF, 0xFFFF, 0xFFFF, 0xFFFF];
    for (i, e) in fat.iter().enumerate() {
        blocks[1].contents[2 * i] = *e as u8;
        blocks[1].contents[2 * i + 1] = (*e >> 8) as u8;
    }
    blocks[2].contents[..32].copy_from_slice(&dir_entry(b"DOCS       ", ATTR_DIRECTORY, 2, 0));
    // cluster 2 is sectors 3 and 4, cluster 6 sectors 11 and 12
    blocks[3].contents[32..64].copy_from_slice(&dir_entry(b"ONE        ", ATTR_ARCHIVE, 3, 1));
    blocks[4].contents[..32].copy_from_slice(&dir_entry(b"PART       ", ATTR_LFN, 0, 0));
    blocks[4].contents[480..512].copy_from_slice(&dir_entry(b"TWO     TXT", ATTR_ARCHIVE, 4, 2));
    blocks[11].contents[..32].copy_from_slice(&dir_entry(b"\xE5GONE      ", ATTR_ARCHIVE, 5, 3));
    blocks[11].contents[64..96].copy_from_slice(&dir_entry(b"THREE      ", ATTR_DIRECTORY, 5, 0));
    blocks[12].contents[..32].copy_from_slice(&dir_entry(b"FOUR    BIN", ATTR_ARCHIVE, 5, 4));
    // a cluster that the chain does not reach
    blocks[5].contents[..32].copy_from_slice(&dir_entry(b"STRAY      ", ATTR_ARCHIVE, 5, 5));
    let fs = Fat16::new(Fat16Impl::new(RamDisk::new(blocks)).unwrap());
    let docs = fs.read_dir("/docs").unwrap();
    let names: Vec<&str> = docs.iter().map(|m| m.name.as_str()).collect();
    assert_eq!(names, vec!["ONE", "TWO.TXT", "THREE", "FOUR.BIN"]);
    let sizes: Vec<usize> = docs.iter().map(|m| m.len).collect();
    assert_eq!(sizes, vec![1, 2, 0, 4]);
    assert!(docs[2].is_dir());
    assert!(!docs[3].is_dir());
    assert!(check_dir_exists(&fs, "/docs/three"));
    assert!(!check_dir_exists(&fs, "/docs/four.bin"));
    assert!(!check_dir_exists(&fs, "/docs/stray"));
}

#[test]
fn a_name_that_is_not_there_is_not_found() {
    let fs = file_system();
    assert_eq!(fs.path_exists("/nope"), Ok(false));
    assert_eq!(fs.path_exists("/docs/nope.txt"), Ok(false));
    assert_eq!(fs.path_exists("/nodir/a.txt"), Ok(false));
    assert_eq!(fs.metadata("/nope").err(), Some(FsError::FileNotFound));
    assert_eq!(fs.open_file("/docs/nope.txt").err(), Some(FsError::FileNotFound));
    let root = fs.handle.root_dir().unwrap();
    assert_eq!(fs.handle.name_to_entry(&root, "nope").err(), Some(FsError::FileNotFound));
    let docs = fs.handle.parse_path("/docs").unwrap();
    assert_eq!(fs.handle.name_to_entry(&docs, "b").err(), Some(FsError::FileNotFound));
}
