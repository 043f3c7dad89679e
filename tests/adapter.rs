use squashfuse_rs::fs::{read_range, Attr, DirEntry, FsError, NodeInfo, SquashfsFilesystem};
use squashfuse_rs::kind::{inner_to_fs_type, FileType, NodeKind};
use squashfuse_rs::path::{bytes_eq, split_path};

fn info(path: &str, kind: NodeKind, size: u64) -> NodeInfo {
    NodeInfo {
        path: path.as_bytes().to_vec(),
        kind,
        size,
        blocks: if size > 0 { 1 } else { 0 },
        perm: if kind == NodeKind::Dir { 0o755 } else { 0o644 },
        uid: 1000,
        gid: 100,
    }
}

/// The archive of the example: ids follow the path-sorted node order.
/// 1 "/", 2 "/nested_folder", 3 "/nested_folder/other.w2", 4 "/other.w", 5 "/stf.txt"
fn sample() -> SquashfsFilesystem {
    SquashfsFilesystem::new(vec![
        info("/", NodeKind::Dir, 0),
        info("/nested_folder", NodeKind::Dir, 0),
        info("/nested_folder/other.w2", NodeKind::File, 16),
        info("/other.w", NodeKind::File, 17),
        info("/stf.txt", NodeKind::File, 24),
    ])
}

fn stf_content() -> Vec<u8> {
    b"Hey!!! waOIDPOAWIDPOAWPO".to_vec()
}

fn names(v: &[DirEntry]) -> Vec<Vec<u8>> {
    v.iter().map(|e| e.name.clone()).collect()
}

#[test]
fn end_to_end_scenario() {
    let fs = sample();
    let root = fs.getattr(1).unwrap();
    assert_eq!(root.kind, FileType::Directory);
    let (ino, attr) = fs.lookup(1, &b"stf.txt".to_vec()).unwrap();
    assert_eq!(ino, 5);
    assert_eq!(attr.size, 24);
    assert_eq!(fs.open(ino), Ok(0));
    let content = Some(stf_content());
    let all = fs.read(ino, 0, 100, &content).unwrap();
    assert_eq!(all.len(), 24);
    assert_eq!(all, stf_content());
    let tail = fs.read(ino, 20, 100, &content).unwrap();
    assert_eq!(tail, stf_content()[20..].to_vec());
    assert_eq!(tail.len(), 4);
    let none = fs.read(ino, 24, 10, &content).unwrap();
    assert!(none.is_empty());
    let (dir, _) = fs.lookup(1, &b"nested_folder".to_vec()).unwrap();
    let listed = fs.readdir(dir, 0).unwrap();
    assert_eq!(names(&listed), vec![b".".to_vec(), b"..".to_vec(), b"other.w2".to_vec()]);
}

#[test]
fn listing_root_from_zero() {
    let fs = sample();
    let v = fs.readdir(1, 0).unwrap();
    assert_eq!(
        names(&v),
        vec![b".".to_vec(), b"..".to_vec(), b"nested_folder".to_vec(), b"other.w".to_vec(), b"stf.txt".to_vec()]
    );
    let inos: Vec<u64> = v.iter().map(|e| e.ino).collect();
    assert_eq!(inos, vec![1, 1, 2, 4, 5]);
    let kinds: Vec<FileType> = v.iter().map(|e| e.kind).collect();
    assert_eq!(
        kinds,
        vec![FileType::Directory, FileType::Directory, FileType::Directory, FileType::RegularFile, FileType::RegularFile]
    );
    let offsets: Vec<u64> = v.iter().map(|e| e.offset).collect();
    assert_eq!(offsets, vec![1, 2, 3, 4, 5]);
}

#[test]
fn listing_suffixes_and_past_end() {
    let fs = sample();
    let full = fs.readdir(1, 0).unwrap();
    for k in 0..=5u64 {
        let part = fs.readdir(1, k).unwrap();
        assert_eq!(names(&part), names(&full[k as usize..]));
        for (i, e) in part.iter().enumerate() {
            assert_eq!(e.offset, k + i as u64 + 1);
        }
    }
    assert!(fs.readdir(1, 6).unwrap().is_empty());
    assert!(fs.readdir(1, u64::MAX).unwrap().is_empty());
}

#[test]
fn dotdot_of_nested_directory_is_root() {
    let fs = sample();
    let v = fs.readdir(2, 0).unwrap();
    assert_eq!(v[0].ino, 2);
    assert_eq!(v[1].ino, 1);
    assert_eq!(v[2].ino, 3);
}

#[test]
fn readdir_errors() {
    let fs = sample();
    assert!(matches!(fs.readdir(5, 0), Err(FsError::NotADirectory)));
    assert!(matches!(fs.readdir(0, 0), Err(FsError::NotFound)));
    assert!(matches!(fs.readdir(6, 0), Err(FsError::NotFound)));
}

#[test]
fn read_clipping() {
    let data: Vec<u8> = (0u8..10).collect();
    assert_eq!(read_range(&data, 0, 0), Vec::<u8>::new());
    assert_eq!(read_range(&data, 3, 4), vec![3, 4, 5, 6]);
    assert_eq!(read_range(&data, 8, 100), vec![8, 9]);
    assert_eq!(read_range(&data, 10, 5), Vec::<u8>::new());
    assert_eq!(read_range(&data, 11, 5), Vec::<u8>::new());
    assert_eq!(read_range(&data, u64::MAX, u32::MAX), Vec::<u8>::new());
    for off in 0..=12u64 {
        for size in 0..=12u32 {
            let r = read_range(&data, off, size);
            let expect = std::cmp::min(size as i64, std::cmp::max(0, 10 - off as i64)) as usize;
            assert_eq!(r.len(), expect);
            if expect > 0 {
                assert_eq!(r, data[off as usize..off as usize + expect].to_vec());
            }
        }
    }
}

#[test]
fn read_errors() {
    let fs = sample();
    let content = Some(vec![1u8, 2, 3]);
    assert_eq!(fs.read(2, 0, 10, &content), Err(FsError::IsADirectory));
    assert_eq!(fs.read(9, 0, 10, &content), Err(FsError::NotFound));
    assert_eq!(fs.read(4, 0, 10, &None), Err(FsError::Io));
    assert_eq!(fs.read(4, 1, 10, &content), Ok(vec![2, 3]));
}

#[test]
fn lookup_finds_only_direct_children() {
    let fs = sample();
    assert_eq!(fs.lookup(1, &b"other.w".to_vec()).map(|r| r.0), Ok(4));
    assert_eq!(fs.lookup(2, &b"other.w2".to_vec()).map(|r| r.0), Ok(3));
    assert_eq!(fs.lookup(1, &b"other.w2".to_vec()), Err(FsError::NotFound));
    assert_eq!(fs.lookup(1, &b"OTHER.W".to_vec()), Err(FsError::NotFound));
    assert_eq!(fs.lookup(1, &b"other".to_vec()), Err(FsError::NotFound));
    assert_eq!(fs.lookup(5, &b"x".to_vec()), Err(FsError::NotFound));
    assert_eq!(fs.lookup(42, &b"x".to_vec()), Err(FsError::NotFound));
    let a = fs.lookup(1, &b"stf.txt".to_vec()).unwrap();
    let b = fs.lookup(1, &b"stf.txt".to_vec()).unwrap();
    assert_eq!(a, b);
}

#[test]
fn getattr_record() {
    let fs = sample();
    let a = fs.getattr(4).unwrap();
    let expect = Attr {
        ino: 4,
        size: 17,
        blocks: 1,
        time_secs: 0,
        kind: FileType::RegularFile,
        perm: 0o644,
        nlink: 1,
        uid: 1000,
        gid: 100,
        rdev: 0,
        flags: 0,
        blksize: 512,
    };
    assert_eq!(a, expect);
    assert_eq!(fs.getattr(4), fs.getattr(4));
    assert_eq!(fs.getattr(0), Err(FsError::NotFound));
    assert_eq!(fs.getattr(6), Err(FsError::NotFound));
    assert_eq!(fs.getattr(2).unwrap().kind, FileType::Directory);
}

#[test]
fn open_and_opendir_kinds() {
    let fs = sample();
    assert_eq!(fs.open(2), Err(FsError::IsADirectory));
    assert_eq!(fs.open(5), Ok(0));
    assert_eq!(fs.open(7), Err(FsError::NotFound));
    assert_eq!(fs.opendir(5), Err(FsError::NotADirectory));
    assert_eq!(fs.opendir(2), Ok(2));
    assert_eq!(fs.opendir(7), Err(FsError::NotFound));
}

#[test]
fn other_kinds() {
    let fs = SquashfsFilesystem::new(vec![
        info("/", NodeKind::Dir, 0),
        info("/link", NodeKind::Symlink, 0),
        info("/pipe", NodeKind::NamedPipe, 0),
    ]);
    assert_eq!(fs.open(2), Err(FsError::NotFound));
    assert_eq!(fs.opendir(3), Err(FsError::NotADirectory));
    let kinds: Vec<FileType> = fs.readdir(1, 2).unwrap().iter().map(|e| e.kind).collect();
    assert_eq!(kinds, vec![FileType::Symlink, FileType::NamedPipe]);
}

#[test]
fn kind_mapping_is_total() {
    assert_eq!(inner_to_fs_type(NodeKind::File), FileType::RegularFile);
    assert_eq!(inner_to_fs_type(NodeKind::Symlink), FileType::Symlink);
    assert_eq!(inner_to_fs_type(NodeKind::Dir), FileType::Directory);
    assert_eq!(inner_to_fs_type(NodeKind::CharDevice), FileType::CharDevice);
    assert_eq!(inner_to_fs_type(NodeKind::BlockDevice), FileType::BlockDevice);
    assert_eq!(inner_to_fs_type(NodeKind::NamedPipe), FileType::NamedPipe);
    assert_eq!(inner_to_fs_type(NodeKind::Socket), FileType::Socket);
}

#[test]
fn path_splitting() {
    assert_eq!(split_path(&b"/".to_vec()), (b"/".to_vec(), b"".to_vec()));
    assert_eq!(split_path(&b"/a".to_vec()), (b"/".to_vec(), b"a".to_vec()));
    assert_eq!(split_path(&b"/a/bc".to_vec()), (b"/a".to_vec(), b"bc".to_vec()));
    assert_eq!(split_path(&b"name".to_vec()), (b"/".to_vec(), b"name".to_vec()));
    assert!(bytes_eq(&b"ab".to_vec(), &b"ab".to_vec()));
    assert!(!bytes_eq(&b"ab".to_vec(), &b"abc".to_vec()));
    assert!(!bytes_eq(&b"ab".to_vec(), &b"aB".to_vec()));
}

#[test]
fn empty_directory_lists_dot_entries() {
    let fs = SquashfsFilesystem::new(vec![info("/", NodeKind::Dir, 0), info("/e", NodeKind::Dir, 0)]);
    let v = fs.readdir(2, 0).unwrap();
    assert_eq!(names(&v), vec![b".".to_vec(), b"..".to_vec()]);
    assert_eq!(fs.node_count(), 2);
}
