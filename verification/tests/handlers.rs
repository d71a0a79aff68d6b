use redisfs::adapter::{
    getattr, lookup, open, read, readdir, statfs, AttrReply, DirEntry, EntryReply, OpenReply,
};
use redisfs::attr::{
    default_time, entry_attributes, root_attributes, ttl, FileAttr, FileKind, Statfs, Timespec,
    BLOCK_SIZE, FIRST_INO, NAME_MAX, ROOT_INO,
};
use redisfs::error::FsError;
use redisfs::snapshot::{Entry, Snapshot, MAX_ENTRIES};

fn snapshot_with(entries: &[(&str, &[u8])]) -> Snapshot {
    let mut snapshot = Snapshot::new();
    for (key, value) in entries {
        let ino = snapshot.insert(key.to_string(), value.to_vec());
        assert!(ino.is_some());
    }
    snapshot
}

fn names(lines: &[DirEntry]) -> Vec<String> {
    lines.iter().map(|line| line.name.clone()).collect()
}

const ZERO: Timespec = Timespec { sec: 0, nsec: 0 };

fn file_attr(ino: u64, size: u64) -> FileAttr {
    FileAttr {
        ino,
        size,
        blocks: 1,
        atime: ZERO,
        mtime: ZERO,
        ctime: ZERO,
        crtime: ZERO,
        kind: FileKind::RegularFile,
        perm: 0o644,
        nlink: 1,
        uid: 501,
        gid: 20,
        rdev: 0,
        flags: 0,
    }
}

fn dir_attr() -> FileAttr {
    FileAttr {
        ino: 1,
        size: 0,
        blocks: 0,
        atime: ZERO,
        mtime: ZERO,
        ctime: ZERO,
        crtime: ZERO,
        kind: FileKind::Directory,
        perm: 0o755,
        nlink: 2,
        uid: 0,
        gid: 0,
        rdev: 0,
        flags: 0,
    }
}

#[test]
fn constants_have_their_values() {
    assert_eq!(BLOCK_SIZE, 4096);
    assert_eq!(NAME_MAX, 256);
    assert_eq!(ROOT_INO, 1);
    assert_eq!(FIRST_INO, 2);
    assert_eq!(MAX_ENTRIES, u64::MAX - 2);
    assert_eq!(ttl(), Timespec { sec: 1, nsec: 0 });
    assert_eq!(default_time(), Timespec { sec: 0, nsec: 0 });
}

#[test]
fn root_attributes_are_fixed() {
    assert_eq!(root_attributes(), dir_attr());
}

#[test]
fn entry_attributes_report_identifier_and_size() {
    let alpha = Entry { key: "alpha".to_string(), value: b"hello-world!!!".to_vec() };
    let empty = Entry { key: "empty".to_string(), value: vec![] };
    assert_eq!(entry_attributes(2, &alpha), file_attr(2, 14));
    assert_eq!(entry_attributes(7, &empty), file_attr(7, 0));
    assert_eq!(entry_attributes(u64::MAX, &alpha), file_attr(u64::MAX, 14));
    assert_ne!(entry_attributes(2, &alpha).size, 13);
}

#[test]
fn statfs_is_all_zero_but_block_size_and_name_length() {
    assert_eq!(
        statfs(),
        Statfs {
            blocks: 0,
            bfree: 0,
            bavail: 0,
            files: 0,
            ffree: 0,
            bsize: 4096,
            namelen: 256,
            frsize: 0,
        }
    );
}

#[test]
fn open_always_grants_handle_zero() {
    assert_eq!(open(1, 0), OpenReply { fh: 0, flags: 0 });
    assert_eq!(open(2, 0o2), OpenReply { fh: 0, flags: 0 });
    assert_eq!(open(999, u32::MAX), OpenReply { fh: 0, flags: 0 });
}

#[test]
fn snapshot_numbers_entries_from_two() {
    let mut snapshot = Snapshot::new();
    assert!(snapshot.is_empty());
    assert_eq!(snapshot.len(), 0);
    assert_eq!(snapshot.insert("a".to_string(), vec![1]), Some(2));
    assert_eq!(snapshot.insert("b".to_string(), vec![2, 3]), Some(3));
    assert_eq!(snapshot.insert("c".to_string(), vec![]), Some(4));
    assert!(!snapshot.is_empty());
    assert_eq!(snapshot.len(), 3);
    assert_eq!(snapshot.get(0), None);
    assert_eq!(snapshot.get(1), None);
    assert_eq!(snapshot.get(2), Some(&Entry { key: "a".to_string(), value: vec![1] }));
    assert_eq!(snapshot.get(3), Some(&Entry { key: "b".to_string(), value: vec![2, 3] }));
    assert_eq!(snapshot.get(4), Some(&Entry { key: "c".to_string(), value: vec![] }));
    assert_eq!(snapshot.get(5), None);
    assert_eq!(snapshot.get(u64::MAX), None);
    assert_eq!(snapshot.entry_at(1), &Entry { key: "b".to_string(), value: vec![2, 3] });
}

#[test]
fn find_gives_first_identifier_with_key() {
    let snapshot = snapshot_with(&[("a", b"1"), ("b", b"2"), ("a", b"3")]);
    assert_eq!(snapshot.find("a"), Some(2));
    assert_eq!(snapshot.find("b"), Some(3));
    assert_eq!(snapshot.find("c"), None);
    assert_eq!(snapshot.find(""), None);
    assert_eq!(Snapshot::new().find("a"), None);
}

#[test]
fn example_alpha() {
    let snapshot = snapshot_with(&[("alpha", b"hello-world!!!")]);

    let lines = readdir(&snapshot, 1, 0).unwrap();
    assert_eq!(names(&lines), vec![".".to_string(), "..".to_string(), "alpha".to_string()]);

    let entry = lookup(&snapshot, 1, "alpha").unwrap();
    assert_eq!(entry.attr.kind, FileKind::RegularFile);
    assert_eq!(entry.attr.ino, 2);

    assert_eq!(read(&snapshot, entry.attr.ino, 0, 4096), Ok(b"hello-world!!!".to_vec()));
    assert_eq!(read(&snapshot, entry.attr.ino, 20, 4096), Ok(vec![]));
    assert_eq!(lookup(&snapshot, 1, "missing"), Err(FsError::NotFound));
}

#[test]
fn lookup_gives_attributes_and_validity() {
    let snapshot = snapshot_with(&[("alpha", b"hello-world!!!"), ("beta", b"")]);
    assert_eq!(
        lookup(&snapshot, 1, "alpha"),
        Ok(EntryReply { ttl: Timespec { sec: 1, nsec: 0 }, attr: file_attr(2, 14), generation: 0 })
    );
    assert_eq!(
        lookup(&snapshot, 1, "beta"),
        Ok(EntryReply { ttl: Timespec { sec: 1, nsec: 0 }, attr: file_attr(3, 0), generation: 0 })
    );
}

#[test]
fn lookup_of_absent_name_is_not_found() {
    let snapshot = snapshot_with(&[("alpha", b"x")]);
    assert_eq!(lookup(&snapshot, 1, "alph"), Err(FsError::NotFound));
    assert_eq!(lookup(&snapshot, 1, "alphaa"), Err(FsError::NotFound));
    assert_eq!(lookup(&snapshot, 1, "Alpha"), Err(FsError::NotFound));
    assert_eq!(lookup(&snapshot, 1, ""), Err(FsError::NotFound));
    assert_eq!(lookup(&snapshot, 1, "."), Err(FsError::NotFound));
    assert_eq!(lookup(&Snapshot::new(), 1, "alpha"), Err(FsError::NotFound));
}

#[test]
fn lookup_outside_root_is_not_found() {
    let snapshot = snapshot_with(&[("alpha", b"x")]);
    assert_eq!(lookup(&snapshot, 0, "alpha"), Err(FsError::NotFound));
    assert_eq!(lookup(&snapshot, 2, "alpha"), Err(FsError::NotFound));
    assert_eq!(lookup(&snapshot, u64::MAX, "alpha"), Err(FsError::NotFound));
}

#[test]
fn lookup_then_read_returns_value() {
    let snapshot =
        snapshot_with(&[("one", b"first value"), ("two", b"second"), ("three", &[0, 255, 7])]);
    for (key, value) in [("one", &b"first value"[..]), ("two", &b"second"[..]), ("three", &[0, 255, 7][..])] {
        let entry = lookup(&snapshot, 1, key).unwrap();
        assert_eq!(entry.attr.size, value.len() as u64);
        assert_eq!(read(&snapshot, entry.attr.ino, 0, u32::MAX), Ok(value.to_vec()));
        assert_eq!(read(&snapshot, entry.attr.ino, 1, 2), Ok(value[1..3].to_vec()));
    }
}

#[test]
fn getattr_of_root_ignores_snapshot() {
    let expected = Ok(AttrReply { ttl: Timespec { sec: 1, nsec: 0 }, attr: dir_attr() });
    assert_eq!(getattr(&Snapshot::new(), 1), expected);
    assert_eq!(getattr(&snapshot_with(&[("alpha", b"x")]), 1), expected);
    assert_eq!(getattr(&snapshot_with(&[("a", b"x"), ("b", b"yy")]), 1), expected);
}

#[test]
fn getattr_of_entry_reports_true_size() {
    let snapshot = snapshot_with(&[("alpha", b"hello-world!!!"), ("beta", b"")]);
    assert_eq!(
        getattr(&snapshot, 2),
        Ok(AttrReply { ttl: Timespec { sec: 1, nsec: 0 }, attr: file_attr(2, 14) })
    );
    assert_eq!(
        getattr(&snapshot, 3),
        Ok(AttrReply { ttl: Timespec { sec: 1, nsec: 0 }, attr: file_attr(3, 0) })
    );
}

#[test]
fn getattr_of_unknown_identifier_is_not_found() {
    let snapshot = snapshot_with(&[("alpha", b"x")]);
    assert_eq!(getattr(&snapshot, 0), Err(FsError::NotFound));
    assert_eq!(getattr(&snapshot, 3), Err(FsError::NotFound));
    assert_eq!(getattr(&snapshot, u64::MAX), Err(FsError::NotFound));
    assert_eq!(getattr(&Snapshot::new(), 2), Err(FsError::NotFound));
}

#[test]
fn read_windows() {
    let snapshot = snapshot_with(&[("alpha", b"hello-world!!!")]);
    assert_eq!(read(&snapshot, 2, 0, 5), Ok(b"hello".to_vec()));
    assert_eq!(read(&snapshot, 2, 6, 5), Ok(b"world".to_vec()));
    assert_eq!(read(&snapshot, 2, 6, 8), Ok(b"world!!!".to_vec()));
    assert_eq!(read(&snapshot, 2, 6, 9), Ok(b"world!!!".to_vec()));
    assert_eq!(read(&snapshot, 2, 13, 1), Ok(b"!".to_vec()));
    assert_eq!(read(&snapshot, 2, 0, 0), Ok(vec![]));
    assert_eq!(read(&snapshot, 2, 0, 14), Ok(b"hello-world!!!".to_vec()));
    assert_eq!(read(&snapshot, 2, 0, u32::MAX), Ok(b"hello-world!!!".to_vec()));
}

#[test]
fn read_past_end_is_empty() {
    let snapshot = snapshot_with(&[("alpha", b"hello-world!!!"), ("empty", b"")]);
    assert_eq!(read(&snapshot, 2, 14, 10), Ok(vec![]));
    assert_eq!(read(&snapshot, 2, 15, 10), Ok(vec![]));
    assert_eq!(read(&snapshot, 2, 20, 4096), Ok(vec![]));
    assert_eq!(read(&snapshot, 2, u64::MAX, u32::MAX), Ok(vec![]));
    assert_eq!(read(&snapshot, 3, 0, 10), Ok(vec![]));
    assert_eq!(read(&snapshot, 3, 1, 10), Ok(vec![]));
}

#[test]
fn read_of_unknown_identifier_is_not_found() {
    let snapshot = snapshot_with(&[("alpha", b"x")]);
    assert_eq!(read(&snapshot, 0, 0, 10), Err(FsError::NotFound));
    assert_eq!(read(&snapshot, 1, 0, 10), Err(FsError::NotFound));
    assert_eq!(read(&snapshot, 3, 0, 10), Err(FsError::NotFound));
    assert_eq!(read(&Snapshot::new(), 2, 0, 10), Err(FsError::NotFound));
}

#[test]
fn write_is_refused() {
    let snapshot = snapshot_with(&[("alpha", b"hello")]);
    assert_eq!(redisfs::adapter::write(&snapshot, 2, 0, b"HELLO"), Err(FsError::Unsupported));
    assert_eq!(redisfs::adapter::write(&snapshot, 2, 3, b""), Err(FsError::Unsupported));
    assert_eq!(redisfs::adapter::write(&snapshot, 1, 0, b"x"), Err(FsError::NotFound));
    assert_eq!(redisfs::adapter::write(&snapshot, 3, 0, b"x"), Err(FsError::NotFound));
    assert_eq!(redisfs::adapter::write(&Snapshot::new(), 2, 0, b"x"), Err(FsError::NotFound));
    assert_eq!(read(&snapshot, 2, 0, 100), Ok(b"hello".to_vec()));
}

#[test]
fn readdir_lists_root() {
    let snapshot = snapshot_with(&[("alpha", b"a"), ("beta", b"b")]);
    assert_eq!(
        readdir(&snapshot, 1, 0),
        Ok(vec![
            DirEntry { ino: 1, offset: 0, kind: FileKind::Directory, name: ".".to_string() },
            DirEntry { ino: 1, offset: 1, kind: FileKind::Directory, name: "..".to_string() },
            DirEntry { ino: 2, offset: 2, kind: FileKind::RegularFile, name: "alpha".to_string() },
            DirEntry { ino: 3, offset: 2, kind: FileKind::RegularFile, name: "beta".to_string() },
        ])
    );
}

#[test]
fn readdir_of_empty_store_lists_dot_entries() {
    assert_eq!(
        readdir(&Snapshot::new(), 1, 0),
        Ok(vec![
            DirEntry { ino: 1, offset: 0, kind: FileKind::Directory, name: ".".to_string() },
            DirEntry { ino: 1, offset: 1, kind: FileKind::Directory, name: "..".to_string() },
        ])
    );
    assert_eq!(readdir(&Snapshot::new(), 1, 1), Ok(vec![]));
    assert_eq!(readdir(&Snapshot::new(), 1, 2), Ok(vec![]));
}

#[test]
fn readdir_past_start_is_empty() {
    let snapshot = snapshot_with(&[("alpha", b"a"), ("beta", b"b"), ("gamma", b"c")]);
    let whole = readdir(&snapshot, 1, 0).unwrap();
    assert_eq!(whole.len(), 5);
    for offset in [1u64, 2, 3, 4, 5, 6, u64::MAX] {
        assert_eq!(readdir(&snapshot, 1, offset), Ok(vec![]));
    }
    let offsets: Vec<u64> = whole.iter().map(|line| line.offset).collect();
    assert_eq!(offsets, vec![0, 1, 2, 2, 2]);
}

#[test]
fn readdir_lists_each_key_once() {
    let keys = ["k0", "k1", "k2", "k3", "k4", "k5", "k6", "k7"];
    let entries: Vec<(&str, &[u8])> = keys.iter().map(|key| (*key, &b"v"[..])).collect();
    let snapshot = snapshot_with(&entries);
    let lines = readdir(&snapshot, 1, 0).unwrap();
    assert_eq!(lines.len(), keys.len() + 2);
    for key in keys {
        assert_eq!(lines.iter().filter(|line| line.name == key).count(), 1);
    }
    assert_eq!(lines.iter().filter(|line| line.name == ".").count(), 1);
    assert_eq!(lines.iter().filter(|line| line.name == "..").count(), 1);
    for line in &lines[2..] {
        assert_eq!(line.kind, FileKind::RegularFile);
        assert_eq!(snapshot.get(line.ino).unwrap().key, line.name);
    }
}

#[test]
fn readdir_outside_root_is_not_found() {
    let snapshot = snapshot_with(&[("alpha", b"a")]);
    assert_eq!(readdir(&snapshot, 0, 0), Err(FsError::NotFound));
    assert_eq!(readdir(&snapshot, 2, 0), Err(FsError::NotFound));
    assert_eq!(readdir(&snapshot, 2, 5), Err(FsError::NotFound));
    assert_eq!(readdir(&snapshot, u64::MAX, 0), Err(FsError::NotFound));
}
