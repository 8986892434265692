use tokio_fs_ext::copy::{copy_chunks, copy_is_noop, COPY_CHUNK, COPY_THRESHOLD};
use tokio_fs_ext::error::ErrorKind;
use tokio_fs_ext::file::{checked_offset, chunk_len, File, SeekFrom, CHUNK_LEN, MAX_FILE_LEN};
use tokio_fs_ext::lock::LockTable;
use tokio_fs_ext::metadata::{exists_from_probes, metadata_from_probes, FileType, Metadata};
use tokio_fs_ext::open_options::{OpenOptions, OpenPlan};
use tokio_fs_ext::options::{CreateFileMode, SyncAccessMode};
use tokio_fs_ext::path::{virtualize, VirtualPath};

fn open_file(access: SyncAccessMode) -> File<u32> {
    let mut table: LockTable<u32> = LockTable::new();
    let p = virtualize(&VirtualPath::root(), "/f");
    let g = table.try_lock_path(&p).unwrap();
    File::new(0, g, access)
}

#[test]
fn open_without_access_flag_is_invalid() {
    let mut o = OpenOptions::new();
    o.read(false);
    assert_eq!(o.plan(), Err(ErrorKind::InvalidInput));
    o.create(true).truncate(true);
    assert_eq!(o.plan(), Err(ErrorKind::InvalidInput));
}

#[test]
fn create_without_write_is_invalid() {
    let mut o = OpenOptions::new();
    o.create(true);
    assert_eq!(o.plan(), Err(ErrorKind::InvalidInput));
    let mut t = OpenOptions::new();
    t.truncate(true);
    assert_eq!(t.plan(), Err(ErrorKind::InvalidInput));
}

#[test]
fn open_plans() {
    assert_eq!(
        OpenOptions::new().plan(),
        Ok(OpenPlan {
            create: CreateFileMode::NotCreate,
            access: SyncAccessMode::Readonly,
            truncate: false,
            append: false
        })
    );
    assert_eq!(
        OpenOptions::new().write(true).create(true).create_new(true).plan(),
        Ok(OpenPlan {
            create: CreateFileMode::CreateNew,
            access: SyncAccessMode::Readwrite,
            truncate: false,
            append: false
        })
    );
    assert_eq!(
        OpenOptions::new().write(true).create(true).truncate(true).plan(),
        Ok(OpenPlan {
            create: CreateFileMode::Create,
            access: SyncAccessMode::Readwrite,
            truncate: true,
            append: false
        })
    );
    assert_eq!(
        OpenOptions::new().read(true).append(true).plan(),
        Ok(OpenPlan {
            create: CreateFileMode::NotCreate,
            access: SyncAccessMode::Readwrite,
            truncate: false,
            append: true
        })
    );
}

#[test]
fn set_len_ceiling() {
    let f = open_file(SyncAccessMode::Readwrite);
    assert_eq!(MAX_FILE_LEN, 1u64 << 53);
    assert_eq!(f.check_set_len(1u64 << 53), Ok(()));
    assert_eq!(f.check_set_len((1u64 << 53) + 1), Err(ErrorKind::InvalidInput));
    let r = open_file(SyncAccessMode::Readonly);
    assert_eq!(r.check_set_len(0), Err(ErrorKind::PermissionDenied));
}

#[test]
fn read_only_file_refuses_writes() {
    let r = open_file(SyncAccessMode::Readonly);
    assert_eq!(r.check_write(), Err(ErrorKind::PermissionDenied));
    let w = open_file(SyncAccessMode::Readwrite);
    assert_eq!(w.check_write(), Ok(()));
}

#[test]
fn seek_positions() {
    let mut f = open_file(SyncAccessMode::Readwrite);
    assert_eq!(f.position(), None);
    // without a cursor the handle's own position moves
    assert_eq!(f.advance(3), Ok(None));
    assert_eq!(f.position(), None);
    // seek to 7 of "Hello, world!" (13 bytes), write "Rust" (4 bytes)
    assert_eq!(f.seek(SeekFrom::Start(7), 13), Ok(7));
    assert_eq!(f.advance(4), Ok(Some(11)));
    assert_eq!(f.seek(SeekFrom::Current(-4), 13), Ok(7));
    assert_eq!(f.seek(SeekFrom::End(0), 13), Ok(13));
    // past the end is allowed
    assert_eq!(f.seek(SeekFrom::End(5), 13), Ok(18));
    assert_eq!(f.seek(SeekFrom::Start(0), 13), Ok(0));
    assert_eq!(f.position(), Some(0));
}

#[test]
fn seek_overflow_is_invalid() {
    let mut f = open_file(SyncAccessMode::Readonly);
    assert_eq!(f.seek(SeekFrom::Current(-1), 10), Err(ErrorKind::InvalidInput));
    assert_eq!(f.position(), None);
    assert_eq!(f.seek(SeekFrom::End(-11), 10), Err(ErrorKind::InvalidInput));
    assert_eq!(f.seek(SeekFrom::Start(u64::MAX), 10), Ok(u64::MAX));
    assert_eq!(f.seek(SeekFrom::Current(1), 10), Err(ErrorKind::InvalidInput));
    assert_eq!(f.position(), Some(u64::MAX));
    assert_eq!(f.advance(1), Err(ErrorKind::InvalidInput));
    assert_eq!(checked_offset(5, i64::MIN), None);
    assert_eq!(checked_offset(u64::MAX, -1), Some(u64::MAX - 1));
}

#[test]
fn append_open_seeks_to_end() {
    // "append" (6 bytes), opened for append: the cursor starts at the end
    let mut f = open_file(SyncAccessMode::Readwrite);
    assert_eq!(f.seek(SeekFrom::End(0), 6), Ok(6));
    assert_eq!(f.advance(6), Ok(Some(12)));
    assert_eq!(f.seek(SeekFrom::Start(0), 12), Ok(0));
}

#[test]
fn chunking() {
    assert_eq!(chunk_len(10), 10);
    assert_eq!(chunk_len(CHUNK_LEN), CHUNK_LEN);
    assert_eq!(chunk_len(CHUNK_LEN + 1), 1048576);
}

#[test]
fn copy_pieces() {
    assert_eq!(copy_chunks(0), vec![(0, 0)]);
    assert_eq!(copy_chunks(11), vec![(0, 11)]);
    assert_eq!(copy_chunks(COPY_THRESHOLD), vec![(0, 10485760)]);
    let big = copy_chunks(COPY_THRESHOLD + 1);
    assert_eq!(big.len(), 6);
    assert_eq!(big[0], (0, COPY_CHUNK));
    assert_eq!(big[5], (10485760, 1));
    let total: u64 = big.iter().map(|c| c.1).sum();
    assert_eq!(total, COPY_THRESHOLD + 1);
}

#[test]
fn copy_to_itself_is_noop() {
    let cwd = virtualize(&VirtualPath::root(), "/d");
    assert!(copy_is_noop(&cwd, "f", "/d/f"));
    assert!(copy_is_noop(&cwd, "./x/../f", "f"));
    assert!(!copy_is_noop(&cwd, "f", "g"));
}

#[test]
fn metadata_probes() {
    assert_eq!(
        metadata_from_probes(Ok((11, None)), Err(ErrorKind::NotFound)),
        Ok(Metadata::file(11, None))
    );
    let m = metadata_from_probes(Ok((11, Some(1700000000000))), Ok(())).unwrap();
    assert!(m.is_file() && !m.is_dir() && !m.is_symlink());
    assert_eq!(m.len(), 11);
    assert_eq!(m.modified(), Some(1700000000000));
    let d = metadata_from_probes(Err(ErrorKind::NotFound), Ok(())).unwrap();
    assert!(d.is_dir());
    assert_eq!(d.len(), 0);
    assert_eq!(d.modified(), None);
    assert_eq!(
        metadata_from_probes(Err(ErrorKind::NotFound), Err(ErrorKind::NotFound)),
        Err(ErrorKind::NotFound)
    );
    assert!(!exists_from_probes(Err(ErrorKind::NotFound), Err(ErrorKind::PermissionDenied)));
    assert!(exists_from_probes(Err(ErrorKind::NotFound), Ok(())));
    assert!(FileType::Symlink.is_symlink());
}

#[test]
fn links_are_unsupported() {
    assert!(matches!(tokio_fs_ext::read_link("/a"), Err(ErrorKind::Unsupported)));
    assert_eq!(tokio_fs_ext::symlink("/a", "/b"), Err(ErrorKind::Unsupported));
    assert_eq!(tokio_fs_ext::symlink_metadata("/a"), Err(ErrorKind::Unsupported));
}

#[test]
fn canonicalize_is_the_virtual_path() {
    let mut cwd = tokio_fs_ext::CurrentDir::new();
    tokio_fs_ext::set_current_dir(&mut cwd, "/d/e");
    assert_eq!(tokio_fs_ext::canonicalize(&cwd, "../f/./g").to_string(), "/d/f/g");
    assert_eq!(tokio_fs_ext::canonicalize(&cwd, "/").to_string(), "/");
}

#[test]
fn copy_pieces_reassemble_the_source() {
    for len in [0u64, 5, COPY_THRESHOLD + 3 * COPY_CHUNK + 17] {
        let content: Vec<u8> = (0..len).map(|i| (i % 251) as u8).collect();
        let mut copied = Vec::new();
        for (offset, n) in copy_chunks(len) {
            copied.extend_from_slice(&content[offset as usize..(offset + n) as usize]);
        }
        assert_eq!(copied, content);
    }
}
