use tokio_fs_ext::dir_builder::DirBuilder;
use tokio_fs_ext::error::{str_eq, translate_exception, ErrorKind};
use tokio_fs_ext::metadata::FileType;
use tokio_fs_ext::offload::{settle, ServerAction, ServerEvent, ServerState};
use tokio_fs_ext::options::OpenDirType;
use tokio_fs_ext::path::{virtualize, VirtualPath};
use tokio_fs_ext::read_dir::ReadDir;
use tokio_fs_ext::watch::{
    translate_record, CreateKind, EventKind, FileSystemChangeRecordType, HandleKind, ModifyKind,
    RemoveKind,
};

#[test]
fn exception_names() {
    let cases = [
        ("NotFoundError", ErrorKind::NotFound),
        ("NotAllowedError", ErrorKind::PermissionDenied),
        ("SecurityError", ErrorKind::PermissionDenied),
        ("NoModificationAllowedError", ErrorKind::WouldBlock),
        ("TypeMismatchError", ErrorKind::InvalidData),
        ("QuotaExceededError", ErrorKind::StorageFull),
        ("InvalidStateError", ErrorKind::InvalidInput),
        ("AbortError", ErrorKind::Interrupted),
        ("SyntaxError", ErrorKind::Other),
        ("", ErrorKind::Other),
        ("NotFoundErro", ErrorKind::Other),
    ];
    for (name, kind) in cases {
        assert_eq!(translate_exception(name), kind, "{}", name);
    }
    assert!(str_eq("ab", "ab"));
    assert!(!str_eq("ab", "ac"));
    assert!(!str_eq("ab", "abc"));
}

#[test]
fn record_translation() {
    let base = virtualize(&VirtualPath::root(), "/w");
    let comps = vec!["d".to_string(), "f.txt".to_string()];
    let e = translate_record(FileSystemChangeRecordType::Appeared, HandleKind::File, &base, &comps);
    assert_eq!(e.kind, EventKind::Create(CreateKind::File));
    assert_eq!(e.paths.len(), 1);
    assert_eq!(e.paths[0].to_string(), "/w/d/f.txt");
    let kinds = [
        (FileSystemChangeRecordType::Appeared, HandleKind::Directory, EventKind::Create(CreateKind::Folder)),
        (FileSystemChangeRecordType::Disappeared, HandleKind::File, EventKind::Remove(RemoveKind::File)),
        (FileSystemChangeRecordType::Disappeared, HandleKind::Other, EventKind::Remove(RemoveKind::Any)),
        (FileSystemChangeRecordType::Modified, HandleKind::File, EventKind::Modify(ModifyKind::Data)),
        (FileSystemChangeRecordType::Modified, HandleKind::Directory, EventKind::Modify(ModifyKind::Metadata)),
        (FileSystemChangeRecordType::Moved, HandleKind::File, EventKind::Modify(ModifyKind::Name)),
        (FileSystemChangeRecordType::Errored, HandleKind::File, EventKind::Other),
        (FileSystemChangeRecordType::Unknown, HandleKind::Directory, EventKind::Other),
    ];
    for (t, k, want) in kinds {
        let e = translate_record(t, k, &base, &Vec::new());
        assert_eq!(e.kind, want);
        assert_eq!(e.paths[0].to_string(), "/w");
    }
}

#[test]
fn listing_in_order() {
    let dir = virtualize(&VirtualPath::root(), "/a");
    let mut rd = ReadDir::from_listing(
        &dir,
        vec![("b".to_string(), FileType::Directory), ("f".to_string(), FileType::File)],
    );
    let first = rd.next_entry().unwrap();
    assert_eq!(first.file_name(), "b");
    assert!(first.file_type().is_dir());
    assert_eq!(first.path().to_string(), "/a/b");
    let second = rd.next_entry().unwrap();
    assert_eq!(second.file_name(), "f");
    assert!(second.file_type().is_file());
    assert!(rd.next_entry().is_none());
}

#[test]
fn client_settles_replies() {
    assert_eq!(settle::<u32>(false, Some(Ok(1))), Err(ErrorKind::ConnectionAborted));
    assert_eq!(settle::<u32>(true, None), Err(ErrorKind::ConnectionAborted));
    assert_eq!(settle::<u32>(true, Some(Ok(5))), Ok(5));
    assert_eq!(settle::<u32>(true, Some(Err(ErrorKind::NotFound))), Err(ErrorKind::NotFound));
}

#[test]
fn server_drains_before_stopping() {
    let mut s = ServerState::new();
    assert!(s.waits_on_inbox() && !s.waits_on_tasks());
    assert_eq!(s.step(ServerEvent::Request), ServerAction::Spawn);
    assert_eq!(s.step(ServerEvent::Request), ServerAction::Spawn);
    assert_eq!(s.step(ServerEvent::TaskDone), ServerAction::Serve);
    assert_eq!(s.step(ServerEvent::InboxClosed), ServerAction::Serve);
    assert!(!s.waits_on_inbox() && s.waits_on_tasks());
    assert_eq!(s.step(ServerEvent::TaskDone), ServerAction::Stop);
}

#[test]
fn dir_builder_modes() {
    let mut b = DirBuilder::new();
    assert_eq!(b.open_type(), OpenDirType::Create);
    assert_eq!(b.recursive(true).open_type(), OpenDirType::CreateRecursive);
    assert!(b.recursive);
}
