use tokio_fs_ext::resolve::decide_create;
use tokio_fs_ext::error::ErrorKind;
use tokio_fs_ext::lock::{LockMode, LockTable};
use tokio_fs_ext::options::{CreateFileMode, SyncAccessMode};
use tokio_fs_ext::path::{virtualize, VirtualPath};

fn vp(s: &str) -> VirtualPath {
    virtualize(&VirtualPath::root(), s)
}

const RO: LockMode = LockMode::Shared(SyncAccessMode::Readonly);
const RW: LockMode = LockMode::Shared(SyncAccessMode::Readwrite);

#[test]
fn test_try_lock_same_path_twice() {
    let mut table: LockTable<u32> = LockTable::new();
    let path = vp("/test/file.txt");

    let guard1 = table.try_lock_path(&path);
    assert!(guard1.is_some());

    // Second lock should fail
    let guard2 = table.try_lock_path(&path);
    assert!(guard2.is_none());

    // After releasing, lock should succeed
    table.unlock_path(guard1.unwrap());
    let guard3 = table.try_lock_path(&path);
    assert!(guard3.is_some());
}

#[test]
fn test_different_paths_can_lock() {
    let mut table: LockTable<u32> = LockTable::new();
    let path1 = vp("/test/file1.txt");
    let path2 = vp("/test/file2.txt");

    let guard1 = table.try_lock_path(&path1);
    let guard2 = table.try_lock_path(&path2);

    assert!(guard1.is_some());
    assert!(guard2.is_some());
}

#[test]
fn is_path_locked_follows_holders() {
    let mut table: LockTable<u32> = LockTable::new();
    let p = vp("/a");
    assert!(!table.is_path_locked(&p));
    let g = table.try_lock_path(&p).unwrap();
    assert!(table.is_path_locked(&p));
    assert_eq!(table.unlock_path(g), None);
    assert!(!table.is_path_locked(&p));
}

#[test]
fn readers_share_the_published_handle() {
    let mut table: LockTable<u32> = LockTable::new();
    let p = vp("/r");
    let a = table.arrive(&p, RO).unwrap();
    let b = table.arrive(&p, RO).unwrap();
    let ga = table.poll_acquire(&p, a).unwrap();
    // the creator has not published yet: the second reader waits
    assert!(table.poll_acquire(&p, b).is_none());
    assert_eq!(table.head_ready(&p), None);
    assert_eq!(table.publish(&p, 7, SyncAccessMode::Readonly), None);
    assert_eq!(table.head_ready(&p), Some(b));
    let gb = table.poll_acquire(&p, b).unwrap();
    assert_eq!(table.cached_handle(&p), Some(&7));
    // the handle is closed when the last holder leaves, not before
    assert_eq!(table.unlock_path(ga), None);
    assert_eq!(table.unlock_path(gb), Some(7));
    assert_eq!(table.cached_handle(&p), None);
    assert!(!table.is_path_locked(&p));
}

#[test]
fn waiting_writer_is_not_overtaken() {
    // a reader holds /q; a second reader arrives, then a writer
    let mut table: LockTable<u32> = LockTable::new();
    let q = vp("/q");
    let r1 = table.arrive(&q, RO).unwrap();
    let g1 = table.poll_acquire(&q, r1).unwrap();
    assert_eq!(table.publish(&q, 1, SyncAccessMode::Readonly), None);
    let r2 = table.arrive(&q, RO).unwrap();
    let w = table.arrive(&q, RW).unwrap();
    // the writer cannot go ahead of the reader that arrived first
    assert!(table.poll_acquire(&q, w).is_none());
    let g2 = table.poll_acquire(&q, r2).unwrap();
    // a read-only handle does not serve the writer
    assert!(table.poll_acquire(&q, w).is_none());
    assert_eq!(table.unlock_path(g1), None);
    assert!(table.poll_acquire(&q, w).is_none());
    assert_eq!(table.unlock_path(g2), Some(1));
    assert_eq!(table.head_ready(&q), Some(w));
    let gw = table.poll_acquire(&q, w).unwrap();
    assert_eq!(gw.mode(), RW);
}

#[test]
fn later_reader_queues_behind_waiting_writer() {
    let mut table: LockTable<u32> = LockTable::new();
    let p = vp("/f");
    let r1 = table.arrive(&p, RO).unwrap();
    let _g1 = table.poll_acquire(&p, r1).unwrap();
    assert_eq!(table.publish(&p, 3, SyncAccessMode::Readonly), None);
    let w = table.arrive(&p, LockMode::Exclusive).unwrap();
    let r2 = table.arrive(&p, RO).unwrap();
    // r2 could share the handle, but the exclusive waiter is at the head
    assert!(table.poll_acquire(&p, r2).is_none());
    assert!(table.poll_acquire(&p, w).is_none());
}

#[test]
fn exclusive_waits_for_shared_holders() {
    let mut table: LockTable<u32> = LockTable::new();
    let p = vp("/x");
    let r = table.arrive(&p, RW).unwrap();
    let g = table.poll_acquire(&p, r).unwrap();
    let fut = table.lock_path(&p).unwrap();
    assert!(fut.poll(&mut table).is_none());
    assert_eq!(table.unlock_path(g), None);
    let ge = fut.poll(&mut table).unwrap();
    assert_eq!(ge.mode(), LockMode::Exclusive);
    assert!(table.try_lock_path(&p).is_none());
}

#[test]
fn publish_after_creator_left_hands_the_handle_back() {
    let mut table: LockTable<u32> = LockTable::new();
    let p = vp("/o");
    let a = table.arrive(&p, RW).unwrap();
    let g = table.poll_acquire(&p, a).unwrap();
    assert_eq!(table.unlock_path(g), None);
    assert_eq!(table.publish(&p, 9, SyncAccessMode::Readwrite), Some(9));
}

#[test]
fn publish_in_a_mode_that_does_not_serve_the_writer_is_refused() {
    let mut table: LockTable<u32> = LockTable::new();
    let p = vp("/m");
    let a = table.arrive(&p, RW).unwrap();
    let _g = table.poll_acquire(&p, a).unwrap();
    assert_eq!(table.publish(&p, 4, SyncAccessMode::Readonly), Some(4));
    assert_eq!(table.publish(&p, 5, SyncAccessMode::Readwrite), None);
    assert_eq!(table.publish(&p, 6, SyncAccessMode::Readwrite), Some(6));
}

#[test]
fn cancelled_waiter_leaves_the_queue() {
    let mut table: LockTable<u32> = LockTable::new();
    let p = vp("/c");
    let a = table.arrive(&p, LockMode::Exclusive).unwrap();
    let b = table.arrive(&p, LockMode::Exclusive).unwrap();
    table.cancel(&p, a);
    assert_eq!(table.head_ready(&p), Some(b));
    table.cancel(&p, b);
    // nobody holds or waits: the path is free for an immediate lock
    assert!(table.try_lock_path(&p).is_some());
}

#[test]
fn seats_are_given_in_arrival_order() {
    let mut table: LockTable<u32> = LockTable::new();
    let p = vp("/fifo");
    let ids: Vec<u64> = (0..3).map(|_| table.arrive(&p, LockMode::Exclusive).unwrap()).collect();
    assert!(ids[0] < ids[1] && ids[1] < ids[2]);
    assert!(table.poll_acquire(&p, ids[2]).is_none());
    assert!(table.poll_acquire(&p, ids[1]).is_none());
    let g0 = table.poll_acquire(&p, ids[0]).unwrap();
    table.unlock_path(g0);
    assert!(table.poll_acquire(&p, ids[2]).is_none());
    let g1 = table.poll_acquire(&p, ids[1]).unwrap();
    table.unlock_path(g1);
    assert!(table.poll_acquire(&p, ids[2]).is_some());
}

#[test]
fn create_new_race_has_one_winner() {
    // two create_new opens of /x: the existence probe runs under the lock
    let mut table: LockTable<u32> = LockTable::new();
    let x = vp("/x");
    let a = table.arrive(&x, RW).unwrap();
    let b = table.arrive(&x, RW).unwrap();
    let _ga = table.poll_acquire(&x, a).unwrap();
    assert!(table.poll_acquire(&x, b).is_none());
    assert_eq!(decide_create(CreateFileMode::CreateNew, false), Ok(true));
    assert_eq!(table.publish(&x, 1, SyncAccessMode::Readwrite), None);
    let _gb = table.poll_acquire(&x, b).unwrap();
    assert_eq!(
        decide_create(CreateFileMode::CreateNew, true),
        Err(ErrorKind::AlreadyExists)
    );
}
