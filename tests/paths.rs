use tokio_fs_ext::cwd::{current_dir, set_current_dir, CurrentDir};
use tokio_fs_ext::dir_cache::DirCache;
use tokio_fs_ext::error::ErrorKind;
use tokio_fs_ext::options::{CreateFileMode, OpenDirType};
use tokio_fs_ext::path::{virtualize, VirtualPath};
use tokio_fs_ext::resolve::{decide_create, locate, open_step, plan_open_dir, OpenStep};

fn vp(s: &str) -> VirtualPath {
    virtualize(&VirtualPath::root(), s)
}

fn names(p: &VirtualPath) -> Vec<String> {
    (0..p.depth()).map(|i| p.name(i).clone()).collect()
}

#[test]
fn virtualize_collapses_dots() {
    assert_eq!(vp("/a/./b/../c").to_string(), "/a/c");
    assert_eq!(vp("/a//b/").to_string(), "/a/b");
    assert_eq!(vp("/../..").to_string(), "/");
    assert_eq!(vp("/").to_string(), "/");
    assert_eq!(names(&vp("/x/y")), vec!["x".to_string(), "y".to_string()]);
}

#[test]
fn virtualize_relative_uses_cwd() {
    let cwd = vp("/a/b");
    assert_eq!(virtualize(&cwd, "c/d").to_string(), "/a/b/c/d");
    assert_eq!(virtualize(&cwd, "../e").to_string(), "/a/e");
    assert_eq!(virtualize(&cwd, "../../../f").to_string(), "/f");
    assert_eq!(virtualize(&cwd, "").to_string(), "/a/b");
    assert_eq!(virtualize(&cwd, "/z").to_string(), "/z");
}

#[test]
fn virtualize_is_idempotent() {
    let cwd = vp("/w");
    for s in ["x/../y/./z", "/a/b/..", "..", "", "/", "p//q/"] {
        let once = virtualize(&cwd, s);
        let twice = virtualize(&cwd, &once.to_string());
        assert!(once.same_as(&twice), "{}", s);
        assert_eq!(once.to_string(), twice.to_string());
    }
}

#[test]
fn prefix_and_parent() {
    let p = vp("/a/b/c");
    assert!(p.starts_with(&vp("/a/b")));
    assert!(p.starts_with(&vp("/")));
    assert!(!p.starts_with(&vp("/a/bc")));
    let (parent, name) = p.split_last().unwrap();
    assert_eq!(parent.to_string(), "/a/b");
    assert_eq!(name, "c");
    assert!(vp("/").split_last().is_none());
    assert_eq!(p.join_name("d").to_string(), "/a/b/c/d");
}

#[test]
fn cwd_relative_write_lands_under_cwd() {
    let mut cwd = CurrentDir::new();
    assert_eq!(current_dir(&cwd).to_string(), "/");
    set_current_dir(&mut cwd, "/a");
    assert_eq!(current_dir(&cwd).to_string(), "/a");
    let t = locate(cwd.path(), "b/data.txt").unwrap();
    assert!(t.path.same_as(&vp("/a/b/data.txt")));
    assert_eq!(t.parent.to_string(), "/a/b");
    assert_eq!(t.name, "data.txt");
    set_current_dir(&mut cwd, "b/..//c");
    assert_eq!(current_dir(&cwd).to_string(), "/a/c");
}

#[test]
fn locate_rejects_empty_and_root() {
    let root = VirtualPath::root();
    assert!(matches!(locate(&root, ""), Err(ErrorKind::InvalidInput)));
    assert!(matches!(locate(&root, "/"), Err(ErrorKind::InvalidFilename)));
    assert!(matches!(locate(&root, "/a/.."), Err(ErrorKind::InvalidFilename)));
}

#[test]
fn create_dir_all_creates_every_level() {
    let root = VirtualPath::root();
    let hops = plan_open_dir(&vp("/a/b/c"), OpenDirType::CreateRecursive, &root);
    let prefixes: Vec<String> = hops.iter().map(|h| h.prefix.to_string()).collect();
    assert_eq!(prefixes, vec!["/a", "/a/b", "/a/b/c"]);
    let hop_names: Vec<&str> = hops.iter().map(|h| h.name.as_str()).collect();
    assert_eq!(hop_names, vec!["a", "b", "c"]);
    assert!(hops.iter().all(|h| h.create));
}

#[test]
fn create_dir_creates_only_the_last_level() {
    let root = VirtualPath::root();
    let hops = plan_open_dir(&vp("/a/b"), OpenDirType::Create, &root);
    let bits: Vec<bool> = hops.iter().map(|h| h.create).collect();
    assert_eq!(bits, vec![false, true]);
}

#[test]
fn plain_open_creates_only_the_cwd() {
    let cwd = vp("/w/x");
    let hops = plan_open_dir(&vp("/w/x/y"), OpenDirType::NotCreate, &cwd);
    let bits: Vec<bool> = hops.iter().map(|h| h.create).collect();
    assert_eq!(bits, vec![true, true, false]);
    assert!(plan_open_dir(&VirtualPath::root(), OpenDirType::NotCreate, &cwd).is_empty());
}

#[test]
fn create_new_on_existing_fails() {
    assert_eq!(decide_create(CreateFileMode::CreateNew, true), Err(ErrorKind::AlreadyExists));
    assert_eq!(decide_create(CreateFileMode::CreateNew, false), Ok(true));
    assert_eq!(decide_create(CreateFileMode::Create, true), Ok(true));
    assert_eq!(decide_create(CreateFileMode::NotCreate, false), Ok(false));
}

#[test]
fn cache_eviction() {
    let mut cache: DirCache<u32> = DirCache::new();
    for (i, p) in ["/a", "/a/b", "/a/b/c", "/ab", "/z"].iter().enumerate() {
        cache.set_cached_dir_handle(vp(p), i as u32);
    }
    cache.set_cached_dir_handle(vp("/z"), 40);
    assert_eq!(cache.get_cached_dir_handle(&vp("/z")), Some(&40));
    cache.remove_cached_dir_handle(&vp("/a/b"), false);
    assert_eq!(cache.get_cached_dir_handle(&vp("/a/b")), None);
    assert_eq!(cache.get_cached_dir_handle(&vp("/a/b/c")), Some(&2));
    cache.remove_cached_dir_handle(&vp("/a"), true);
    assert_eq!(cache.get_cached_dir_handle(&vp("/a")), None);
    assert_eq!(cache.get_cached_dir_handle(&vp("/a/b/c")), None);
    assert_eq!(cache.get_cached_dir_handle(&vp("/ab")), Some(&3));
    assert_eq!(cache.get_cached_dir_handle(&vp("/z")), Some(&40));
}

#[test]
fn open_steps() {
    assert_eq!(open_step(CreateFileMode::CreateNew, true, None), Err(ErrorKind::AlreadyExists));
    assert_eq!(open_step(CreateFileMode::CreateNew, false, None), Ok(OpenStep::Probe));
    assert_eq!(open_step(CreateFileMode::CreateNew, false, Some(true)), Err(ErrorKind::AlreadyExists));
    assert_eq!(open_step(CreateFileMode::CreateNew, false, Some(false)), Ok(OpenStep::Lookup(true)));
    assert_eq!(open_step(CreateFileMode::Create, true, None), Ok(OpenStep::Share));
    assert_eq!(open_step(CreateFileMode::Create, false, None), Ok(OpenStep::Lookup(true)));
    assert_eq!(open_step(CreateFileMode::NotCreate, false, None), Ok(OpenStep::Lookup(false)));
    assert_eq!(open_step(CreateFileMode::NotCreate, true, None), Ok(OpenStep::Share));
}
