//! Translation of substrate change records into watch events.
//!
//! Each change record names its type, the kind of the handle that changed,
//! and the changed entry's path relative to the watched base. The event
//! carries a kind in the common create / remove / modify taxonomy and the
//! entry's virtual path.
use vstd::prelude::*;

use crate::path::VirtualPath;

verus! {

/// The type of a change record.
#[derive(Clone, Copy, Debug, PartialEq, Eq, Structural)]
pub enum FileSystemChangeRecordType {
    Appeared,
    Disappeared,
    Errored,
    Modified,
    Moved,
    Unknown,
}

/// The kind of the handle a change record is about.
#[derive(Clone, Copy, Debug, PartialEq, Eq, Structural)]
pub enum HandleKind {
    File,
    Directory,
    Other,
}

/// What was created.
#[derive(Clone, Copy, Debug, PartialEq, Eq, Structural)]
pub enum CreateKind {
    Any,
    File,
    Folder,
}

/// What was removed.
#[derive(Clone, Copy, Debug, PartialEq, Eq, Structural)]
pub enum RemoveKind {
    Any,
    File,
    Folder,
}

/// What changed in a modified entry.
#[derive(Clone, Copy, Debug, PartialEq, Eq, Structural)]
pub enum ModifyKind {
    /// Something, unspecified.
    Any,
    /// The contents of a file.
    Data,
    /// The metadata of a directory.
    Metadata,
    /// The name: the entry moved.
    Name,
}

/// The kind of a watch event.
#[derive(Clone, Copy, Debug, PartialEq, Eq, Structural)]
pub enum EventKind {
    Create(CreateKind),
    Remove(RemoveKind),
    Modify(ModifyKind),
    Other,
}

/// A watch event: its kind and the virtual paths it concerns.
pub struct WatchEvent {
    pub kind: EventKind,
    pub paths: Vec<VirtualPath>,
}

/// The event kind of a record of type `t` about a handle of kind `k`.
pub open spec fn event_kind_of(t: FileSystemChangeRecordType, k: HandleKind) -> EventKind {
    match t {
        FileSystemChangeRecordType::Appeared => EventKind::Create(
            match k {
                HandleKind::File => CreateKind::File,
                HandleKind::Directory => CreateKind::Folder,
                HandleKind::Other => CreateKind::Any,
            },
        ),
        FileSystemChangeRecordType::Disappeared => EventKind::Remove(
            match k {
                HandleKind::File => RemoveKind::File,
                HandleKind::Directory => RemoveKind::Folder,
                HandleKind::Other => RemoveKind::Any,
            },
        ),
        FileSystemChangeRecordType::Modified => EventKind::Modify(
            match k {
                HandleKind::File => ModifyKind::Data,
                HandleKind::Directory => ModifyKind::Metadata,
                HandleKind::Other => ModifyKind::Any,
            },
        ),
        FileSystemChangeRecordType::Moved => EventKind::Modify(ModifyKind::Name),
        FileSystemChangeRecordType::Errored => EventKind::Other,
        FileSystemChangeRecordType::Unknown => EventKind::Other,
    }
}

/// The event kind of a record of type `t` about a handle of kind `k`.
pub fn event_kind(t: FileSystemChangeRecordType, k: HandleKind) -> (r: EventKind)
    ensures
        r == event_kind_of(t, k),
{
    match t {
        FileSystemChangeRecordType::Appeared => EventKind::Create(
            match k {
                HandleKind::File => CreateKind::File,
                HandleKind::Directory => CreateKind::Folder,
                HandleKind::Other => CreateKind::Any,
            },
        ),
        FileSystemChangeRecordType::Disappeared => EventKind::Remove(
            match k {
                HandleKind::File => RemoveKind::File,
                HandleKind::Directory => RemoveKind::Folder,
                HandleKind::Other => RemoveKind::Any,
            },
        ),
        FileSystemChangeRecordType::Modified => EventKind::Modify(
            match k {
                HandleKind::File => ModifyKind::Data,
                HandleKind::Directory => ModifyKind::Metadata,
                HandleKind::Other => ModifyKind::Any,
            },
        ),
        FileSystemChangeRecordType::Moved => EventKind::Modify(ModifyKind::Name),
        FileSystemChangeRecordType::Errored => EventKind::Other,
        FileSystemChangeRecordType::Unknown => EventKind::Other,
    }
}

/// The virtual path of a changed entry: the watched base joined with the
/// record's relative components.
pub fn changed_path(base: &VirtualPath, components: &Vec<String>) -> (r: VirtualPath)
    ensures
        r@ == base@ + components@.map_values(|c: String| c@),
{
    let mut p = base.duplicate();
    let mut i: usize = 0;
    while i < components.len()
        invariant
            i <= components@.len(),
            p@ == base@ + components@.subrange(0, i as int).map_values(|c: String| c@),
        decreases components@.len() - i,
    {
        p = p.join_name(components[i].as_str());
        proof {
            assert(components@.subrange(0, i + 1).map_values(|c: String| c@) =~= components@.subrange(
                0,
                i as int,
            ).map_values(|c: String| c@).push(components@[i as int]@));
        }
        i = i + 1;
    }
    assert(components@.subrange(0, components@.len() as int) =~= components@);
    p
}

/// Translates one change record observed under `base` into an event.
pub fn translate_record(
    t: FileSystemChangeRecordType,
    k: HandleKind,
    base: &VirtualPath,
    components: &Vec<String>,
) -> (r: WatchEvent)
    ensures
        r.kind == event_kind_of(t, k),
        r.paths@.len() == 1,
        r.paths@[0]@ == base@ + components@.map_values(|c: String| c@),
{
    let path = changed_path(base, components);
    let mut paths: Vec<VirtualPath> = Vec::new();
    paths.push(path);
    WatchEvent { kind: event_kind(t, k), paths }
}

} // verus!
