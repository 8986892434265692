//! Directory listings: a snapshot of a directory's entries, consumed once.
use vstd::prelude::*;

use crate::metadata::FileType;
use crate::path::VirtualPath;

verus! {

/// One entry of a listing.
#[derive(Debug)]
pub struct DirEntry {
    file_type: FileType,
    name: String,
    path: VirtualPath,
}

impl DirEntry {
    /// The entry's kind.
    pub closed spec fn kind(&self) -> FileType {
        self.file_type
    }

    /// The entry's name.
    pub closed spec fn name_view(&self) -> Seq<char> {
        self.name@
    }

    /// The entry's virtual path.
    pub closed spec fn path_view(&self) -> Seq<Seq<char>> {
        self.path@
    }

    /// An entry named `name` at `path`, of kind `file_type`.
    pub fn new(path: VirtualPath, name: String, file_type: FileType) -> (r: DirEntry)
        ensures
            r.path_view() == path@,
            r.name_view() == name@,
            r.kind() == file_type,
    {
        DirEntry { file_type, name, path }
    }

    /// The entry's virtual path.
    pub fn path(&self) -> (r: VirtualPath)
        ensures
            r@ == self.path_view(),
    {
        self.path.duplicate()
    }

    /// The entry's name.
    pub fn file_name(&self) -> (r: String)
        ensures
            r@ == self.name_view(),
    {
        self.name.clone()
    }

    /// The entry's kind.
    pub fn file_type(&self) -> (r: FileType)
        ensures
            r == self.kind(),
    {
        self.file_type
    }
}

/// The entries of a directory not yet handed out.
#[derive(Debug)]
pub struct ReadDir {
    entries: Vec<DirEntry>,
}

impl ReadDir {
    /// The entries still to come, in the order `next_entry` hands them out.
    pub closed spec fn remaining(&self) -> Seq<DirEntry> {
        self.entries@.reverse()
    }

    /// A listing of directory `dir` whose substrate enumeration gave the
    /// names and kinds `listing`, in that order; each entry's path is `dir`
    /// joined with its name.
    pub fn from_listing(dir: &VirtualPath, listing: Vec<(String, FileType)>) -> (r: ReadDir)
        ensures
            r.remaining().len() == listing@.len(),
            forall|i: int|
                0 <= i < listing@.len() ==> {
                    &&& (#[trigger] r.remaining()[i]).name_view() == listing@[i].0@
                    &&& r.remaining()[i].kind() == listing@[i].1
                    &&& r.remaining()[i].path_view() == dir@.push(listing@[i].0@)
                },
    {
        let mut listing = listing;
        let ghost orig = listing@;
        let mut entries: Vec<DirEntry> = Vec::new();
        // the last entry of the listing goes first, so that popping from
        // the end hands the entries out in listing order
        while listing.len() > 0
            invariant
                listing@ == orig.subrange(0, listing@.len() as int),
                listing@.len() <= orig.len(),
                entries@.len() == orig.len() - listing@.len(),
                forall|j: int|
                    0 <= j < entries@.len() ==> {
                        let k = orig.len() - 1 - j;
                        &&& (#[trigger] entries@[j]).name_view() == orig[k].0@
                        &&& entries@[j].kind() == orig[k].1
                        &&& entries@[j].path_view() == dir@.push(orig[k].0@)
                    },
            decreases listing@.len(),
        {
            let ghost before = listing@;
            let item = listing.pop();
            match item {
                Some((name, kind)) => {
                    assert(before.last() == orig[before.len() - 1]);
                    let path = dir.join_name(name.as_str());
                    entries.push(DirEntry::new(path, name, kind));
                    assert(listing@ =~= orig.subrange(0, listing@.len() as int));
                },
                None => {},
            }
        }
        let r = ReadDir { entries };
        assert forall|i: int| 0 <= i < orig.len() implies {
            &&& (#[trigger] r.remaining()[i]).name_view() == orig[i].0@
            &&& r.remaining()[i].kind() == orig[i].1
            &&& r.remaining()[i].path_view() == dir@.push(orig[i].0@)
        } by {
            assert(r.remaining()[i] == r.entries@[orig.len() - 1 - i]);
        }
        r
    }

    /// Hands out the next entry, or `None` when none is left.
    pub fn next_entry(&mut self) -> (r: Option<DirEntry>)
        ensures
            old(self).remaining().len() == 0 ==> r is None && final(self).remaining() == old(
                self).remaining(),
            old(self).remaining().len() > 0 ==> r == Some(old(self).remaining()[0]) && final(
                self).remaining() == old(self).remaining().drop_first(),
    {
        let r = self.entries.pop();
        proof {
            if old(self).entries@.len() > 0 {
                assert(self.entries@.reverse() =~= old(self).entries@.reverse().drop_first());
            }
        }
        r
    }
}

} // verus!
