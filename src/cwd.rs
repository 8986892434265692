//! The current working directory: a virtual path, the root at first.
use vstd::prelude::*;

use crate::path::{virtualize, virtualize_spec, VirtualPath};

verus! {

/// The cell that holds the current working directory.
pub struct CurrentDir {
    path: VirtualPath,
}

impl View for CurrentDir {
    type V = Seq<Seq<char>>;

    closed spec fn view(&self) -> Seq<Seq<char>> {
        self.path@
    }
}

impl CurrentDir {
    /// The directory is a well-formed virtual path.
    pub closed spec fn wf(&self) -> bool {
        self.path.wf()
    }

    /// The root as the working directory.
    pub fn new() -> (r: CurrentDir)
        ensures
            r.wf(),
            r@ == Seq::<Seq<char>>::empty(),
    {
        CurrentDir { path: VirtualPath::root() }
    }

    /// The working directory as a path value.
    pub fn path(&self) -> (r: &VirtualPath)
        requires
            self.wf(),
        ensures
            r@ == self@,
            r.wf(),
    {
        &self.path
    }
}

/// A copy of the current working directory.
pub fn current_dir(cwd: &CurrentDir) -> (r: VirtualPath)
    requires
        cwd.wf(),
    ensures
        r@ == cwd@,
        r.wf(),
{
    cwd.path.duplicate()
}

/// Makes `path`, read against the current working directory, the new one.
pub fn set_current_dir(cwd: &mut CurrentDir, path: &str)
    requires
        old(cwd).wf(),
    ensures
        final(cwd).wf(),
        final(cwd)@ == virtualize_spec(old(cwd)@, path@),
{
    cwd.path = virtualize(&cwd.path, path);
}

/// The virtual path that `path` denotes: the canonical form of a path has
/// no `.`, no `..` and no relative part.
pub fn canonicalize(cwd: &CurrentDir, path: &str) -> (r: VirtualPath)
    requires
        cwd.wf(),
    ensures
        r@ == virtualize_spec(cwd@, path@),
        r.wf(),
{
    virtualize(&cwd.path, path)
}

} // verus!
