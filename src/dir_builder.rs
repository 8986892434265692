//! A builder for directory creation.
use vstd::prelude::*;

use crate::options::OpenDirType;

verus! {

/// Creates directories, one level or, with `recursive`, every missing level.
#[derive(Clone, Copy, Debug, PartialEq, Eq, Structural)]
pub struct DirBuilder {
    pub recursive: bool,
}

impl DirBuilder {
    /// A builder that creates one level.
    pub fn new() -> (r: DirBuilder)
        ensures
            r == (DirBuilder { recursive: false }),
    {
        DirBuilder { recursive: false }
    }

    /// Sets whether missing parents are created too.
    pub fn recursive(&mut self, recursive: bool) -> (r: &mut DirBuilder)
        ensures
            *r == (DirBuilder { recursive }),
            *final(self) == *final(r),
    {
        self.recursive = recursive;
        self
    }

    /// How the resolver walks to the directory to create.
    pub fn open_type(&self) -> (r: OpenDirType)
        ensures
            self.recursive ==> r == OpenDirType::CreateRecursive,
            !self.recursive ==> r == OpenDirType::Create,
    {
        if self.recursive {
            OpenDirType::CreateRecursive
        } else {
            OpenDirType::Create
        }
    }
}

} // verus!
