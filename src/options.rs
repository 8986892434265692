//! Modes handed to the substrate when files and directories are opened.
use vstd::prelude::*;

verus! {

/// The access mode of a synchronous file handle.
#[derive(Clone, Copy, Debug, PartialEq, Eq, Structural)]
pub enum SyncAccessMode {
    Readonly,
    Readwrite,
}

/// What to do when the file to open is absent or present.
#[derive(Clone, Copy, Debug, PartialEq, Eq, Structural)]
pub enum CreateFileMode {
    /// Open the file, creating it when absent.
    Create,
    /// Create the file; fail when it is present.
    CreateNew,
    /// Open the file; fail when it is absent.
    NotCreate,
}

/// How the directory resolver treats missing directories.
#[derive(Clone, Copy, Debug, PartialEq, Eq, Structural)]
pub enum OpenDirType {
    /// Create the last directory only.
    Create,
    /// Create every missing directory on the way.
    CreateRecursive,
    /// Create nothing.
    NotCreate,
}

/// A handle opened in mode `handle` serves a holder that asked for `wanted`:
/// a read-write handle serves both modes, a read-only one only readers.
pub open spec fn covers(handle: SyncAccessMode, wanted: SyncAccessMode) -> bool {
    handle == SyncAccessMode::Readwrite || wanted == SyncAccessMode::Readonly
}

/// Whether a handle opened in mode `handle` serves a holder of mode `wanted`.
pub fn mode_covers(handle: SyncAccessMode, wanted: SyncAccessMode) -> (r: bool)
    ensures
        r == covers(handle, wanted),
{
    handle == SyncAccessMode::Readwrite || wanted == SyncAccessMode::Readonly
}

} // verus!
