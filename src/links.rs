//! Symbolic links, which the substrate does not have.
use vstd::prelude::*;

use crate::error::ErrorKind;
use crate::metadata::Metadata;
use crate::path::VirtualPath;

verus! {

/// Reading a link is unsupported.
pub fn read_link(_path: &str) -> (r: Result<VirtualPath, ErrorKind>)
    ensures
        r == Err::<VirtualPath, ErrorKind>(ErrorKind::Unsupported),
{
    Err(ErrorKind::Unsupported)
}

/// Creating a link is unsupported.
pub fn symlink(_target: &str, _link: &str) -> (r: Result<(), ErrorKind>)
    ensures
        r == Err::<(), ErrorKind>(ErrorKind::Unsupported),
{
    Err(ErrorKind::Unsupported)
}

/// The metadata of a link itself is unsupported.
pub fn symlink_metadata(_path: &str) -> (r: Result<Metadata, ErrorKind>)
    ensures
        r == Err::<Metadata, ErrorKind>(ErrorKind::Unsupported),
{
    Err(ErrorKind::Unsupported)
}

} // verus!
