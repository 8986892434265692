//! Entry kinds and metadata.
use vstd::prelude::*;

use crate::error::ErrorKind;

verus! {

/// The kind of an entry. Symbolic links are never produced.
#[derive(Clone, Copy, Debug, PartialEq, Eq, Structural)]
pub enum FileType {
    File,
    Directory,
    Symlink,
}

impl FileType {
    pub fn is_dir(&self) -> (r: bool)
        ensures
            r == (*self == FileType::Directory),
    {
        *self == FileType::Directory
    }

    pub fn is_file(&self) -> (r: bool)
        ensures
            r == (*self == FileType::File),
    {
        *self == FileType::File
    }

    pub fn is_symlink(&self) -> (r: bool)
        ensures
            r == (*self == FileType::Symlink),
    {
        *self == FileType::Symlink
    }
}

/// The kind and size of an entry, and when it was last modified, in
/// milliseconds since the epoch, where the substrate says.
#[derive(Clone, Copy, Debug, PartialEq, Eq, Structural)]
pub struct Metadata {
    pub file_type: FileType,
    pub file_size: u64,
    pub modified: Option<u64>,
}

impl Metadata {
    /// Metadata of a file of `len` bytes, last modified at `modified`.
    pub fn file(len: u64, modified: Option<u64>) -> (r: Metadata)
        ensures
            r == (Metadata { file_type: FileType::File, file_size: len, modified }),
    {
        Metadata { file_type: FileType::File, file_size: len, modified }
    }

    /// Metadata of a directory; its size is zero.
    pub fn directory() -> (r: Metadata)
        ensures
            r == (Metadata { file_type: FileType::Directory, file_size: 0, modified: None }),
    {
        Metadata { file_type: FileType::Directory, file_size: 0, modified: None }
    }

    /// When the entry was last modified, in milliseconds since the epoch.
    pub fn modified(&self) -> (r: Option<u64>)
        ensures
            r == self.modified,
    {
        self.modified
    }

    pub fn is_dir(&self) -> (r: bool)
        ensures
            r == (self.file_type == FileType::Directory),
    {
        self.file_type.is_dir()
    }

    pub fn is_file(&self) -> (r: bool)
        ensures
            r == (self.file_type == FileType::File),
    {
        self.file_type.is_file()
    }

    pub fn is_symlink(&self) -> (r: bool)
        ensures
            r == (self.file_type == FileType::Symlink),
    {
        self.file_type.is_symlink()
    }

    /// The size in bytes.
    pub fn len(&self) -> (r: u64)
        ensures
            r == self.file_size,
    {
        self.file_size
    }
}

/// The metadata of a path from its two probes: a file of the size and
/// modification time the file probe found; failing that, a directory when
/// the directory probe found one; failing both, the directory probe's error.
pub open spec fn metadata_of(
    file: Result<(u64, Option<u64>), ErrorKind>,
    dir: Result<(), ErrorKind>,
) -> Result<Metadata, ErrorKind> {
    match file {
        Ok((len, modified)) => Ok(Metadata { file_type: FileType::File, file_size: len, modified }),
        Err(_) => match dir {
            Ok(_) => Ok(Metadata { file_type: FileType::Directory, file_size: 0, modified: None }),
            Err(e) => Err(e),
        },
    }
}

/// Combines the file probe and the directory probe of a path.
pub fn metadata_from_probes(
    file: Result<(u64, Option<u64>), ErrorKind>,
    dir: Result<(), ErrorKind>,
) -> (r: Result<Metadata, ErrorKind>)
    ensures
        r == metadata_of(file, dir),
{
    match file {
        Ok((len, modified)) => Ok(Metadata::file(len, modified)),
        Err(_) => match dir {
            Ok(_) => Ok(Metadata::directory()),
            Err(e) => Err(e),
        },
    }
}

/// Whether a path exists, from its two probes: any error counts as absent.
pub fn exists_from_probes(file: Result<(u64, Option<u64>), ErrorKind>, dir: Result<(), ErrorKind>) -> (r: bool)
    ensures
        r == (file is Ok || dir is Ok),
{
    file.is_ok() || dir.is_ok()
}

} // verus!
