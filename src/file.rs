//! An open file: one seat on the lock table, the shared synchronous handle,
//! the caller's access mode, and an optional byte cursor. Without a cursor,
//! reads and writes go to the handle's own implicit position.
use vstd::prelude::*;

use crate::error::ErrorKind;
use crate::lock::PathLockGuard;
use crate::options::SyncAccessMode;

verus! {

/// The largest length a file can be given: the substrate counts bytes in
/// doubles, exact up to this value.
pub const MAX_FILE_LEN: u64 = 9007199254740992;

/// The most bytes one read or write call moves before yielding.
pub const CHUNK_LEN: usize = 1048576;

/// Where a seek counts from.
#[derive(Clone, Copy, Debug, PartialEq, Eq, Structural)]
pub enum SeekFrom {
    Start(u64),
    End(i64),
    Current(i64),
}

/// `base + offset` when it is a valid position.
pub open spec fn offset_by(base: u64, offset: i64) -> Option<u64> {
    if 0 <= base + offset <= u64::MAX {
        Some((base + offset) as u64)
    } else {
        None
    }
}

/// The position a seek lands on, given the cursor (`None` counts as 0) and
/// the file's size; a position below zero or past `u64::MAX` is invalid
/// input. A position past the end is allowed.
pub open spec fn seek_position(pos: Option<u64>, size: u64, from: SeekFrom) -> Result<u64, ErrorKind> {
    match from {
        SeekFrom::Start(o) => Ok(o),
        SeekFrom::End(o) => match offset_by(size, o) {
            Some(p) => Ok(p),
            None => Err(ErrorKind::InvalidInput),
        },
        SeekFrom::Current(o) => match offset_by(
            match pos {
                Some(p) => p,
                None => 0,
            },
            o,
        ) {
            Some(p) => Ok(p),
            None => Err(ErrorKind::InvalidInput),
        },
    }
}

/// `base + offset`, checked.
pub fn checked_offset(base: u64, offset: i64) -> (r: Option<u64>)
    ensures
        r == offset_by(base, offset),
{
    let t: i128 = base as i128 + offset as i128;
    if 0 <= t && t <= u64::MAX as i128 {
        Some(t as u64)
    } else {
        None
    }
}

/// The outcome of resizing a file of access mode `access` to `size`: a
/// read-only file refuses, and so does a size past `MAX_FILE_LEN`.
pub open spec fn set_len_check(access: SyncAccessMode, size: u64) -> Result<(), ErrorKind> {
    if access == SyncAccessMode::Readonly {
        Err(ErrorKind::PermissionDenied)
    } else if size > MAX_FILE_LEN {
        Err(ErrorKind::InvalidInput)
    } else {
        Ok(())
    }
}

/// An open file over a synchronous handle of type `H`.
#[derive(Debug)]
pub struct File<H> {
    handle: H,
    guard: PathLockGuard,
    access: SyncAccessMode,
    pos: Option<u64>,
}

impl<H> File<H> {
    /// The caller's access mode.
    pub closed spec fn access_mode(&self) -> SyncAccessMode {
        self.access
    }

    /// The byte cursor; `None` before the first read, write or seek.
    pub closed spec fn cursor(&self) -> Option<u64> {
        self.pos
    }

    /// The synchronous handle.
    pub closed spec fn sync_handle(&self) -> H {
        self.handle
    }

    /// The seat the file holds.
    pub closed spec fn seat(&self) -> PathLockGuard {
        self.guard
    }

    /// A file over `handle` holding the seat `guard`, with no cursor yet.
    pub fn new(handle: H, guard: PathLockGuard, access: SyncAccessMode) -> (r: File<H>)
        ensures
            r.sync_handle() == handle,
            r.seat() == guard,
            r.access_mode() == access,
            r.cursor() is None,
    {
        File { handle, guard, access, pos: None }
    }

    /// The synchronous handle.
    pub fn handle(&self) -> (r: &H)
        ensures
            *r == self.sync_handle(),
    {
        &self.handle
    }

    /// The caller's access mode.
    pub fn access(&self) -> (r: SyncAccessMode)
        ensures
            r == self.access_mode(),
    {
        self.access
    }

    /// The offset to read or write at: the cursor, or `None` to use the
    /// handle's implicit position.
    pub fn position(&self) -> (r: Option<u64>)
        ensures
            r == self.cursor(),
    {
        self.pos
    }

    /// Whether writing is allowed: a read-only file refuses with permission
    /// denied.
    pub fn check_write(&self) -> (r: Result<(), ErrorKind>)
        ensures
            self.access_mode() == SyncAccessMode::Readonly ==> r == Err::<(), ErrorKind>(
                ErrorKind::PermissionDenied,
            ),
            self.access_mode() == SyncAccessMode::Readwrite ==> r == Ok::<(), ErrorKind>(()),
    {
        match self.access {
            SyncAccessMode::Readonly => Err(ErrorKind::PermissionDenied),
            SyncAccessMode::Readwrite => Ok(()),
        }
    }

    /// Whether the file may be resized to `size`; the cursor never moves.
    pub fn check_set_len(&self, size: u64) -> (r: Result<(), ErrorKind>)
        ensures
            r == set_len_check(self.access_mode(), size),
    {
        if self.access == SyncAccessMode::Readonly {
            Err(ErrorKind::PermissionDenied)
        } else if size > MAX_FILE_LEN {
            Err(ErrorKind::InvalidInput)
        } else {
            Ok(())
        }
    }

    /// Moves the cursor past `n` bytes just read or written. Without a
    /// cursor the handle's implicit position moved, and nothing changes here.
    /// A cursor that would pass `u64::MAX` is invalid input and stays.
    pub fn advance(&mut self, n: u64) -> (r: Result<Option<u64>, ErrorKind>)
        ensures
            final(self).access_mode() == old(self).access_mode(),
            final(self).sync_handle() == old(self).sync_handle(),
            final(self).seat() == old(self).seat(),
            old(self).cursor() is None ==> r == Ok::<Option<u64>, ErrorKind>(None) && final(
                self).cursor() is None,
            old(self).cursor() matches Some(p) ==> (p + n <= u64::MAX ==> r == Ok::<
                Option<u64>,
                ErrorKind,
            >(Some((p + n) as u64)) && final(self).cursor() == Some((p + n) as u64)),
            old(self).cursor() matches Some(p) ==> (p + n > u64::MAX ==> r == Err::<
                Option<u64>,
                ErrorKind,
            >(ErrorKind::InvalidInput) && final(self).cursor() == old(self).cursor()),
    {
        match self.pos {
            None => Ok(None),
            Some(p) => {
                if p > u64::MAX - n {
                    return Err(ErrorKind::InvalidInput);
                }
                self.pos = Some(p + n);
                Ok(Some(p + n))
            },
        }
    }

    /// Seeks within a file of `size` bytes and returns the new cursor; on
    /// invalid input the cursor stays.
    pub fn seek(&mut self, from: SeekFrom, size: u64) -> (r: Result<u64, ErrorKind>)
        ensures
            r == seek_position(old(self).cursor(), size, from),
            r matches Ok(p) ==> final(self).cursor() == Some(p),
            r is Err ==> final(self).cursor() == old(self).cursor(),
            final(self).access_mode() == old(self).access_mode(),
            final(self).sync_handle() == old(self).sync_handle(),
            final(self).seat() == old(self).seat(),
    {
        let target = match from {
            SeekFrom::Start(o) => Some(o),
            SeekFrom::End(o) => checked_offset(size, o),
            SeekFrom::Current(o) => {
                let base = match self.pos {
                    Some(p) => p,
                    None => 0,
                };
                checked_offset(base, o)
            },
        };
        match target {
            Some(p) => {
                self.pos = Some(p);
                Ok(p)
            },
            None => Err(ErrorKind::InvalidInput),
        }
    }

    /// Gives up the file, returning its seat to hand back to the lock table.
    pub fn into_seat(self) -> (r: PathLockGuard)
        ensures
            r == self.seat(),
    {
        self.guard
    }
}

/// The number of bytes one call moves for a buffer of `len` bytes.
pub fn chunk_len(len: usize) -> (r: usize)
    ensures
        r == if len <= CHUNK_LEN {
            len
        } else {
            CHUNK_LEN
        },
{
    if len <= CHUNK_LEN {
        len
    } else {
        CHUNK_LEN
    }
}

} // verus!
