//! Open options and their resolution into a create mode, an access mode and
//! a truncation decision.
use vstd::prelude::*;

use crate::error::ErrorKind;
use crate::options::{CreateFileMode, SyncAccessMode};

verus! {

/// The flags a caller sets before opening a file. Reading is on by default.
#[derive(Clone, Copy, Debug, PartialEq, Eq, Structural)]
pub struct OpenOptions {
    pub read: bool,
    pub write: bool,
    pub append: bool,
    pub truncate: bool,
    pub create: bool,
    pub create_new: bool,
}

/// What opening with a set of options does.
#[derive(Clone, Copy, Debug, PartialEq, Eq, Structural)]
pub struct OpenPlan {
    /// Whether the file is created when absent, and whether it must be.
    pub create: CreateFileMode,
    /// The caller's access: read-write when writing or appending.
    pub access: SyncAccessMode,
    /// Whether the file is emptied once opened.
    pub truncate: bool,
    /// Whether the cursor moves to the end once opened.
    pub append: bool,
}

/// The outcome of opening with `o`: invalid input without any of read,
/// write and append, or with create, create-new or truncate but neither
/// write nor append; otherwise a plan where create-new wins over create.
pub open spec fn plan_of(o: OpenOptions) -> Result<OpenPlan, ErrorKind> {
    if !(o.read || o.write || o.append) {
        Err(ErrorKind::InvalidInput)
    } else if (o.create || o.create_new || o.truncate) && !(o.write || o.append) {
        Err(ErrorKind::InvalidInput)
    } else {
        Ok(
            OpenPlan {
                create: if o.create_new {
                    CreateFileMode::CreateNew
                } else if o.create {
                    CreateFileMode::Create
                } else {
                    CreateFileMode::NotCreate
                },
                access: if o.write || o.append {
                    SyncAccessMode::Readwrite
                } else {
                    SyncAccessMode::Readonly
                },
                truncate: o.truncate,
                append: o.append,
            },
        )
    }
}

impl OpenOptions {
    /// Options that open an existing file for reading.
    pub fn new() -> (r: OpenOptions)
        ensures
            r == (OpenOptions {
                read: true,
                write: false,
                append: false,
                truncate: false,
                create: false,
                create_new: false,
            }),
    {
        OpenOptions {
            read: true,
            write: false,
            append: false,
            truncate: false,
            create: false,
            create_new: false,
        }
    }

    /// Sets the read flag.
    pub fn read(&mut self, read: bool) -> (r: &mut OpenOptions)
        ensures
            *r == (OpenOptions { read, ..*old(self) }),
            *final(self) == *final(r),
    {
        self.read = read;
        self
    }

    /// Sets the write flag.
    pub fn write(&mut self, write: bool) -> (r: &mut OpenOptions)
        ensures
            *r == (OpenOptions { write, ..*old(self) }),
            *final(self) == *final(r),
    {
        self.write = write;
        self
    }

    /// Sets the append flag.
    pub fn append(&mut self, append: bool) -> (r: &mut OpenOptions)
        ensures
            *r == (OpenOptions { append, ..*old(self) }),
            *final(self) == *final(r),
    {
        self.append = append;
        self
    }

    /// Sets the truncate flag.
    pub fn truncate(&mut self, truncate: bool) -> (r: &mut OpenOptions)
        ensures
            *r == (OpenOptions { truncate, ..*old(self) }),
            *final(self) == *final(r),
    {
        self.truncate = truncate;
        self
    }

    /// Sets the create flag.
    pub fn create(&mut self, create: bool) -> (r: &mut OpenOptions)
        ensures
            *r == (OpenOptions { create, ..*old(self) }),
            *final(self) == *final(r),
    {
        self.create = create;
        self
    }

    /// Sets the create-new flag.
    pub fn create_new(&mut self, create_new: bool) -> (r: &mut OpenOptions)
        ensures
            *r == (OpenOptions { create_new, ..*old(self) }),
            *final(self) == *final(r),
    {
        self.create_new = create_new;
        self
    }

    /// Resolves the options into what opening does, before any substrate
    /// call.
    pub fn plan(&self) -> (r: Result<OpenPlan, ErrorKind>)
        ensures
            r == plan_of(*self),
    {
        if !(self.read || self.write || self.append) {
            return Err(ErrorKind::InvalidInput);
        }
        if (self.create || self.create_new || self.truncate) && !(self.write || self.append) {
            return Err(ErrorKind::InvalidInput);
        }
        let create = if self.create_new {
            CreateFileMode::CreateNew
        } else if self.create {
            CreateFileMode::Create
        } else {
            CreateFileMode::NotCreate
        };
        let access = if self.write || self.append {
            SyncAccessMode::Readwrite
        } else {
            SyncAccessMode::Readonly
        };
        Ok(OpenPlan { create, access, truncate: self.truncate, append: self.append })
    }
}

/// Opening with none of read, write and append fails with invalid input,
/// whatever the other flags.
pub proof fn lemma_no_access_flag(o: OpenOptions)
    requires
        !o.read && !o.write && !o.append,
    ensures
        plan_of(o) == Err::<OpenPlan, ErrorKind>(ErrorKind::InvalidInput),
{
}

} // verus!
