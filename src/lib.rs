//! A POSIX-style file system facade over a browser's origin private file
//! system: path virtualization, directory resolution, a per-path lock table
//! with shared and exclusive seats, open-option resolution, cursor
//! bookkeeping for open files, change-record translation and the decisions
//! of the request/response offload transport.
//!
//! Everything here is plain computation over values; the substrate calls
//! that these decisions drive are made by the caller.
pub mod assoc;
pub mod copy;
pub mod cwd;
pub mod dir_builder;
pub mod dir_cache;
pub mod error;
pub mod file;
pub mod links;
pub mod lock;
pub mod metadata;
pub mod offload;
pub mod open_options;
pub mod options;
pub mod path;
pub mod read_dir;
pub mod resolve;
pub mod watch;

pub use cwd::{canonicalize, current_dir, set_current_dir, CurrentDir};
pub use dir_builder::DirBuilder;
pub use error::ErrorKind;
pub use file::{File, SeekFrom};
pub use links::{read_link, symlink, symlink_metadata};
pub use metadata::{FileType, Metadata};
pub use offload::FsOffloadDefault;
pub use open_options::OpenOptions;
pub use options::{CreateFileMode, SyncAccessMode};
pub use path::VirtualPath;
pub use read_dir::{DirEntry, ReadDir};
pub use watch::FileSystemChangeRecordType;
