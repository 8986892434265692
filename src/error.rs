//! The closed set of error kinds visible at the boundary, and the
//! translation of substrate exception names into them.
use vstd::prelude::*;
use vstd::string::*;

verus! {

/// Error kinds that operations of this library report.
#[derive(Clone, Copy, Debug, PartialEq, Eq, Structural)]
pub enum ErrorKind {
    NotFound,
    PermissionDenied,
    AlreadyExists,
    InvalidInput,
    InvalidData,
    InvalidFilename,
    WouldBlock,
    StorageFull,
    Unsupported,
    Interrupted,
    ConnectionAborted,
    Other,
}

/// The error kind that a substrate exception of the given name stands for.
pub open spec fn exception_kind(name: Seq<char>) -> ErrorKind {
    if name == "NotFoundError"@ {
        ErrorKind::NotFound
    } else if name == "NotAllowedError"@ || name == "SecurityError"@ {
        ErrorKind::PermissionDenied
    } else if name == "NoModificationAllowedError"@ {
        ErrorKind::WouldBlock
    } else if name == "TypeMismatchError"@ {
        ErrorKind::InvalidData
    } else if name == "QuotaExceededError"@ {
        ErrorKind::StorageFull
    } else if name == "InvalidStateError"@ {
        ErrorKind::InvalidInput
    } else if name == "AbortError"@ {
        ErrorKind::Interrupted
    } else {
        ErrorKind::Other
    }
}

/// Whether two strings hold the same characters.
pub fn str_eq(a: &str, b: &str) -> (r: bool)
    ensures
        r == (a@ == b@),
{
    let n = a.unicode_len();
    if n != b.unicode_len() {
        return false;
    }
    let mut i: usize = 0;
    while i < n
        invariant
            n == a@.len(),
            n == b@.len(),
            i <= n,
            a@.subrange(0, i as int) == b@.subrange(0, i as int),
        decreases n - i,
    {
        if a.get_char(i) != b.get_char(i) {
            return false;
        }
        assert(a@.subrange(0, i + 1) == a@.subrange(0, i as int).push(a@[i as int]));
        assert(b@.subrange(0, i + 1) == b@.subrange(0, i as int).push(b@[i as int]));
        i = i + 1;
    }
    assert(a@ == a@.subrange(0, n as int));
    assert(b@ == b@.subrange(0, n as int));
    true
}

/// Translates the name of a substrate exception into an error kind.
pub fn translate_exception(name: &str) -> (r: ErrorKind)
    ensures
        r == exception_kind(name@),
{
    proof {
        reveal_strlit("NotFoundError");
        reveal_strlit("NotAllowedError");
        reveal_strlit("SecurityError");
        reveal_strlit("NoModificationAllowedError");
        reveal_strlit("TypeMismatchError");
        reveal_strlit("QuotaExceededError");
        reveal_strlit("InvalidStateError");
        reveal_strlit("AbortError");
    }
    if str_eq(name, "NotFoundError") {
        ErrorKind::NotFound
    } else if str_eq(name, "NotAllowedError") || str_eq(name, "SecurityError") {
        ErrorKind::PermissionDenied
    } else if str_eq(name, "NoModificationAllowedError") {
        ErrorKind::WouldBlock
    } else if str_eq(name, "TypeMismatchError") {
        ErrorKind::InvalidData
    } else if str_eq(name, "QuotaExceededError") {
        ErrorKind::StorageFull
    } else if str_eq(name, "InvalidStateError") {
        ErrorKind::InvalidInput
    } else if str_eq(name, "AbortError") {
        ErrorKind::Interrupted
    } else {
        ErrorKind::Other
    }
}

} // verus!
