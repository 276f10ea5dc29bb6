//! The errors that a metadata request can end in.

use vstd::prelude::*;

verus! {

/// The POSIX error numbers that the metadata layer reports to the kernel.
#[derive(Clone, Copy, Debug, PartialEq, Eq, Structural)]
pub enum Errno {
    /// No such file or directory.
    ENOENT,
    /// Permission denied.
    EACCES,
    /// The name is taken.
    EEXIST,
    /// A path component is not a directory.
    ENOTDIR,
    /// The target is a directory.
    EISDIR,
    /// The directory still has entries.
    ENOTEMPTY,
    /// The request is malformed.
    EINVAL,
    /// The store is inconsistent or unreachable.
    EIO,
    /// No inode number is left.
    ENOSPC,
    /// The operation is not implemented.
    ENOSYS,
    /// A name is longer than the filesystem allows.
    ENAMETOOLONG,
}

/// Why a metadata request failed.
#[derive(Clone, Copy, Debug, PartialEq, Eq, Structural)]
pub enum MetaError {
    /// A user-visible failure, handed to the kernel as it is.
    Posix(Errno),
    /// The catalog contradicts itself at inode `ino`: an entry without its
    /// inode, an inode without its entry, a name that does not match.
    InconsistentFS { ino: u64 },
    /// Every commit attempt of the transaction met a conflict.
    TxnRetryExceeded,
    /// The object store or the key-value store could not be reached.
    Backend,
    /// The request asks for something the filesystem does not offer.
    Unsupported,
    /// The configuration of the mount cannot be used.
    Config,
}

impl MetaError {
    /// The error number that the kernel sees for this error.
    pub open spec fn errno_spec(self) -> Errno {
        match self {
            MetaError::Posix(e) => e,
            MetaError::InconsistentFS { .. } => Errno::EIO,
            MetaError::TxnRetryExceeded => Errno::EIO,
            MetaError::Backend => Errno::EIO,
            MetaError::Unsupported => Errno::ENOSYS,
            MetaError::Config => Errno::EINVAL,
        }
    }

    /// The error number that the kernel sees for this error.
    pub fn errno(&self) -> (e: Errno)
        ensures
            e == self.errno_spec(),
    {
        match self {
            MetaError::Posix(e) => *e,
            MetaError::InconsistentFS { .. } => Errno::EIO,
            MetaError::TxnRetryExceeded => Errno::EIO,
            MetaError::Backend => Errno::EIO,
            MetaError::Unsupported => Errno::ENOSYS,
            MetaError::Config => Errno::EINVAL,
        }
    }
}

} // verus!
