//! Inode attributes, the request context, and the POSIX access rules.

use vstd::prelude::*;
use crate::error::{Errno, MetaError};

verus! {

/// Seconds for which the kernel may cache an attribute or entry reply.
pub const MY_TTL_SEC: u64 = 3600;

/// The generation number of every inode handed to the kernel.
pub const MY_GENERATION: u64 = 1;

/// The longest name of a directory entry, in bytes.
pub const MAX_NAME_LENGTH: usize = 255;

/// Type bits of a regular file in a kernel mode word.
pub const S_IFREG: u32 = 0o100000;

/// Type bits of a directory in a kernel mode word.
pub const S_IFDIR: u32 = 0o040000;

/// Type bits of a symbolic link in a kernel mode word.
pub const S_IFLNK: u32 = 0o120000;

/// The sticky bit of a directory's permission bits.
pub const S_ISVTX: u16 = 0o1000;

/// The mask of the access mode in open flags.
pub const O_ACCMODE: u32 = 3;

/// Open flag: truncate the file.
pub const O_TRUNC: u32 = 0o1000;

/// Open flag set by the kernel when it opens a file to execute it.
pub const FMODE_EXEC: u32 = 0x20;

/// The kinds of inode that the filesystem stores.
#[derive(Clone, Copy, Debug, PartialEq, Eq, Structural)]
pub enum FileKind {
    /// A regular file; its payload lives in the object store.
    File,
    /// A directory; its entries are part of the inode record.
    Dir,
    /// A symbolic link; its target is part of the inode record.
    Symlink,
}

/// The file types that a creation request can name.
#[derive(Clone, Copy, Debug, PartialEq, Eq, Structural)]
pub enum NodeType {
    File,
    Dir,
    Symlink,
    CharDevice,
    BlockDevice,
    Fifo,
    Socket,
}

/// A point in time: seconds since the epoch and the nanoseconds within.
#[derive(Clone, Copy, Debug, PartialEq, Eq, Structural)]
pub struct Timestamp {
    pub secs: u64,
    pub nanos: u32,
}

/// The identity of the process behind a request.
#[derive(Clone, Copy, Debug, PartialEq, Eq, Structural)]
pub struct ReqContext {
    pub uid: u32,
    pub gid: u32,
    pub pid: u32,
}

/// The attribute block of an inode.
#[derive(Clone, Copy, Debug, PartialEq, Eq, Structural)]
pub struct FileAttr {
    /// Inode number.
    pub ino: u64,
    /// Size in bytes; for a directory, the number of its entries.
    pub size: u64,
    /// Time of last access.
    pub atime: Timestamp,
    /// Time of last modification.
    pub mtime: Timestamp,
    /// Time of last change of the inode.
    pub ctime: Timestamp,
    /// What the inode is.
    pub kind: FileKind,
    /// Permission bits, with set-id and sticky bits.
    pub perm: u16,
    /// Number of hard links.
    pub nlink: u32,
    /// Owner.
    pub uid: u32,
    /// Group.
    pub gid: u32,
    /// Device number of a special file.
    pub rdev: u32,
}

/// The attribute block in the layout of a kernel reply.
#[derive(Clone, Copy, Debug, PartialEq, Eq, Structural)]
pub struct FuseAttr {
    pub ino: u64,
    pub size: u64,
    pub atime: u64,
    pub mtime: u64,
    pub ctime: u64,
    pub atimensec: u32,
    pub mtimensec: u32,
    pub ctimensec: u32,
    pub mode: u32,
    pub nlink: u32,
    pub uid: u32,
    pub gid: u32,
    pub rdev: u32,
}

/// The access mode that open flags ask for.
#[derive(Clone, Copy, Debug, PartialEq, Eq, Structural)]
pub enum AccessMode {
    ReadOnly,
    WriteOnly,
    ReadWrite,
    /// Both low bits set: no access mode at all.
    Invalid,
}

/// What the metadata layer reads out of the flags of an open request.
#[derive(Clone, Copy, Debug, PartialEq, Eq, Structural)]
pub struct OpenFlags {
    pub access: AccessMode,
    pub trunc: bool,
    pub execute: bool,
}

/// The type bits of `kind` in a kernel mode word.
pub open spec fn kind_bits(kind: FileKind) -> u32 {
    match kind {
        FileKind::File => S_IFREG,
        FileKind::Dir => S_IFDIR,
        FileKind::Symlink => S_IFLNK,
    }
}

/// The kernel mode word of an inode of `kind` with permission bits `perm`.
pub open spec fn mode_of(kind: FileKind, perm: u16) -> u32 {
    kind_bits(kind) | (perm as u32)
}

/// The reply layout of `attr`, field by field.
pub open spec fn fuse_attr_of(attr: FileAttr) -> FuseAttr {
    FuseAttr {
        ino: attr.ino,
        size: attr.size,
        atime: attr.atime.secs,
        mtime: attr.mtime.secs,
        ctime: attr.ctime.secs,
        atimensec: attr.atime.nanos,
        mtimensec: attr.mtime.nanos,
        ctimensec: attr.ctime.nanos,
        mode: mode_of(attr.kind, attr.perm),
        nlink: attr.nlink,
        uid: attr.uid,
        gid: attr.gid,
        rdev: attr.rdev,
    }
}

/// Lays `attr` out for a kernel reply.
pub fn convert_to_fuse_attr(attr: FileAttr) -> (r: FuseAttr)
    ensures
        r == fuse_attr_of(attr),
{
    let type_bits: u32 = match attr.kind {
        FileKind::File => S_IFREG,
        FileKind::Dir => S_IFDIR,
        FileKind::Symlink => S_IFLNK,
    };
    FuseAttr {
        ino: attr.ino,
        size: attr.size,
        atime: attr.atime.secs,
        mtime: attr.mtime.secs,
        ctime: attr.ctime.secs,
        atimensec: attr.atime.nanos,
        mtimensec: attr.mtime.nanos,
        ctimensec: attr.ctime.nanos,
        mode: type_bits | (attr.perm as u32),
        nlink: attr.nlink,
        uid: attr.uid,
        gid: attr.gid,
        rdev: attr.rdev,
    }
}

/// The three permission bits (`r = 4`, `w = 2`, `x = 1`) that `attr` grants to
/// a process with user `uid` and group `gid`: the owner's if `uid` owns the
/// inode, else the group's if `gid` is its group, else those of the others.
pub open spec fn class_bits(attr: FileAttr, uid: u32, gid: u32) -> u16 {
    if uid == attr.uid {
        (attr.perm >> 6) & 7
    } else if gid == attr.gid {
        (attr.perm >> 3) & 7
    } else {
        attr.perm & 7
    }
}

/// `attr` grants every bit of `want` to the process.
pub open spec fn permits(attr: FileAttr, uid: u32, gid: u32, want: u8) -> bool {
    class_bits(attr, uid, gid) & (want as u16) == (want as u16)
}

/// The outcome of the access check: with `enforce` off every access is
/// granted; with it on, `EACCES` unless `attr` grants every bit of `want`.
pub open spec fn check_perm_spec(enforce: bool, attr: FileAttr, uid: u32, gid: u32, want: u8)
    -> Result<(), MetaError> {
    if !enforce || permits(attr, uid, gid, want) {
        Ok(())
    } else {
        Err(MetaError::Posix(Errno::EACCES))
    }
}

impl FileAttr {
    /// The POSIX three-class access check of `want` (a mask of `r = 4`,
    /// `w = 2`, `x = 1`) against the permission bits.
    pub fn check_perm(&self, enforce: bool, uid: u32, gid: u32, want: u8) -> (r: Result<(), MetaError>)
        requires
            want <= 7,
        ensures
            r == check_perm_spec(enforce, *self, uid, gid, want),
    {
        if !enforce {
            return Ok(());
        }
        let granted: u16 = if uid == self.uid {
            (self.perm >> 6) & 7
        } else if gid == self.gid {
            (self.perm >> 3) & 7
        } else {
            self.perm & 7
        };
        if granted & (want as u16) == (want as u16) {
            Ok(())
        } else {
            Err(MetaError::Posix(Errno::EACCES))
        }
    }
}

/// The sticky-bit rule: in a directory whose sticky bit is set, only root, the
/// directory's owner and the entry's owner may rename or delete the entry.
pub open spec fn sticky_denies(enforce: bool, uid: u32, parent: FileAttr, child_uid: u32) -> bool {
    &&& enforce
    &&& uid != 0
    &&& parent.perm & S_ISVTX != 0
    &&& uid != parent.uid
    &&& uid != child_uid
}

/// What `flags` of an open request say.
pub open spec fn parse_oflag_spec(flags: u32) -> OpenFlags {
    OpenFlags {
        access: if flags & O_ACCMODE == 0 {
            AccessMode::ReadOnly
        } else if flags & O_ACCMODE == 1 {
            AccessMode::WriteOnly
        } else if flags & O_ACCMODE == 2 {
            AccessMode::ReadWrite
        } else {
            AccessMode::Invalid
        },
        trunc: flags & O_TRUNC != 0,
        execute: flags & FMODE_EXEC != 0,
    }
}

/// Reads the access mode, the truncation flag and the kernel's exec marker out
/// of the flags of an open request.
pub fn parse_oflag(flags: u32) -> (r: OpenFlags)
    ensures
        r == parse_oflag_spec(flags),
{
    let low: u32 = flags & O_ACCMODE;
    let access = if low == 0 {
        AccessMode::ReadOnly
    } else if low == 1 {
        AccessMode::WriteOnly
    } else if low == 2 {
        AccessMode::ReadWrite
    } else {
        AccessMode::Invalid
    };
    OpenFlags { access, trunc: flags & O_TRUNC != 0, execute: flags & FMODE_EXEC != 0 }
}

/// The permission that an open with `flags` needs, or why it cannot be had:
/// reading needs `r`, or `x` when the kernel opens the file to execute it;
/// writing needs `w`; both need `r` and `w`. A read-only open that truncates
/// is refused with `EACCES`, and flags without an access mode with `EINVAL`.
pub open spec fn open_access_spec(flags: OpenFlags) -> Result<u8, MetaError> {
    match flags.access {
        AccessMode::ReadOnly => if flags.trunc {
            Err(MetaError::Posix(Errno::EACCES))
        } else if flags.execute {
            Ok(1u8)
        } else {
            Ok(4u8)
        },
        AccessMode::WriteOnly => Ok(2u8),
        AccessMode::ReadWrite => Ok(6u8),
        AccessMode::Invalid => Err(MetaError::Posix(Errno::EINVAL)),
    }
}

/// The outcome of the checks before an open: the flags must name an access
/// mode, and `attr` must grant it to the process.
pub open spec fn open_pre_check_spec(enforce: bool, attr: FileAttr, flags: OpenFlags, uid: u32, gid: u32)
    -> Result<(), MetaError> {
    match open_access_spec(flags) {
        Err(e) => Err(e),
        Ok(want) => check_perm_spec(enforce, attr, uid, gid, want),
    }
}

impl FileAttr {
    /// Checks that a process may open the inode with `flags`.
    pub fn open_pre_check(&self, enforce: bool, flags: OpenFlags, uid: u32, gid: u32) -> (r: Result<(), MetaError>)
        ensures
            r == open_pre_check_spec(enforce, *self, flags, uid, gid),
    {
        let want: u8 = match flags.access {
            AccessMode::ReadOnly => {
                if flags.trunc {
                    return Err(MetaError::Posix(Errno::EACCES));
                }
                if flags.execute { 1 } else { 4 }
            },
            AccessMode::WriteOnly => 2,
            AccessMode::ReadWrite => 6,
            AccessMode::Invalid => {
                return Err(MetaError::Posix(Errno::EINVAL));
            },
        };
        self.check_perm(enforce, uid, gid, want)
    }
}

/// The kind of inode that a creation request for `node_type` makes: files,
/// directories and symbolic links are stored, every other type is refused as
/// unsupported, which the kernel sees as `ENOSYS`.
pub open spec fn check_type_supported_spec(node_type: NodeType) -> Result<FileKind, MetaError> {
    match node_type {
        NodeType::File => Ok(FileKind::File),
        NodeType::Dir => Ok(FileKind::Dir),
        NodeType::Symlink => Ok(FileKind::Symlink),
        _ => Err(MetaError::Unsupported),
    }
}

/// Accepts the file types that the filesystem stores.
pub fn check_type_supported(node_type: NodeType) -> (r: Result<FileKind, MetaError>)
    ensures
        r == check_type_supported_spec(node_type),
{
    match node_type {
        NodeType::File => Ok(FileKind::File),
        NodeType::Dir => Ok(FileKind::Dir),
        NodeType::Symlink => Ok(FileKind::Symlink),
        _ => Err(MetaError::Unsupported),
    }
}

/// A name is acceptable when it has at most [`MAX_NAME_LENGTH`] bytes.
pub open spec fn check_name_length_spec(name: Seq<u8>) -> Result<(), MetaError> {
    if name.len() <= MAX_NAME_LENGTH {
        Ok(())
    } else {
        Err(MetaError::Posix(Errno::ENAMETOOLONG))
    }
}

/// Refuses a name of more than [`MAX_NAME_LENGTH`] bytes.
pub fn check_name_length(name: &[u8]) -> (r: Result<(), MetaError>)
    ensures
        r == check_name_length_spec(name@),
{
    if name.len() <= MAX_NAME_LENGTH {
        Ok(())
    } else {
        Err(MetaError::Posix(Errno::ENAMETOOLONG))
    }
}

} // verus!
