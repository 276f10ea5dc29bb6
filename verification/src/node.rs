//! The inode record: what the key-value store holds under one inode number.

use vstd::prelude::*;
use crate::attr::{
    check_type_supported, check_type_supported_spec, FileAttr, FileKind, NodeType, Timestamp,
};
use crate::dir::{
    dir_get, dir_insert, dir_remove, entry_ref_view, entry_view, sorted, DirData, DirEntry,
    DirEntryView,
};
use crate::error::{Errno, MetaError};
use crate::name::name_to_vec;

verus! {

/// The inode number of the root directory.
pub const FUSE_ROOT_ID: u64 = 1;

/// The permission bits of a freshly made root directory.
pub const ROOT_PERM: u16 = 0o755;

/// The mask of the permission, set-id and sticky bits in a mode word.
pub const PERM_MASK: u32 = 0o7777;

/// An inode as the metadata layer holds it in memory.
#[derive(Debug)]
pub struct Node {
    attr: FileAttr,
    parent: u64,
    name: Vec<u8>,
    open_count: u64,
    lookup_count: u64,
    deferred_deletion: bool,
    entries: DirData,
    target: Vec<u8>,
}

/// The mathematical value of an inode record.
pub struct NodeView {
    /// The attribute block.
    pub attr: FileAttr,
    /// The directory that holds the inode; the root holds itself.
    pub parent: u64,
    /// The name under which the parent holds it.
    pub name: Seq<u8>,
    /// Opens that have not been released.
    pub open_count: u64,
    /// Kernel lookups that have not been forgotten.
    pub lookup_count: u64,
    /// Unlinked, and kept until the last reference goes.
    pub deferred_deletion: bool,
    /// The entries of a directory, in the order of their names.
    pub entries: Seq<DirEntryView>,
    /// The target of a symbolic link.
    pub target: Seq<u8>,
}

/// What a creation request asks for.
#[derive(Debug)]
pub struct CreateParam {
    /// The directory to create the inode in.
    pub parent: u64,
    /// The name of the new entry.
    pub name: Vec<u8>,
    /// The mode word: permission bits, the type bits are not read.
    pub mode: u32,
    /// The device number.
    pub rdev: u32,
    /// The owner of the new inode.
    pub uid: u32,
    /// The group of the new inode.
    pub gid: u32,
    /// The type of the new inode.
    pub node_type: NodeType,
    /// The target, when a symbolic link is made.
    pub link: Option<Vec<u8>>,
}

/// The mathematical value of a [`CreateParam`].
pub struct CreateParamView {
    pub parent: u64,
    pub name: Seq<u8>,
    pub mode: u32,
    pub rdev: u32,
    pub uid: u32,
    pub gid: u32,
    pub node_type: NodeType,
    pub link: Option<Seq<u8>>,
}

impl View for CreateParam {
    type V = CreateParamView;

    open spec fn view(&self) -> CreateParamView {
        CreateParamView {
            parent: self.parent,
            name: self.name@,
            mode: self.mode,
            rdev: self.rdev,
            uid: self.uid,
            gid: self.gid,
            node_type: self.node_type,
            link: match self.link {
                Some(l) => Some(l@),
                None => None,
            },
        }
    }
}

/// The attribute changes that a setattr request asks for; `None` leaves a
/// field as it is.
#[derive(Clone, Copy, Debug, PartialEq, Eq, Structural)]
pub struct SetAttrParam {
    pub mode: Option<u32>,
    pub uid: Option<u32>,
    pub gid: Option<u32>,
    pub size: Option<u64>,
    pub atime: Option<Timestamp>,
    pub mtime: Option<Timestamp>,
}

/// `c + 1`, or `c` where the counter is at its limit.
pub open spec fn sat_inc(c: u64) -> u64 {
    if c < u64::MAX {
        (c + 1) as u64
    } else {
        c
    }
}

/// `c - n`, or zero where `n` is more than `c`.
pub open spec fn sat_dec(c: u64, n: u64) -> u64 {
    if c >= n {
        (c - n) as u64
    } else {
        0
    }
}

/// The permission bits of a mode word.
pub open spec fn perm_of_mode(mode: u32) -> u16 {
    (mode & PERM_MASK) as u16
}

/// The record is sound in itself: the entries are sorted by name, only a
/// directory has entries and its size counts them, only a symbolic link has a
/// target.
pub open spec fn node_wf(v: NodeView) -> bool {
    &&& sorted(v.entries)
    &&& v.attr.kind != FileKind::Dir ==> v.entries.len() == 0
    &&& v.attr.kind == FileKind::Dir ==> v.attr.size == v.entries.len()
    &&& v.attr.kind != FileKind::Symlink ==> v.target.len() == 0
}

impl NodeView {
    /// Whether the record is a directory.
    pub open spec fn is_dir(self) -> bool {
        self.attr.kind == FileKind::Dir
    }

    /// The entry called `name`, if the directory has one.
    pub open spec fn entry(self, name: Seq<u8>) -> Option<DirEntryView> {
        dir_get(self.entries, name)
    }

    /// No open and no kernel lookup refers to the inode.
    pub open spec fn unreferenced(self) -> bool {
        self.open_count == 0 && self.lookup_count == 0
    }

    /// The record after one more kernel lookup.
    pub open spec fn looked_up(self) -> NodeView {
        NodeView { lookup_count: sat_inc(self.lookup_count), ..self }
    }

    /// The record after the kernel forgot `n` lookups.
    pub open spec fn forgotten(self, n: u64) -> NodeView {
        NodeView { lookup_count: sat_dec(self.lookup_count, n), ..self }
    }

    /// The record after one more open.
    pub open spec fn opened(self) -> NodeView {
        NodeView { open_count: sat_inc(self.open_count), ..self }
    }

    /// The record after the release of one open.
    pub open spec fn released(self) -> NodeView {
        NodeView { open_count: sat_dec(self.open_count, 1), ..self }
    }

    /// The record marked as unlinked but still referenced.
    pub open spec fn deferred(self) -> NodeView {
        NodeView { deferred_deletion: true, ..self }
    }

    /// The record moved under `parent` with the name `name`.
    pub open spec fn moved(self, parent: u64, name: Seq<u8>) -> NodeView {
        NodeView { parent, name, ..self }
    }

    /// The record with other attributes.
    pub open spec fn with_attr(self, attr: FileAttr) -> NodeView {
        NodeView { attr, ..self }
    }

    /// The directory with `e` put under its name.
    pub open spec fn with_entry(self, e: DirEntryView) -> NodeView {
        let entries = dir_insert(self.entries, e);
        NodeView { entries, attr: FileAttr { size: entries.len() as u64, ..self.attr }, ..self }
    }

    /// The directory without the entry called `name`.
    pub open spec fn without_entry(self, name: Seq<u8>) -> NodeView {
        let entries = dir_remove(self.entries, name);
        NodeView { entries, attr: FileAttr { size: entries.len() as u64, ..self.attr }, ..self }
    }

    /// The file after a write that ended at byte `end`, at time `now`: it
    /// reaches at least to `end`, and its modification and change times are
    /// `now`.
    pub open spec fn written(self, end: u64, now: Timestamp) -> NodeView {
        NodeView {
            attr: FileAttr {
                size: if end > self.attr.size {
                    end
                } else {
                    self.attr.size
                },
                mtime: now,
                ctime: now,
                ..self.attr
            },
            ..self
        }
    }
}

/// The root directory as the first mount makes it: inode 1, its own parent,
/// called `/`, mode `0755`, owned by `uid` and `gid`, without entries.
pub open spec fn root_node(uid: u32, gid: u32, now: Timestamp) -> NodeView {
    NodeView {
        attr: FileAttr {
            ino: FUSE_ROOT_ID,
            size: 0,
            atime: now,
            mtime: now,
            ctime: now,
            kind: FileKind::Dir,
            perm: ROOT_PERM,
            nlink: 2,
            uid,
            gid,
            rdev: 0,
        },
        parent: FUSE_ROOT_ID,
        name: seq![47u8],
        open_count: 0,
        lookup_count: 0,
        deferred_deletion: false,
        entries: Seq::empty(),
        target: Seq::empty(),
    }
}

/// The inode that a creation request makes under the number `ino` at time
/// `now`: of the kind asked for, owned as asked, held once by the kernel.
pub open spec fn child_node(p: CreateParamView, kind: FileKind, ino: u64, now: Timestamp) -> NodeView {
    let target = if kind == FileKind::Symlink && p.link is Some {
        p.link->0
    } else {
        Seq::empty()
    };
    NodeView {
        attr: FileAttr {
            ino,
            size: if kind == FileKind::Symlink {
                target.len() as u64
            } else {
                0
            },
            atime: now,
            mtime: now,
            ctime: now,
            kind,
            perm: perm_of_mode(p.mode),
            nlink: if kind == FileKind::Dir {
                2
            } else {
                1
            },
            uid: p.uid,
            gid: p.gid,
            rdev: p.rdev,
        },
        parent: p.parent,
        name: p.name,
        open_count: 0,
        lookup_count: 1,
        deferred_deletion: false,
        entries: Seq::empty(),
        target,
    }
}

/// Why a creation request cannot be carried out in the directory `dir`, if it
/// cannot: the type is not stored (unsupported), `dir` is no directory
/// (`ENOTDIR`), the name is taken (`EEXIST`), or a symbolic link comes
/// without a target (`EINVAL`).
pub open spec fn create_error(dir: NodeView, p: CreateParamView) -> Option<MetaError> {
    match check_type_supported_spec(p.node_type) {
        Err(e) => Some(e),
        Ok(kind) => if !dir.is_dir() {
            Some(MetaError::Posix(Errno::ENOTDIR))
        } else if dir.entry(p.name) is Some {
            Some(MetaError::Posix(Errno::EEXIST))
        } else if kind == FileKind::Symlink && p.link is None {
            Some(MetaError::Posix(Errno::EINVAL))
        } else {
            None
        },
    }
}

/// Why a setattr request is refused, if it is: only the owner and root may
/// change mode, owner or group (`EACCES`); a directory has no size to set
/// (`EISDIR`); a new size needs write permission (`EACCES`).
pub open spec fn setattr_error(enforce: bool, attr: FileAttr, p: SetAttrParam, uid: u32, gid: u32)
    -> Option<MetaError> {
    if (p.mode is Some || p.uid is Some || p.gid is Some) && enforce && uid != 0 && uid != attr.uid {
        Some(MetaError::Posix(Errno::EACCES))
    } else if p.size is Some && attr.kind == FileKind::Dir {
        Some(MetaError::Posix(Errno::EISDIR))
    } else if p.size is Some && crate::attr::check_perm_spec(enforce, attr, uid, gid, 2) is Err {
        Some(MetaError::Posix(Errno::EACCES))
    } else {
        None
    }
}

/// Whether a setattr request names any field.
pub open spec fn setattr_changes(p: SetAttrParam) -> bool {
    p.mode is Some || p.uid is Some || p.gid is Some || p.size is Some || p.atime is Some
        || p.mtime is Some
}

/// The attributes after a setattr request at time `now`: each field that the
/// request names takes the value given, and the change time is `now` if any
/// field is named.
pub open spec fn setattr_apply(attr: FileAttr, p: SetAttrParam, now: Timestamp) -> FileAttr {
    FileAttr {
        perm: match p.mode {
            Some(m) => perm_of_mode(m),
            None => attr.perm,
        },
        uid: match p.uid {
            Some(u) => u,
            None => attr.uid,
        },
        gid: match p.gid {
            Some(g) => g,
            None => attr.gid,
        },
        size: match p.size {
            Some(s) => s,
            None => attr.size,
        },
        atime: match p.atime {
            Some(t) => t,
            None => attr.atime,
        },
        mtime: match p.mtime {
            Some(t) => t,
            None => attr.mtime,
        },
        ctime: if setattr_changes(p) {
            now
        } else {
            attr.ctime
        },
        ..attr
    }
}

/// The permission bits of the mode word `mode`.
pub fn parse_mode_bits(mode: u32) -> (perm: u16)
    ensures
        perm == perm_of_mode(mode),
{
    let low: u32 = mode & PERM_MASK;
    assert(low <= 0o7777) by (bit_vector)
        requires
            low == mode & 0o7777,
    ;
    low as u16
}

impl View for Node {
    type V = NodeView;

    closed spec fn view(&self) -> NodeView {
        NodeView {
            attr: self.attr,
            parent: self.parent,
            name: self.name@,
            open_count: self.open_count,
            lookup_count: self.lookup_count,
            deferred_deletion: self.deferred_deletion,
            entries: self.entries@,
            target: self.target@,
        }
    }
}

impl Node {
    /// The record is sound in itself, see [`node_wf`].
    pub open spec fn wf(&self) -> bool {
        node_wf(self@)
    }

    /// Builds the root directory for the first mount.
    pub fn open_root_node(uid: u32, gid: u32, now: Timestamp) -> (n: Node)
        ensures
            n.wf(),
            n@ == root_node(uid, gid, now),
    {
        let mut name: Vec<u8> = Vec::new();
        name.push(47u8);
        assert(name@ =~= seq![47u8]);
        Node {
            attr: FileAttr {
                ino: FUSE_ROOT_ID,
                size: 0,
                atime: now,
                mtime: now,
                ctime: now,
                kind: FileKind::Dir,
                perm: ROOT_PERM,
                nlink: 2,
                uid,
                gid,
                rdev: 0,
            },
            parent: FUSE_ROOT_ID,
            name,
            open_count: 0,
            lookup_count: 0,
            deferred_deletion: false,
            entries: DirData::new(),
            target: Vec::new(),
        }
    }

    /// The record with the given parts, if they make a record that is sound
    /// in itself.
    pub fn from_parts(
        attr: FileAttr,
        parent: u64,
        name: Vec<u8>,
        open_count: u64,
        lookup_count: u64,
        deferred_deletion: bool,
        entries: DirData,
        target: Vec<u8>,
    ) -> (r: Option<Node>)
        requires
            entries.wf(),
        ensures
            ({
                let v = NodeView {
                    attr,
                    parent,
                    name: name@,
                    open_count,
                    lookup_count,
                    deferred_deletion,
                    entries: entries@,
                    target: target@,
                };
                match r {
                    Some(n) => n.wf() && n@ == v,
                    None => !node_wf(v),
                }
            }),
    {
        let is_dir = attr.kind == FileKind::Dir;
        if !is_dir && entries.len() != 0 {
            return None;
        }
        if is_dir && attr.size != entries.len() as u64 {
            return None;
        }
        if attr.kind != FileKind::Symlink && target.len() != 0 {
            return None;
        }
        Some(Node { attr, parent, name, open_count, lookup_count, deferred_deletion, entries, target })
    }

    /// The inode number.
    pub fn get_ino(&self) -> (r: u64)
        ensures
            r == self@.attr.ino,
    {
        self.attr.ino
    }

    /// The inode number of the parent directory.
    pub fn get_parent_ino(&self) -> (r: u64)
        ensures
            r == self@.parent,
    {
        self.parent
    }

    /// The name under which the parent holds the inode.
    pub fn get_name(&self) -> (r: &[u8])
        ensures
            r@ == self@.name,
    {
        self.name.as_slice()
    }

    /// What the inode is.
    pub fn get_type(&self) -> (r: FileKind)
        ensures
            r == self@.attr.kind,
    {
        self.attr.kind
    }

    /// The attribute block.
    pub fn get_attr(&self) -> (r: FileAttr)
        ensures
            r == self@.attr,
    {
        self.attr
    }

    /// The number of opens that have not been released.
    pub fn get_open_count(&self) -> (r: u64)
        ensures
            r == self@.open_count,
    {
        self.open_count
    }

    /// The number of kernel lookups that have not been forgotten.
    pub fn get_lookup_count(&self) -> (r: u64)
        ensures
            r == self@.lookup_count,
    {
        self.lookup_count
    }

    /// Whether the inode is unlinked and only kept for its references.
    pub fn is_deferred_deletion(&self) -> (r: bool)
        ensures
            r == self@.deferred_deletion,
    {
        self.deferred_deletion
    }

    /// The target of a symbolic link.
    pub fn get_symlink_target(&self) -> (r: &[u8])
        ensures
            r@ == self@.target,
    {
        self.target.as_slice()
    }

    /// The directory entry called `name`.
    pub fn get_entry(&self, name: &[u8]) -> (r: Option<&DirEntry>)
        requires
            self.wf(),
        ensures
            entry_ref_view(r) == self@.entry(name@),
    {
        self.entries.get(name)
    }

    /// The number of directory entries.
    pub fn entry_count(&self) -> (r: usize)
        ensures
            r == self@.entries.len(),
    {
        self.entries.len()
    }

    /// The directory entry at position `i` of the listing.
    pub fn entry_at(&self, i: usize) -> (r: &DirEntry)
        requires
            i < self@.entries.len(),
        ensures
            r@ == self@.entries[i as int],
    {
        self.entries.entry(i)
    }

    /// Whether a directory has no entry.
    pub fn is_node_data_empty(&self) -> (r: bool)
        ensures
            r == (self@.entries.len() == 0),
    {
        self.entries.is_empty()
    }

    /// Refuses a name that the directory already holds.
    pub fn check_name_availability(&self, name: &[u8]) -> (r: Result<(), MetaError>)
        requires
            self.wf(),
        ensures
            r == (if self@.entry(name@) is Some {
                Err::<(), MetaError>(MetaError::Posix(Errno::EEXIST))
            } else {
                Ok(())
            }),
    {
        match self.entries.get(name) {
            Some(_) => Err(MetaError::Posix(Errno::EEXIST)),
            None => Ok(()),
        }
    }

    /// Moves the inode under another parent.
    pub fn set_parent_ino(&mut self, parent: u64)
        ensures
            final(self)@ == (NodeView { parent, ..old(self)@ }),
    {
        self.parent = parent;
    }

    /// Gives the inode another name.
    pub fn set_name(&mut self, name: &[u8])
        ensures
            final(self)@ == (NodeView { name: name@, ..old(self)@ }),
    {
        self.name = name_to_vec(name);
    }

    /// Replaces the attribute block.
    pub fn set_attr(&mut self, attr: FileAttr)
        ensures
            final(self)@ == old(self)@.with_attr(attr),
    {
        self.attr = attr;
    }

    /// Counts one more kernel lookup, and hands out the attributes for the
    /// reply.
    pub fn lookup_attr(&mut self) -> (r: FileAttr)
        ensures
            final(self)@ == old(self)@.looked_up(),
            r == old(self)@.attr,
    {
        if self.lookup_count < u64::MAX {
            self.lookup_count = self.lookup_count + 1;
        }
        self.attr
    }

    /// Takes back `nlookup` kernel lookups; the count does not fall below
    /// zero.
    pub fn dec_lookup_count_by(&mut self, nlookup: u64)
        ensures
            final(self)@ == old(self)@.forgotten(nlookup),
    {
        if self.lookup_count >= nlookup {
            self.lookup_count = self.lookup_count - nlookup;
        } else {
            self.lookup_count = 0;
        }
    }

    /// Counts one more open.
    pub fn inc_open_count(&mut self)
        ensures
            final(self)@ == old(self)@.opened(),
    {
        if self.open_count < u64::MAX {
            self.open_count = self.open_count + 1;
        }
    }

    /// Takes back one open; the count does not fall below zero.
    pub fn dec_open_count(&mut self)
        ensures
            final(self)@ == old(self)@.released(),
    {
        if self.open_count >= 1 {
            self.open_count = self.open_count - 1;
        }
    }

    /// Marks the inode as unlinked but still referenced.
    pub fn mark_deferred_deletion(&mut self)
        ensures
            final(self)@ == old(self)@.deferred(),
    {
        self.deferred_deletion = true;
    }

    /// Puts `entry` into the directory, and hands back the entry that had
    /// its name.
    pub fn insert_entry_for_rename(&mut self, entry: DirEntry) -> (prev: Option<DirEntry>)
        requires
            old(self).wf(),
            old(self)@.is_dir(),
        ensures
            final(self).wf(),
            final(self)@ == old(self)@.with_entry(entry@),
            entry_view(prev) == old(self)@.entry(entry@.name),
    {
        let prev = self.entries.insert(entry);
        self.attr.size = self.entries.len() as u64;
        prev
    }

    /// Takes the entry called `name` out of the directory.
    pub fn remove_entry_for_rename(&mut self, name: &[u8]) -> (prev: Option<DirEntry>)
        requires
            old(self).wf(),
            old(self)@.is_dir(),
        ensures
            final(self).wf(),
            final(self)@ == old(self)@.without_entry(name@),
            entry_view(prev) == old(self)@.entry(name@),
    {
        let prev = self.entries.remove(name);
        self.attr.size = self.entries.len() as u64;
        prev
    }

    /// Takes the entry called `name` out of the directory when a child is
    /// unlinked.
    pub fn unlink_entry(&mut self, name: &[u8]) -> (prev: Option<DirEntry>)
        requires
            old(self).wf(),
            old(self)@.is_dir(),
        ensures
            final(self).wf(),
            final(self)@ == old(self)@.without_entry(name@),
            entry_view(prev) == old(self)@.entry(name@),
    {
        self.remove_entry_for_rename(name)
    }

    /// Decides whether this directory can take the inode that `param` asks
    /// for, and of what kind the inode will be.
    pub fn create_pre_check(&self, param: &CreateParam) -> (r: Result<FileKind, MetaError>)
        requires
            self.wf(),
        ensures
            match r {
                Ok(kind) => create_error(self@, param@) is None && check_type_supported_spec(
                    param@.node_type,
                ) == Ok::<FileKind, MetaError>(kind),
                Err(e) => create_error(self@, param@) == Some(e),
            },
    {
        let kind = match check_type_supported(param.node_type) {
            Ok(k) => k,
            Err(e) => {
                return Err(e);
            },
        };
        if self.attr.kind != FileKind::Dir {
            return Err(MetaError::Posix(Errno::ENOTDIR));
        }
        match self.check_name_availability(param.name.as_slice()) {
            Ok(_) => {},
            Err(e) => {
                return Err(e);
            },
        }
        if kind == FileKind::Symlink && param.link.is_none() {
            return Err(MetaError::Posix(Errno::EINVAL));
        }
        Ok(kind)
    }

    /// Makes the inode that `param` asks for under the number `new_ino`, and
    /// enters it into this directory.
    pub fn create_child_node(&mut self, param: &CreateParam, new_ino: u64, now: Timestamp) -> (r:
        Result<Node, MetaError>)
        requires
            old(self).wf(),
        ensures
            final(self).wf(),
            match r {
                Ok(child) => {
                    &&& create_error(old(self)@, param@) is None
                    &&& check_type_supported_spec(param@.node_type) matches Ok(kind)
                    &&& child.wf()
                    &&& child@ == child_node(param@, kind, new_ino, now)
                    &&& final(self)@ == old(self)@.with_entry(
                        DirEntryView { name: param@.name, ino: new_ino, kind },
                    )
                },
                Err(e) => create_error(old(self)@, param@) == Some(e) && final(self)@ == old(self)@,
            },
    {
        let kind = match check_type_supported(param.node_type) {
            Ok(k) => k,
            Err(e) => {
                return Err(e);
            },
        };
        if self.attr.kind != FileKind::Dir {
            return Err(MetaError::Posix(Errno::ENOTDIR));
        }
        if self.entries.get(param.name.as_slice()).is_some() {
            return Err(MetaError::Posix(Errno::EEXIST));
        }
        let target: Vec<u8> = match kind {
            FileKind::Symlink => match &param.link {
                Some(l) => name_to_vec(l.as_slice()),
                None => {
                    return Err(MetaError::Posix(Errno::EINVAL));
                },
            },
            _ => Vec::new(),
        };
        let size: u64 = match kind {
            FileKind::Symlink => target.len() as u64,
            _ => 0,
        };
        let child = Node {
            attr: FileAttr {
                ino: new_ino,
                size,
                atime: now,
                mtime: now,
                ctime: now,
                kind,
                perm: parse_mode_bits(param.mode),
                nlink: match kind {
                    FileKind::Dir => 2,
                    _ => 1,
                },
                uid: param.uid,
                gid: param.gid,
                rdev: param.rdev,
            },
            parent: param.parent,
            name: name_to_vec(param.name.as_slice()),
            open_count: 0,
            lookup_count: 1,
            deferred_deletion: false,
            entries: DirData::new(),
            target,
        };
        let entry = DirEntry::new(name_to_vec(param.name.as_slice()), new_ino, kind);
        self.insert_entry_for_rename(entry);
        Ok(child)
    }

    /// Decides a setattr request: whether it changes anything, and the
    /// attributes that result.
    pub fn setattr_precheck(&self, enforce: bool, param: &SetAttrParam, uid: u32, gid: u32, now: Timestamp)
        -> (r: Result<(bool, FileAttr), MetaError>)
        ensures
            r == (match setattr_error(enforce, self@.attr, *param, uid, gid) {
                Some(e) => Err::<(bool, FileAttr), MetaError>(e),
                None => Ok((setattr_changes(*param), setattr_apply(self@.attr, *param, now))),
            }),
    {
        let chown = param.mode.is_some() || param.uid.is_some() || param.gid.is_some();
        if chown && enforce && uid != 0 && uid != self.attr.uid {
            return Err(MetaError::Posix(Errno::EACCES));
        }
        if param.size.is_some() {
            if self.attr.kind == FileKind::Dir {
                return Err(MetaError::Posix(Errno::EISDIR));
            }
            if self.attr.check_perm(enforce, uid, gid, 2).is_err() {
                return Err(MetaError::Posix(Errno::EACCES));
            }
        }
        let changed = chown || param.size.is_some() || param.atime.is_some() || param.mtime.is_some();
        let mut attr = self.attr;
        if let Some(m) = param.mode {
            attr.perm = parse_mode_bits(m);
        }
        if let Some(u) = param.uid {
            attr.uid = u;
        }
        if let Some(g) = param.gid {
            attr.gid = g;
        }
        if let Some(s) = param.size {
            attr.size = s;
        }
        if let Some(t) = param.atime {
            attr.atime = t;
        }
        if let Some(t) = param.mtime {
            attr.mtime = t;
        }
        if changed {
            attr.ctime = now;
        }
        Ok((changed, attr))
    }

    /// Records a write that ends at byte `end`, made at time `now`.
    pub fn record_write(&mut self, end: u64, now: Timestamp)
        ensures
            final(self)@ == old(self)@.written(end, now),
    {
        if end > self.attr.size {
            self.attr.size = end;
        }
        self.attr.mtime = now;
        self.attr.ctime = now;
    }

    /// An owned copy of the record.
    pub fn clone_node(&self) -> (n: Node)
        ensures
            n@ == self@,
    {
        Node {
            attr: self.attr,
            parent: self.parent,
            name: name_to_vec(self.name.as_slice()),
            open_count: self.open_count,
            lookup_count: self.lookup_count,
            deferred_deletion: self.deferred_deletion,
            entries: self.entries.clone_dir(),
            target: name_to_vec(self.target.as_slice()),
        }
    }
}

} // verus!
