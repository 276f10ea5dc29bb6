//! The handlers that work on one inode, or find one by name: the root
//! bootstrap, lookup, forget, getattr, setattr, open, release, flush, readlink,
//! statfs, and the range of a read.

use vstd::prelude::*;
use crate::arith::{cast_i64_to_u64, cast_u32_to_u64, overflow_add_u64, overflow_sub_u64};
use crate::attr::{
    check_perm_spec, convert_to_fuse_attr, fuse_attr_of, open_pre_check_spec, parse_oflag,
    parse_oflag_spec, FileKind, ReqContext, Timestamp, MAX_NAME_LENGTH, MY_GENERATION, MY_TTL_SEC,
};
use crate::error::{Errno, MetaError};
use crate::meta::{get_inode_spec, settled, AttrReply, EntryReply, MetaView, S3MetaData};
use crate::name::name_to_vec;
use crate::node::{root_node, setattr_apply, setattr_error, Node, SetAttrParam, FUSE_ROOT_ID};
use crate::txn::{Effect, EffectView, Fetch, Fetched, MetaTxn, Step, TxnView};

verus! {

/// The figures of the volume that a statfs reply reports.
#[derive(Clone, Copy, Debug, PartialEq, Eq, Structural)]
pub struct VolumeStat {
    /// The capacity of the volume in bytes.
    pub capacity: u64,
    /// The bytes that are free.
    pub free: u64,
    /// The number of inodes.
    pub files: u64,
}

/// The reply to a statfs request.
#[derive(Clone, Copy, Debug, PartialEq, Eq, Structural)]
pub struct StatFsParam {
    pub capacity: u64,
    pub free: u64,
    pub files: u64,
    /// The longest name that the filesystem takes.
    pub namelen: u32,
}

/// The byte range of a file that a read is to fetch.
#[derive(Clone, Copy, Debug, PartialEq, Eq, Structural)]
pub struct ReadPlan {
    pub offset: u64,
    pub size: u64,
}

/// Whether the first mount has to make the root directory: a stop to read its
/// key, then `true` where the store has no root yet.
pub open spec fn init_root_outcome(t: TxnView) -> Step<bool> {
    match t.fetch(FUSE_ROOT_ID) {
        Fetch::Unread => Step::Need(FUSE_ROOT_ID),
        Fetch::Absent => Step::Done(Ok(true)),
        Fetch::Present(_) => Step::Done(Ok(false)),
    }
}

/// The transaction after the root bootstrap: a store without a root gets one,
/// a store with a root is left alone.
pub open spec fn init_root_post(m: MetaView, t: TxnView, now: Timestamp) -> TxnView {
    if t.fetch(FUSE_ROOT_ID) is Absent {
        t.put(FUSE_ROOT_ID, root_node(m.root_uid, m.root_gid, now))
    } else {
        t
    }
}

/// The outcome of a request that only needs the record of `ino` to exist.
pub open spec fn inode_outcome(t: TxnView, ino: u64) -> Step<()> {
    match get_inode_spec(t, ino) {
        Step::Done(Ok(_)) => Step::Done(Ok(())),
        other => other.forwarded(),
    }
}

/// The reply to getattr: the attributes of the record of `ino`.
pub open spec fn getattr_outcome(t: TxnView, ino: u64) -> Step<AttrReply> {
    match get_inode_spec(t, ino) {
        Step::Done(Ok(n)) => Step::Done(Ok(AttrReply { ttl: MY_TTL_SEC, attr: fuse_attr_of(n.attr) })),
        other => other.forwarded(),
    }
}

/// The transaction after the kernel forgot `nlookup` lookups of `ino`.
pub open spec fn forget_post(t: TxnView, ino: u64, nlookup: u64) -> TxnView {
    settled(t, ino, t.node(ino).forgotten(nlookup))
}

/// The transaction after the release of a handle of the file `ino`: with
/// `flush`, the pending data of the handle is to be written out first.
pub open spec fn release_post(t: TxnView, ino: u64, fh: u64, flush: bool) -> TxnView {
    let t1 = if flush {
        t.emit(EffectView::FlushFile { ino, fh })
    } else {
        t
    };
    settled(t1, ino, t.node(ino).released())
}

/// The transaction after the release of a handle of the directory `ino`.
pub open spec fn releasedir_post(t: TxnView, ino: u64) -> TxnView {
    settled(t, ino, t.node(ino).released())
}

/// The transaction after a flush or fsync of the handle `fh` of `ino`.
pub open spec fn flush_post(t: TxnView, ino: u64, fh: u64) -> TxnView {
    t.emit(EffectView::FlushFile { ino, fh })
}

/// The file handle after `fd`; the counter starts over after the last one.
pub open spec fn next_fd(fd: u32) -> u32 {
    if fd == u32::MAX {
        0
    } else {
        (fd + 1) as u32
    }
}

/// The outcome of an open of `ino` with `flags` by `ctx`: the next file
/// handle, where the flags name an access mode that the inode grants.
pub open spec fn open_outcome(m: MetaView, t: TxnView, ctx: ReqContext, ino: u64, flags: u32) -> Step<
    u32,
> {
    match get_inode_spec(t, ino) {
        Step::Done(Ok(n)) => match open_pre_check_spec(
            m.need_check_perm,
            n.attr,
            parse_oflag_spec(flags),
            ctx.uid,
            ctx.gid,
        ) {
            Err(e) => Step::Done(Err(e)),
            Ok(_) => Step::Done(Ok(m.cur_fd)),
        },
        other => other.forwarded(),
    }
}

/// The transaction after an open of `ino`.
pub open spec fn open_post(t: TxnView, ino: u64) -> TxnView {
    t.put(ino, t.node(ino).opened())
}

/// The outcome of a setattr of `ino` by `ctx` at time `now`: the attributes
/// that result.
pub open spec fn setattr_outcome(
    m: MetaView,
    t: TxnView,
    ctx: ReqContext,
    ino: u64,
    p: SetAttrParam,
    now: Timestamp,
) -> Step<AttrReply> {
    match get_inode_spec(t, ino) {
        Step::Done(Ok(n)) => match setattr_error(m.need_check_perm, n.attr, p, ctx.uid, ctx.gid) {
            Some(e) => Step::Done(Err(e)),
            None => Step::Done(
                Ok(AttrReply { ttl: MY_TTL_SEC, attr: fuse_attr_of(setattr_apply(n.attr, p, now)) }),
            ),
        },
        other => other.forwarded(),
    }
}

/// The transaction after a setattr of `ino`: the record has the new
/// attributes, and where the size changes the payload is to be cut to it.
pub open spec fn setattr_post(t: TxnView, ino: u64, p: SetAttrParam, now: Timestamp) -> TxnView {
    let n = t.node(ino);
    let t1 = t.put(ino, n.with_attr(setattr_apply(n.attr, p, now)));
    if p.size is Some && p.size->0 != n.attr.size {
        t1.emit(EffectView::TruncateObject { ino, size: p.size->0 })
    } else {
        t1
    }
}

/// What a lookup of `name` in the directory `parent` by a process with `uid`
/// and `gid` finds: the inode number and kind of the entry. The parent must
/// exist (else the catalog is inconsistent), be a directory (`ENOTDIR`), and
/// grant search permission (`EACCES`); a name without an entry is `ENOENT`.
pub open spec fn lookup_pre_check_spec(
    m: MetaView,
    t: TxnView,
    parent: u64,
    name: Seq<u8>,
    uid: u32,
    gid: u32,
) -> Step<(u64, FileKind)> {
    match get_inode_spec(t, parent) {
        Step::Done(Ok(p)) => if !p.is_dir() {
            Step::Done(Err(MetaError::Posix(Errno::ENOTDIR)))
        } else if check_perm_spec(m.need_check_perm, p.attr, uid, gid, 1) is Err {
            Step::Done(Err(MetaError::Posix(Errno::EACCES)))
        } else {
            match p.entry(name) {
                None => Step::Done(Err(MetaError::Posix(Errno::ENOENT))),
                Some(e) => Step::Done(Ok((e.ino, e.kind))),
            }
        },
        other => other.forwarded(),
    }
}

/// The outcome of a lookup: the attributes of the inode that the entry names.
pub open spec fn lookup_outcome(m: MetaView, t: TxnView, ctx: ReqContext, parent: u64, name: Seq<u8>)
    -> Step<EntryReply> {
    match lookup_pre_check_spec(m, t, parent, name, ctx.uid, ctx.gid) {
        Step::Done(Ok((ino, _))) => match get_inode_spec(t, ino) {
            Step::Done(Ok(c)) => Step::Done(
                Ok(EntryReply { ttl: MY_TTL_SEC, attr: fuse_attr_of(c.attr), generation: MY_GENERATION }),
            ),
            other => other.forwarded(),
        },
        other => other.forwarded(),
    }
}

/// The transaction after a lookup of `name` in `parent`: the inode that the
/// entry names counts one more kernel lookup.
pub open spec fn lookup_post(t: TxnView, parent: u64, name: Seq<u8>) -> TxnView {
    let ino = t.node(parent).entry(name)->0.ino;
    t.put(ino, t.node(ino).looked_up())
}

/// The target of the symbolic link `ino`; an inode of another kind is
/// refused with `EINVAL`.
pub open spec fn readlink_outcome(t: TxnView, ino: u64) -> Step<Seq<u8>> {
    match get_inode_spec(t, ino) {
        Step::Done(Ok(n)) => if n.attr.kind == FileKind::Symlink {
            Step::Done(Ok(n.target))
        } else {
            Step::Done(Err(MetaError::Posix(Errno::EINVAL)))
        },
        other => other.forwarded(),
    }
}

/// The value of a step that carries bytes.
pub open spec fn bytes_step_view(s: Step<Vec<u8>>) -> Step<Seq<u8>> {
    match s {
        Step::Need(k) => Step::Need(k),
        Step::NeedInum => Step::NeedInum,
        Step::Done(Err(e)) => Step::Done(Err(e)),
        Step::Done(Ok(v)) => Step::Done(Ok(v@)),
    }
}

/// The reply to statfs on `ino` by `ctx`: the figures of the volume and the
/// longest name, where the inode grants read and search permission.
pub open spec fn statfs_outcome(m: MetaView, t: TxnView, ctx: ReqContext, ino: u64, stat: VolumeStat)
    -> Step<StatFsParam> {
    match get_inode_spec(t, ino) {
        Step::Done(Ok(n)) => if check_perm_spec(m.need_check_perm, n.attr, ctx.uid, ctx.gid, 5) is Err {
            Step::Done(Err(MetaError::Posix(Errno::EACCES)))
        } else {
            Step::Done(
                Ok(
                    StatFsParam {
                        capacity: stat.capacity,
                        free: stat.free,
                        files: stat.files,
                        namelen: MAX_NAME_LENGTH as u32,
                    },
                ),
            )
        },
        other => other.forwarded(),
    }
}

/// The range that a read of `size` bytes at `offset` fetches from a file of
/// `file_size` bytes: it starts at `offset` and ends at the end of the file at
/// the latest.
pub open spec fn clamp_read(file_size: u64, offset: u64, size: u32) -> ReadPlan {
    ReadPlan {
        offset,
        size: if offset + size <= file_size {
            size as u64
        } else if offset <= file_size {
            (file_size - offset) as u64
        } else {
            0
        },
    }
}

/// The outcome of planning a read of `ino`: a negative offset is refused with
/// `EINVAL`.
pub open spec fn read_outcome(t: TxnView, ino: u64, offset: i64, size: u32) -> Step<ReadPlan> {
    match get_inode_spec(t, ino) {
        Step::Done(Ok(n)) => if offset < 0 {
            Step::Done(Err(MetaError::Posix(Errno::EINVAL)))
        } else {
            Step::Done(Ok(clamp_read(n.attr.size, offset as u64, size)))
        },
        other => other.forwarded(),
    }
}

impl S3MetaData {
    /// The root bootstrap of a mount: makes the root directory where the
    /// store has none, and leaves an existing root alone. Returns whether it
    /// made one.
    pub fn init_root(&self, txn: &mut MetaTxn, now: Timestamp) -> (r: Step<bool>)
        requires
            old(txn).wf(),
        ensures
            final(txn).wf(),
            r == init_root_outcome(old(txn)@),
            final(txn)@ == init_root_post(self@, old(txn)@, now),
            !r.is_ok() ==> final(txn)@ == old(txn)@,
    {
        match txn.get(FUSE_ROOT_ID) {
            Fetched::Unread => Step::Need(FUSE_ROOT_ID),
            Fetched::Present(_) => Step::Done(Ok(false)),
            Fetched::Absent => {
                let root = Node::open_root_node(self.root_uid(), self.root_gid(), now);
                txn.set(FUSE_ROOT_ID, root);
                Step::Done(Ok(true))
            },
        }
    }

    /// The attributes of `ino`.
    pub fn getattr(&self, txn: &MetaTxn, ino: u64) -> (r: Step<AttrReply>)
        requires
            txn.wf(),
        ensures
            r == getattr_outcome(txn@, ino),
    {
        let inode = match self.get_inode_from_txn(txn, ino).into_value() {
            Ok(n) => n,
            Err(s) => {
                return s;
            },
        };
        Step::Done(Ok(AttrReply { ttl: MY_TTL_SEC, attr: convert_to_fuse_attr(inode.get_attr()) }))
    }

    /// The kernel forgets `nlookup` lookups of `ino`. The count does not fall
    /// below zero. An unlinked inode that no open and no lookup refers to any
    /// more leaves the store.
    pub fn forget(&self, txn: &mut MetaTxn, ino: u64, nlookup: u64) -> (r: Step<()>)
        requires
            old(txn).wf(),
        ensures
            final(txn).wf(),
            r == inode_outcome(old(txn)@, ino),
            final(txn)@ == if r.is_ok() {
                forget_post(old(txn)@, ino, nlookup)
            } else {
                old(txn)@
            },
    {
        let mut inode = match self.get_inode_from_txn(txn, ino).into_value() {
            Ok(n) => n,
            Err(s) => {
                return s;
            },
        };
        inode.dec_lookup_count_by(nlookup);
        self.settle(txn, ino, inode);
        Step::Done(Ok(()))
    }

    /// Releases the handle `fh` of the file `ino`. With `flush`, its pending
    /// data is to be written to the object store before the commit. An
    /// unlinked inode that no open and no lookup refers to any more leaves
    /// the store.
    pub fn release(&self, txn: &mut MetaTxn, ino: u64, fh: u64, flush: bool) -> (r: Step<()>)
        requires
            old(txn).wf(),
        ensures
            final(txn).wf(),
            r == inode_outcome(old(txn)@, ino),
            final(txn)@ == if r.is_ok() {
                release_post(old(txn)@, ino, fh, flush)
            } else {
                old(txn)@
            },
    {
        let mut inode = match self.get_inode_from_txn(txn, ino).into_value() {
            Ok(n) => n,
            Err(s) => {
                return s;
            },
        };
        inode.dec_open_count();
        if flush {
            txn.emit(Effect::FlushFile { ino, fh });
        }
        self.settle(txn, ino, inode);
        Step::Done(Ok(()))
    }

    /// Releases the handle `fh` of the directory `ino`. An unlinked
    /// directory that no open and no lookup refers to any more leaves the
    /// store.
    pub fn releasedir(&self, txn: &mut MetaTxn, ino: u64, fh: u64) -> (r: Step<()>)
        requires
            old(txn).wf(),
        ensures
            final(txn).wf(),
            r == inode_outcome(old(txn)@, ino),
            final(txn)@ == if r.is_ok() {
                releasedir_post(old(txn)@, ino)
            } else {
                old(txn)@
            },
    {
        let mut node = match self.get_inode_from_txn(txn, ino).into_value() {
            Ok(n) => n,
            Err(s) => {
                return s;
            },
        };
        node.dec_open_count();
        self.settle(txn, ino, node);
        Step::Done(Ok(()))
    }

    /// Asks for the pending data of the handle `fh` of `ino` to be written
    /// to the object store. The catalog is not changed.
    pub fn flush(&self, txn: &mut MetaTxn, ino: u64, fh: u64) -> (r: Step<()>)
        requires
            old(txn).wf(),
        ensures
            final(txn).wf(),
            r == inode_outcome(old(txn)@, ino),
            final(txn)@ == if r.is_ok() {
                flush_post(old(txn)@, ino, fh)
            } else {
                old(txn)@
            },
    {
        match self.get_inode_from_txn(txn, ino).into_value() {
            Ok(_) => {},
            Err(s) => {
                return s;
            },
        };
        txn.emit(Effect::FlushFile { ino, fh });
        Step::Done(Ok(()))
    }

    /// Asks for the pending data of the handle `fh` of `ino` to reach the
    /// object store, as [`Self::flush`] does.
    pub fn fsync_helper(&self, txn: &mut MetaTxn, ino: u64, fh: u64, datasync: bool) -> (r: Step<()>)
        requires
            old(txn).wf(),
        ensures
            final(txn).wf(),
            r == inode_outcome(old(txn)@, ino),
            final(txn)@ == if r.is_ok() {
                flush_post(old(txn)@, ino, fh)
            } else {
                old(txn)@
            },
    {
        self.flush(txn, ino, fh)
    }

    /// Opens the file `ino` with `flags` for the process `context`: checks
    /// the access that the flags ask for, counts the open, and hands out the
    /// next file handle.
    pub fn open(&mut self, txn: &mut MetaTxn, context: ReqContext, ino: u64, flags: u32) -> (r: Step<u32>)
        requires
            old(txn).wf(),
        ensures
            final(txn).wf(),
            r == open_outcome(old(self)@, old(txn)@, context, ino, flags),
            final(txn)@ == if r.is_ok() {
                open_post(old(txn)@, ino)
            } else {
                old(txn)@
            },
            final(self)@ == if r.is_ok() {
                MetaView { cur_fd: next_fd(old(self)@.cur_fd), ..old(self)@ }
            } else {
                old(self)@
            },
    {
        let mut node = match self.get_inode_from_txn(txn, ino).into_value() {
            Ok(n) => n,
            Err(s) => {
                return s;
            },
        };
        let o_flags = parse_oflag(flags);
        match node.get_attr().open_pre_check(self.need_check_perm(), o_flags, context.uid, context.gid) {
            Ok(_) => {},
            Err(e) => {
                return Step::Done(Err(e));
            },
        }
        let fd = self.dup_fd(&mut node);
        txn.set(ino, node);
        Step::Done(Ok(fd))
    }

    /// Opens the directory `ino`, as [`Self::open`] opens a file.
    pub fn opendir(&mut self, txn: &mut MetaTxn, context: ReqContext, ino: u64, flags: u32) -> (r: Step<
        u32,
    >)
        requires
            old(txn).wf(),
        ensures
            final(txn).wf(),
            r == open_outcome(old(self)@, old(txn)@, context, ino, flags),
            final(txn)@ == if r.is_ok() {
                open_post(old(txn)@, ino)
            } else {
                old(txn)@
            },
            final(self)@ == if r.is_ok() {
                MetaView { cur_fd: next_fd(old(self)@.cur_fd), ..old(self)@ }
            } else {
                old(self)@
            },
    {
        self.open(txn, context, ino, flags)
    }

    /// Changes the attributes of `ino` as `param` asks, for the process
    /// `context` at time `now`.
    pub fn setattr_helper(
        &self,
        txn: &mut MetaTxn,
        context: ReqContext,
        ino: u64,
        param: &SetAttrParam,
        now: Timestamp,
    ) -> (r: Step<AttrReply>)
        requires
            old(txn).wf(),
        ensures
            final(txn).wf(),
            r == setattr_outcome(self@, old(txn)@, context, ino, *param, now),
            final(txn)@ == if r.is_ok() {
                setattr_post(old(txn)@, ino, *param, now)
            } else {
                old(txn)@
            },
    {
        let mut inode = match self.get_inode_from_txn(txn, ino).into_value() {
            Ok(n) => n,
            Err(s) => {
                return s;
            },
        };
        let old_size = inode.get_attr().size;
        let (attr_changed, file_attr) = match inode.setattr_precheck(
            self.need_check_perm(),
            param,
            context.uid,
            context.gid,
            now,
        ) {
            Ok(x) => x,
            Err(e) => {
                return Step::Done(Err(e));
            },
        };
        if attr_changed {
            inode.set_attr(file_attr);
        }
        txn.set(ino, inode);
        if let Some(size) = param.size {
            if size != old_size {
                txn.emit(Effect::TruncateObject { ino, size });
            }
        }
        Step::Done(Ok(AttrReply { ttl: MY_TTL_SEC, attr: convert_to_fuse_attr(file_attr) }))
    }

    /// Finds the entry `name` of the directory `parent` for a process with
    /// `user_id` and `group_id`.
    pub fn lookup_pre_check(&self, txn: &MetaTxn, parent: u64, name: &[u8], user_id: u32, group_id: u32)
        -> (r: Step<(u64, FileKind)>)
        requires
            txn.wf(),
        ensures
            r == lookup_pre_check_spec(self@, txn@, parent, name@, user_id, group_id),
    {
        let parent_node = match self.get_inode_from_txn(txn, parent).into_value() {
            Ok(n) => n,
            Err(s) => {
                return s;
            },
        };
        if parent_node.get_type() != FileKind::Dir {
            return Step::Done(Err(MetaError::Posix(Errno::ENOTDIR)));
        }
        if parent_node.get_attr().check_perm(self.need_check_perm(), user_id, group_id, 1).is_err() {
            return Step::Done(Err(MetaError::Posix(Errno::EACCES)));
        }
        match parent_node.get_entry(name) {
            Some(child_entry) => Step::Done(Ok((child_entry.ino(), child_entry.entry_type()))),
            None => Step::Done(Err(MetaError::Posix(Errno::ENOENT))),
        }
    }

    /// Looks `child_name` up in the directory `parent` for the process
    /// `context`, and counts the lookup on the inode found.
    pub fn lookup_helper(&self, txn: &mut MetaTxn, context: ReqContext, parent: u64, child_name: &[u8])
        -> (r: Step<EntryReply>)
        requires
            old(txn).wf(),
        ensures
            final(txn).wf(),
            r == lookup_outcome(self@, old(txn)@, context, parent, child_name@),
            final(txn)@ == if r.is_ok() {
                lookup_post(old(txn)@, parent, child_name@)
            } else {
                old(txn)@
            },
    {
        let (child_ino, _) = match self.lookup_pre_check(
            txn,
            parent,
            child_name,
            context.uid,
            context.gid,
        ).into_value() {
            Ok(x) => x,
            Err(s) => {
                return s;
            },
        };
        let mut child_node = match self.get_inode_from_txn(txn, child_ino).into_value() {
            Ok(n) => n,
            Err(s) => {
                return s;
            },
        };
        let attr = child_node.lookup_attr();
        txn.set(child_ino, child_node);
        Step::Done(
            Ok(EntryReply { ttl: MY_TTL_SEC, attr: convert_to_fuse_attr(attr), generation: MY_GENERATION }),
        )
    }

    /// The target of the symbolic link `ino`.
    pub fn readlink(&self, txn: &MetaTxn, ino: u64) -> (r: Step<Vec<u8>>)
        requires
            txn.wf(),
        ensures
            bytes_step_view(r) == readlink_outcome(txn@, ino),
    {
        let node = match self.get_inode_from_txn(txn, ino).into_value() {
            Ok(n) => n,
            Err(s) => {
                return s;
            },
        };
        if node.get_type() != FileKind::Symlink {
            return Step::Done(Err(MetaError::Posix(Errno::EINVAL)));
        }
        Step::Done(Ok(name_to_vec(node.get_symlink_target())))
    }

    /// The statfs reply for a request on `ino` by `context`, from the figures
    /// `stat` of the volume.
    pub fn statfs(&self, txn: &MetaTxn, context: ReqContext, ino: u64, stat: VolumeStat) -> (r: Step<
        StatFsParam,
    >)
        requires
            txn.wf(),
        ensures
            r == statfs_outcome(self@, txn@, context, ino, stat),
    {
        let node = match self.get_inode_from_txn(txn, ino).into_value() {
            Ok(n) => n,
            Err(s) => {
                return s;
            },
        };
        if node.get_attr().check_perm(self.need_check_perm(), context.uid, context.gid, 5).is_err() {
            return Step::Done(Err(MetaError::Posix(Errno::EACCES)));
        }
        Step::Done(
            Ok(StatFsParam { capacity: stat.capacity, free: stat.free, files: stat.files, namelen: 255 }),
        )
    }

    /// Plans a read of `size` bytes at `offset` of the file `ino`: the range
    /// to fetch, cut at the end of the file.
    pub fn read_helper(&self, txn: &MetaTxn, ino: u64, fh: u64, offset: i64, size: u32) -> (r: Step<
        ReadPlan,
    >)
        requires
            txn.wf(),
        ensures
            r == read_outcome(txn@, ino, offset, size),
    {
        let inode = match self.get_inode_from_txn(txn, ino).into_value() {
            Ok(n) => n,
            Err(s) => {
                return s;
            },
        };
        if offset < 0 {
            return Step::Done(Err(MetaError::Posix(Errno::EINVAL)));
        }
        let start: u64 = cast_i64_to_u64(offset);
        let wanted: u64 = cast_u32_to_u64(size);
        let file_size: u64 = inode.get_attr().size;
        let size: u64 = if overflow_add_u64(start, wanted) > file_size {
            if start <= file_size {
                overflow_sub_u64(file_size, start)
            } else {
                0
            }
        } else {
            wanted
        };
        Step::Done(Ok(ReadPlan { offset: start, size }))
    }
}

} // verus!
