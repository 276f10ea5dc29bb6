//! The metadata layer of one mount, and the parts that every handler shares.

use vstd::prelude::*;
use crate::attr::{sticky_denies, FileAttr, FileKind, FuseAttr, ReqContext, S_ISVTX};
use crate::error::{Errno, MetaError};
use crate::name::name_to_vec;
use crate::node::{Node, NodeView};
use crate::txn::{Effect, EffectView, Fetch, Fetched, MetaTxn, Step, TxnView};

verus! {

/// The first file handle that a mount hands out.
pub const FIRST_FD: u32 = 4;

/// The block size of the data cache where the configuration names none.
pub const DEFAULT_BLOCK_SIZE: i64 = 10_485_760;

/// Rename flag: fail if the new name exists.
pub const RENAME_NOREPLACE: u32 = 1;

/// Rename flag: swap the two entries.
pub const RENAME_EXCHANGE: u32 = 2;

/// The reply to a lookup or a creation.
#[derive(Clone, Copy, Debug, PartialEq, Eq, Structural)]
pub struct EntryReply {
    /// Seconds for which the kernel may cache the entry.
    pub ttl: u64,
    pub attr: FuseAttr,
    pub generation: u64,
}

/// The reply to a getattr or a setattr.
#[derive(Clone, Copy, Debug, PartialEq, Eq, Structural)]
pub struct AttrReply {
    /// Seconds for which the kernel may cache the attributes.
    pub ttl: u64,
    pub attr: FuseAttr,
}

/// What a rename request asks for.
#[derive(Debug)]
pub struct RenameParam {
    pub old_parent: u64,
    pub old_name: Vec<u8>,
    pub new_parent: u64,
    pub new_name: Vec<u8>,
    pub flags: u32,
}

/// The mathematical value of a [`RenameParam`].
pub struct RenameParamView {
    pub old_parent: u64,
    pub old_name: Seq<u8>,
    pub new_parent: u64,
    pub new_name: Seq<u8>,
    pub flags: u32,
}

impl View for RenameParam {
    type V = RenameParamView;

    open spec fn view(&self) -> RenameParamView {
        RenameParamView {
            old_parent: self.old_parent,
            old_name: self.old_name@,
            new_parent: self.new_parent,
            new_name: self.new_name@,
            flags: self.flags,
        }
    }
}

/// The state of the metadata layer of one mount.
#[derive(Debug)]
pub struct S3MetaData {
    cur_fd: u32,
    fuse_fd: i32,
    need_check_perm: bool,
    block_size: i64,
    root_uid: u32,
    root_gid: u32,
}

/// The mathematical value of an [`S3MetaData`].
pub struct MetaView {
    /// The next file handle to hand out.
    pub cur_fd: u32,
    /// The descriptor of the kernel device, or -1 before it is known.
    pub fuse_fd: i32,
    /// Whether permissions and the sticky bit are enforced.
    pub need_check_perm: bool,
    /// The block size of the data cache, the unit of cache invalidation.
    pub block_size: i64,
    /// The owner of the root directory.
    pub root_uid: u32,
    /// The group of the root directory.
    pub root_gid: u32,
}

impl View for S3MetaData {
    type V = MetaView;

    closed spec fn view(&self) -> MetaView {
        MetaView {
            cur_fd: self.cur_fd,
            fuse_fd: self.fuse_fd,
            need_check_perm: self.need_check_perm,
            block_size: self.block_size,
            root_uid: self.root_uid,
            root_gid: self.root_gid,
        }
    }
}

/// What reading a record that must exist gives: the record, a stop where the
/// transaction has not read the key, a failure where the store has none.
pub open spec fn get_inode_spec(t: TxnView, ino: u64) -> Step<NodeView> {
    match t.fetch(ino) {
        Fetch::Unread => Step::Need(ino),
        Fetch::Absent => Step::Done(Err(MetaError::InconsistentFS { ino })),
        Fetch::Present(n) => Step::Done(Ok(n)),
    }
}

/// What reading a record that may be missing gives.
pub open spec fn try_get_inode_spec(t: TxnView, ino: u64) -> Step<Option<NodeView>> {
    match t.fetch(ino) {
        Fetch::Unread => Step::Need(ino),
        Fetch::Absent => Step::Done(Ok(None)),
        Fetch::Present(n) => Step::Done(Ok(Some(n))),
    }
}

/// The value of a step that carries a record.
pub open spec fn node_step_view(s: Step<Node>) -> Step<NodeView> {
    match s {
        Step::Need(k) => Step::Need(k),
        Step::NeedInum => Step::NeedInum,
        Step::Done(Err(e)) => Step::Done(Err(e)),
        Step::Done(Ok(n)) => Step::Done(Ok(n@)),
    }
}

/// The value of a step that carries a record that may be missing.
pub open spec fn opt_node_step_view(s: Step<Option<Node>>) -> Step<Option<NodeView>> {
    match s {
        Step::Need(k) => Step::Need(k),
        Step::NeedInum => Step::NeedInum,
        Step::Done(Err(e)) => Step::Done(Err(e)),
        Step::Done(Ok(None)) => Step::Done(Ok(None)),
        Step::Done(Ok(Some(n))) => Step::Done(Ok(Some(n@))),
    }
}

/// The outcome of the sticky-bit check for a request by `ctx` on an entry of
/// the directory `parent` that names an inode owned by `child_uid`.
pub open spec fn check_sticky_bit_spec(enforce: bool, ctx: ReqContext, parent: FileAttr, child_uid: u32)
    -> Result<(), MetaError> {
    if sticky_denies(enforce, ctx.uid, parent, child_uid) {
        Err(MetaError::Posix(Errno::EACCES))
    } else {
        Ok(())
    }
}

/// The transaction after the inode `n`, held under the key `ino`, left the
/// store: its key is deleted, and for a file the cached blocks and the payload
/// object are to go.
pub open spec fn removal(t: TxnView, ino: u64, n: NodeView) -> TxnView {
    if n.attr.kind == FileKind::File {
        t.del(ino).emit(EffectView::RemoveFileCache { ino }).emit(EffectView::DeleteObject { ino })
    } else {
        t.del(ino)
    }
}

/// The transaction after a reference to the inode `n` under the key `ino` was
/// dropped: a record that was unlinked and has no reference left leaves the
/// store, any other is written back.
pub open spec fn settled(t: TxnView, ino: u64, n: NodeView) -> TxnView {
    if n.deferred_deletion && n.unreferenced() {
        removal(t, ino, n)
    } else {
        t.put(ino, n)
    }
}

impl S3MetaData {
    /// The block size is positive.
    pub open spec fn wf(&self) -> bool {
        self@.block_size > 0
    }

    /// The metadata layer of a fresh mount: the first handle is
    /// [`FIRST_FD`], the kernel device is not known yet. A block size that is
    /// not positive is refused as a configuration error.
    pub fn new(block_size: i64, root_uid: u32, root_gid: u32, need_check_perm: bool) -> (r: Result<
        S3MetaData,
        MetaError,
    >)
        ensures
            match r {
                Ok(m) => block_size > 0 && m.wf() && m@ == (MetaView {
                    cur_fd: FIRST_FD,
                    fuse_fd: -1i32,
                    need_check_perm,
                    block_size,
                    root_uid,
                    root_gid,
                }),
                Err(e) => block_size <= 0 && e == MetaError::Config,
            },
    {
        if block_size <= 0 {
            return Err(MetaError::Config);
        }
        Ok(
            S3MetaData {
                cur_fd: FIRST_FD,
                fuse_fd: -1,
                need_check_perm,
                block_size,
                root_uid,
                root_gid,
            },
        )
    }

    /// Records the descriptor of the kernel device.
    pub fn set_fuse_fd(&mut self, fuse_fd: i32)
        ensures
            final(self)@ == (MetaView { fuse_fd, ..old(self)@ }),
    {
        self.fuse_fd = fuse_fd;
    }

    /// The next file handle to hand out.
    pub fn cur_fd(&self) -> (r: u32)
        ensures
            r == self@.cur_fd,
    {
        self.cur_fd
    }

    /// The block size of the data cache.
    pub fn block_size(&self) -> (r: i64)
        ensures
            r == self@.block_size,
    {
        self.block_size
    }

    /// Whether permissions and the sticky bit are enforced.
    pub fn need_check_perm(&self) -> (r: bool)
        ensures
            r == self@.need_check_perm,
    {
        self.need_check_perm
    }

    /// The descriptor of the kernel device.
    pub fn fuse_fd(&self) -> (r: i32)
        ensures
            r == self@.fuse_fd,
    {
        self.fuse_fd
    }

    /// The owner of the root directory.
    pub fn root_uid(&self) -> (r: u32)
        ensures
            r == self@.root_uid,
    {
        self.root_uid
    }

    /// The group of the root directory.
    pub fn root_gid(&self) -> (r: u32)
        ensures
            r == self@.root_gid,
    {
        self.root_gid
    }

    /// Takes the next inode number from the counter value `stored` that was
    /// read from the store.
    pub fn alloc_inum(&self, stored: Option<u64>) -> (r: Result<crate::inum::InumGrant, MetaError>)
        ensures
            r == crate::inum::alloc_spec(stored),
    {
        crate::inum::INumAllocator::new().alloc_inum_for_fnode(stored)
    }

    /// Counts one more open on `node` and hands out the next file handle.
    pub fn dup_fd(&mut self, node: &mut Node) -> (fd: u32)
        ensures
            fd == old(self)@.cur_fd,
            final(self)@ == (MetaView { cur_fd: crate::access::next_fd(old(self)@.cur_fd), ..old(self)@ }),
            final(node)@ == old(node)@.opened(),
    {
        let fd = self.cur_fd;
        self.cur_fd = if fd == u32::MAX {
            0
        } else {
            fd + 1
        };
        node.inc_open_count();
        fd
    }

    /// Reads the record of `inum` through the transaction.
    pub fn get_node_from_kv_engine(&self, txn: &MetaTxn, inum: u64) -> (r: Step<Option<Node>>)
        requires
            txn.wf(),
        ensures
            opt_node_step_view(r) == try_get_inode_spec(txn@, inum),
            r matches Step::Done(Ok(Some(n))) ==> n.wf(),
    {
        self.try_get_inode_from_txn(txn, inum)
    }

    /// Stages the record `node` under `inum`.
    pub fn set_node_to_kv_engine(&self, txn: &mut MetaTxn, inum: u64, node: Node)
        requires
            old(txn).wf(),
            node.wf(),
        ensures
            final(txn).wf(),
            final(txn)@ == old(txn)@.put(inum, node@),
    {
        txn.set(inum, node);
    }

    /// Stages the deletion of the record of `inum`.
    pub fn remove_node_from_kv_engine(&self, txn: &mut MetaTxn, inum: u64)
        requires
            old(txn).wf(),
        ensures
            final(txn).wf(),
            final(txn)@ == old(txn)@.del(inum),
    {
        txn.delete(inum);
    }

    /// Reads a record that may be missing.
    pub fn try_get_inode_from_txn(&self, txn: &MetaTxn, ino: u64) -> (r: Step<Option<Node>>)
        requires
            txn.wf(),
        ensures
            opt_node_step_view(r) == try_get_inode_spec(txn@, ino),
            r matches Step::Done(Ok(Some(n))) ==> n.wf(),
    {
        match txn.get(ino) {
            Fetched::Unread => Step::Need(ino),
            Fetched::Absent => Step::Done(Ok(None)),
            Fetched::Present(n) => Step::Done(Ok(Some(n))),
        }
    }

    /// Reads a record that must exist.
    pub fn get_inode_from_txn(&self, txn: &MetaTxn, ino: u64) -> (r: Step<Node>)
        requires
            txn.wf(),
        ensures
            node_step_view(r) == get_inode_spec(txn@, ino),
            r matches Step::Done(Ok(n)) ==> n.wf(),
    {
        match txn.get(ino) {
            Fetched::Unread => Step::Need(ino),
            Fetched::Absent => Step::Done(Err(MetaError::InconsistentFS { ino })),
            Fetched::Present(n) => Step::Done(Ok(n)),
        }
    }

    /// The sticky-bit rule: in a directory with the sticky bit, only root,
    /// the directory's owner and the owner of the inode that an entry names
    /// may rename or delete the entry.
    pub fn check_sticky_bit(&self, context: &ReqContext, parent_node: &Node, child: &Node) -> (r: Result<
        (),
        MetaError,
    >)
        ensures
            r == check_sticky_bit_spec(
                self@.need_check_perm,
                *context,
                parent_node@.attr,
                child@.attr.uid,
            ),
    {
        let parent_attr = parent_node.get_attr();
        if self.need_check_perm && context.uid != 0 && (parent_attr.perm & S_ISVTX != 0) && context.uid
            != parent_attr.uid && context.uid != child.get_attr().uid {
            Err(MetaError::Posix(Errno::EACCES))
        } else {
            Ok(())
        }
    }

    /// Whether no open and no kernel lookup refers to the inode, so that an
    /// unlinked record may leave the store.
    pub fn delete_check(&self, node: &Node) -> (r: bool)
        ensures
            r == node@.unreferenced(),
    {
        node.get_open_count() == 0 && node.get_lookup_count() == 0
    }

    /// Whether the inode must be kept after its unlinking because it is still
    /// referenced, with the parent and the name that its entry is under.
    pub fn deferred_delete_pre_check(inode: &Node) -> (r: (bool, u64, Vec<u8>))
        ensures
            r.0 == !inode@.unreferenced(),
            r.1 == inode@.parent,
            r.2@ == inode@.name,
    {
        (
            inode.get_lookup_count() > 0 || inode.get_open_count() > 0,
            inode.get_parent_ino(),
            name_to_vec(inode.get_name()),
        )
    }

    /// Stages the removal of the record `node` of `ino` from the store.
    pub(crate) fn remove_node(&self, txn: &mut MetaTxn, ino: u64, node: &Node)
        requires
            old(txn).wf(),
        ensures
            final(txn).wf(),
            final(txn)@ == removal(old(txn)@, ino, node@),
    {
        txn.delete(ino);
        if node.get_type() == FileKind::File {
            txn.emit(Effect::RemoveFileCache { ino });
            txn.emit(Effect::DeleteObject { ino });
        }
    }

    /// Writes `node` back under `ino` after a reference to it was dropped, or
    /// removes it where it was unlinked and no reference is left.
    pub(crate) fn settle(&self, txn: &mut MetaTxn, ino: u64, node: Node)
        requires
            old(txn).wf(),
            node.wf(),
        ensures
            final(txn).wf(),
            final(txn)@ == settled(old(txn)@, ino, node@),
    {
        if node.is_deferred_deletion() && self.delete_check(&node) {
            self.remove_node(txn, ino, &node);
        } else {
            txn.set(ino, node);
        }
    }
}

} // verus!
