//! Unlinking: the handlers that take an entry out of a directory, and the rule
//! that keeps an inode which is still referenced.

use vstd::prelude::*;
use crate::attr::{sticky_denies, FileKind, ReqContext};
use crate::error::{Errno, MetaError};
use crate::meta::{get_inode_spec, removal, MetaView, S3MetaData};
use crate::name::name_eq;
use crate::node::FUSE_ROOT_ID;
use crate::txn::{Effect, EffectView, MetaTxn, Step, TxnView};

verus! {

/// Whether the inode `ino` can be taken out of its directory. The root is
/// never unlinked. The record, and the record of the parent it names, must
/// exist; the parent must be another inode, a directory, and hold under the
/// inode's name an entry for it. Anything else is a contradiction in the
/// catalog.
pub open spec fn deferred_delete_outcome(t: TxnView, ino: u64) -> Step<()> {
    if ino == FUSE_ROOT_ID {
        Step::Done(Err(MetaError::InconsistentFS { ino }))
    } else {
        match get_inode_spec(t, ino) {
            Step::Done(Ok(n)) => if n.parent == ino {
                Step::Done(Err(MetaError::InconsistentFS { ino }))
            } else {
                match get_inode_spec(t, n.parent) {
                    Step::Done(Ok(p)) => if !p.is_dir() {
                        Step::Done(Err(MetaError::InconsistentFS { ino: n.parent }))
                    } else if !(p.entry(n.name) matches Some(e) && e.ino == ino) {
                        Step::Done(Err(MetaError::InconsistentFS { ino }))
                    } else {
                        Step::Done(Ok(()))
                    },
                    other => other.forwarded(),
                }
            },
            other => other.forwarded(),
        }
    }
}

/// The transaction after the inode `ino` was taken out of its directory. An
/// inode that an open or a kernel lookup still refers to stays in the store,
/// marked as unlinked; where the unlinking came from another node and the
/// kernel holds a lookup, the kernel is to be told that the entry is gone. An
/// inode without references leaves the store. The parent loses the entry.
pub open spec fn deferred_delete_post(m: MetaView, t: TxnView, ino: u64, from_remote: bool) -> TxnView {
    let n = t.node(ino);
    let p = t.node(n.parent);
    let t1 = if !n.unreferenced() {
        let t0 = t.put(ino, n.deferred());
        if from_remote && n.lookup_count > 0 {
            t0.emit(
                EffectView::NotifyDelete { fuse_fd: m.fuse_fd, parent: n.parent, ino, name: n.name },
            )
        } else {
            t0
        }
    } else {
        removal(t, ino, n)
    };
    t1.put(n.parent, p.without_entry(n.name))
}

/// The inode that the entry `name` of the directory `parent` names.
pub open spec fn child_of(t: TxnView, parent: u64, name: Seq<u8>) -> u64 {
    t.node(parent).entry(name)->0.ino
}

/// Whether `ctx` may remove the entry `name`, which is to name an inode of
/// kind `node_type`, from the directory `parent`. The parent must exist (else
/// the catalog is inconsistent) and be a directory (`ENOTDIR`), and hold the
/// entry (`ENOENT`); the sticky bit must allow it (`EACCES`); a directory must
/// be empty (`ENOTEMPTY`); the inode must agree with its entry in number,
/// name, parent and kind, and be fit to be unlinked (else the catalog is
/// inconsistent).
pub open spec fn remove_node_outcome(
    m: MetaView,
    t: TxnView,
    ctx: ReqContext,
    parent: u64,
    name: Seq<u8>,
    node_type: FileKind,
) -> Step<()> {
    match get_inode_spec(t, parent) {
        Step::Done(Ok(p)) => if !p.is_dir() {
            Step::Done(Err(MetaError::Posix(Errno::ENOTDIR)))
        } else {
            match p.entry(name) {
                None => Step::Done(Err(MetaError::Posix(Errno::ENOENT))),
                Some(e) => match get_inode_spec(t, e.ino) {
                    Step::Done(Ok(c)) => if sticky_denies(m.need_check_perm, ctx.uid, p.attr, c.attr.uid) {
                        Step::Done(Err(MetaError::Posix(Errno::EACCES)))
                    } else if node_type == FileKind::Dir && c.entries.len() != 0 {
                        Step::Done(Err(MetaError::Posix(Errno::ENOTEMPTY)))
                    } else if c.attr.ino != e.ino || c.name != name || c.parent != parent || c.attr.kind
                        != node_type {
                        Step::Done(Err(MetaError::InconsistentFS { ino: e.ino }))
                    } else {
                        deferred_delete_outcome(t, e.ino)
                    },
                    other => other.forwarded(),
                },
            }
        },
        other => other.forwarded(),
    }
}

/// The outcome of an unlink of `name` in `parent` by `ctx`: the entry must
/// exist (else the catalog is inconsistent) and must not name a directory
/// (`EISDIR`); the rest is as in [`remove_node_outcome`].
pub open spec fn unlink_outcome(m: MetaView, t: TxnView, ctx: ReqContext, parent: u64, name: Seq<u8>)
    -> Step<()> {
    match get_inode_spec(t, parent) {
        Step::Done(Ok(p)) => if !p.is_dir() {
            Step::Done(Err(MetaError::Posix(Errno::ENOTDIR)))
        } else {
            match p.entry(name) {
                None => Step::Done(Err(MetaError::InconsistentFS { ino: parent })),
                Some(e) => if e.kind == FileKind::Dir {
                    Step::Done(Err(MetaError::Posix(Errno::EISDIR)))
                } else {
                    remove_node_outcome(m, t, ctx, parent, name, e.kind)
                },
            }
        },
        other => other.forwarded(),
    }
}

/// The outcome of an rmdir of `name` in `parent` by `ctx`: the entry must
/// exist (`ENOENT`) and name a directory (`ENOTDIR`); the rest is as in
/// [`remove_node_outcome`].
pub open spec fn rmdir_outcome(m: MetaView, t: TxnView, ctx: ReqContext, parent: u64, name: Seq<u8>)
    -> Step<()> {
    match get_inode_spec(t, parent) {
        Step::Done(Ok(p)) => if !p.is_dir() {
            Step::Done(Err(MetaError::Posix(Errno::ENOTDIR)))
        } else {
            match p.entry(name) {
                None => Step::Done(Err(MetaError::Posix(Errno::ENOENT))),
                Some(e) => if e.kind != FileKind::Dir {
                    Step::Done(Err(MetaError::Posix(Errno::ENOTDIR)))
                } else {
                    remove_node_outcome(m, t, ctx, parent, name, FileKind::Dir)
                },
            }
        },
        other => other.forwarded(),
    }
}

/// The transaction after the entry `name` of `parent` was removed.
pub open spec fn remove_node_post(m: MetaView, t: TxnView, parent: u64, name: Seq<u8>, from_remote: bool)
    -> TxnView {
    deferred_delete_post(m, t, child_of(t, parent, name), from_remote)
}

impl S3MetaData {
    /// Takes the inode `ino` out of its directory, and removes it from the
    /// store or, where it is still referenced, marks it as unlinked.
    pub fn may_deferred_delete_node_helper(&self, txn: &mut MetaTxn, ino: u64, from_remote: bool) -> (r:
        Step<()>)
        requires
            old(txn).wf(),
        ensures
            final(txn).wf(),
            r == deferred_delete_outcome(old(txn)@, ino),
            final(txn)@ == if r.is_ok() {
                deferred_delete_post(self@, old(txn)@, ino, from_remote)
            } else {
                old(txn)@
            },
    {
        if ino == FUSE_ROOT_ID {
            return Step::Done(Err(MetaError::InconsistentFS { ino }));
        }
        let mut inode = match self.get_inode_from_txn(txn, ino).into_value() {
            Ok(n) => n,
            Err(s) => {
                return s;
            },
        };
        let (deferred_deletion, parent_ino, node_name) = Self::deferred_delete_pre_check(&inode);
        if parent_ino == ino {
            return Step::Done(Err(MetaError::InconsistentFS { ino }));
        }
        let mut parent_node = match self.get_inode_from_txn(txn, parent_ino).into_value() {
            Ok(n) => n,
            Err(s) => {
                return s;
            },
        };
        if parent_node.get_type() != FileKind::Dir {
            return Step::Done(Err(MetaError::InconsistentFS { ino: parent_ino }));
        }
        match parent_node.get_entry(node_name.as_slice()) {
            Some(e) => {
                if e.ino() != ino {
                    return Step::Done(Err(MetaError::InconsistentFS { ino }));
                }
            },
            None => {
                return Step::Done(Err(MetaError::InconsistentFS { ino }));
            },
        }
        parent_node.unlink_entry(node_name.as_slice());
        if deferred_deletion {
            let notify = from_remote && inode.get_lookup_count() > 0;
            inode.mark_deferred_deletion();
            txn.set(ino, inode);
            if notify {
                txn.emit(
                    Effect::NotifyDelete {
                        fuse_fd: self.fuse_fd(),
                        parent: parent_ino,
                        ino,
                        name: node_name,
                    },
                );
            }
        } else {
            self.remove_node(txn, ino, &inode);
        }
        txn.set(parent_ino, parent_node);
        Step::Done(Ok(()))
    }

    /// Removes the entry `node_name`, which is to name an inode of kind
    /// `node_type`, from the directory `parent` for the process `context`.
    /// `from_remote` says that another node of the cluster asked for it.
    pub fn remove_node_local(
        &self,
        txn: &mut MetaTxn,
        context: ReqContext,
        parent: u64,
        node_name: &[u8],
        node_type: FileKind,
        from_remote: bool,
    ) -> (r: Step<()>)
        requires
            old(txn).wf(),
        ensures
            final(txn).wf(),
            r == remove_node_outcome(self@, old(txn)@, context, parent, node_name@, node_type),
            final(txn)@ == if r.is_ok() {
                remove_node_post(self@, old(txn)@, parent, node_name@, from_remote)
            } else {
                old(txn)@
            },
    {
        let parent_node = match self.get_inode_from_txn(txn, parent).into_value() {
            Ok(n) => n,
            Err(s) => {
                return s;
            },
        };
        if parent_node.get_type() != FileKind::Dir {
            return Step::Done(Err(MetaError::Posix(Errno::ENOTDIR)));
        }
        let node_ino: u64 = match parent_node.get_entry(node_name) {
            None => {
                return Step::Done(Err(MetaError::Posix(Errno::ENOENT)));
            },
            Some(child_entry) => child_entry.ino(),
        };
        let child_node = match self.get_inode_from_txn(txn, node_ino).into_value() {
            Ok(n) => n,
            Err(s) => {
                return s;
            },
        };
        match self.check_sticky_bit(&context, &parent_node, &child_node) {
            Ok(_) => {},
            Err(e) => {
                return Step::Done(Err(e));
            },
        }
        if node_type == FileKind::Dir && !child_node.is_node_data_empty() {
            return Step::Done(Err(MetaError::Posix(Errno::ENOTEMPTY)));
        }
        if child_node.get_ino() != node_ino || !name_eq(child_node.get_name(), node_name)
            || child_node.get_parent_ino() != parent || child_node.get_type() != node_type {
            return Step::Done(Err(MetaError::InconsistentFS { ino: node_ino }));
        }
        self.may_deferred_delete_node_helper(txn, node_ino, from_remote)
    }

    /// Removes the entry `node_name` of kind `node_type` from the directory
    /// `parent` for a request of this node.
    pub fn remove_node_helper(
        &self,
        txn: &mut MetaTxn,
        context: ReqContext,
        parent: u64,
        node_name: &[u8],
        node_type: FileKind,
    ) -> (r: Step<()>)
        requires
            old(txn).wf(),
        ensures
            final(txn).wf(),
            r == remove_node_outcome(self@, old(txn)@, context, parent, node_name@, node_type),
            final(txn)@ == if r.is_ok() {
                remove_node_post(self@, old(txn)@, parent, node_name@, false)
            } else {
                old(txn)@
            },
    {
        self.remove_node_local(txn, context, parent, node_name, node_type, false)
    }

    /// Unlinks the file or symbolic link `name` of the directory `parent`.
    pub fn unlink(&self, txn: &mut MetaTxn, context: ReqContext, parent: u64, name: &[u8]) -> (r: Step<()>)
        requires
            old(txn).wf(),
        ensures
            final(txn).wf(),
            r == unlink_outcome(self@, old(txn)@, context, parent, name@),
            final(txn)@ == if r.is_ok() {
                remove_node_post(self@, old(txn)@, parent, name@, false)
            } else {
                old(txn)@
            },
    {
        let parent_node = match self.get_inode_from_txn(txn, parent).into_value() {
            Ok(n) => n,
            Err(s) => {
                return s;
            },
        };
        if parent_node.get_type() != FileKind::Dir {
            return Step::Done(Err(MetaError::Posix(Errno::ENOTDIR)));
        }
        let entry_type = match parent_node.get_entry(name) {
            None => {
                return Step::Done(Err(MetaError::InconsistentFS { ino: parent }));
            },
            Some(child_entry) => child_entry.entry_type(),
        };
        if entry_type == FileKind::Dir {
            return Step::Done(Err(MetaError::Posix(Errno::EISDIR)));
        }
        self.remove_node_helper(txn, context, parent, name, entry_type)
    }

    /// Removes the empty directory `name` of the directory `parent`.
    pub fn rmdir(&self, txn: &mut MetaTxn, context: ReqContext, parent: u64, name: &[u8]) -> (r: Step<()>)
        requires
            old(txn).wf(),
        ensures
            final(txn).wf(),
            r == rmdir_outcome(self@, old(txn)@, context, parent, name@),
            final(txn)@ == if r.is_ok() {
                remove_node_post(self@, old(txn)@, parent, name@, false)
            } else {
                old(txn)@
            },
    {
        let parent_node = match self.get_inode_from_txn(txn, parent).into_value() {
            Ok(n) => n,
            Err(s) => {
                return s;
            },
        };
        if parent_node.get_type() != FileKind::Dir {
            return Step::Done(Err(MetaError::Posix(Errno::ENOTDIR)));
        }
        match parent_node.get_entry(name) {
            None => {
                return Step::Done(Err(MetaError::Posix(Errno::ENOENT)));
            },
            Some(child_entry) => {
                if child_entry.entry_type() != FileKind::Dir {
                    return Step::Done(Err(MetaError::Posix(Errno::ENOTDIR)));
                }
            },
        }
        self.remove_node_helper(txn, context, parent, name, FileKind::Dir)
    }
}

} // verus!
