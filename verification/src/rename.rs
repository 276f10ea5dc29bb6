//! Rename: moving an entry, with or without replacing the destination, and
//! exchanging two entries.

use vstd::prelude::*;
use crate::attr::{check_name_length, check_name_length_spec, sticky_denies, FileKind, ReqContext};
use crate::dir::{entry_view, lemma_remove, DirEntry, DirEntryView};
use crate::error::{Errno, MetaError};
use crate::meta::{
    get_inode_spec, MetaView, RenameParam, RenameParamView, S3MetaData, RENAME_EXCHANGE,
    RENAME_NOREPLACE,
};
use crate::name::name_to_vec;
use crate::node::{Node, NodeView};
use crate::remove::{deferred_delete_outcome, deferred_delete_post};
use crate::txn::{Fetch, Fetched, MetaTxn, Step, TxnView};

verus! {

/// The outcome of the sticky-bit check on an entry of the directory with the
/// attributes of `parent` that names the inode `ino`: the inode's record
/// is needed for its owner.
pub open spec fn sticky_outcome(m: MetaView, t: TxnView, ctx: ReqContext, parent: NodeView, ino: u64)
    -> Step<()> {
    match get_inode_spec(t, ino) {
        Step::Done(Ok(c)) => if sticky_denies(m.need_check_perm, ctx.uid, parent.attr, c.attr.uid) {
            Step::Done(Err(MetaError::Posix(Errno::EACCES)))
        } else {
            Step::Done(Ok(()))
        },
        other => other.forwarded(),
    }
}

/// What the checks before a rename find: the inode to move, and the inode
/// under the new name if there is one. Both names must be within length
/// (`ENAMETOOLONG`). The old parent must exist (else the catalog is
/// inconsistent), be a directory (`ENOTDIR`) and hold the old name
/// (`ENOENT`); so must the new parent, but for the name. The sticky bit must
/// allow the change at both ends (`EACCES`). With `no_replace`, a new name that
/// exists is refused (`EEXIST`).
pub open spec fn rename_pre_check_spec(
    m: MetaView,
    t: TxnView,
    ctx: ReqContext,
    old_parent: u64,
    old_name: Seq<u8>,
    new_parent: u64,
    new_name: Seq<u8>,
    no_replace: bool,
) -> Step<(u64, Option<u64>)> {
    if check_name_length_spec(old_name) is Err {
        Step::Done(Err(check_name_length_spec(old_name)->Err_0))
    } else if check_name_length_spec(new_name) is Err {
        Step::Done(Err(check_name_length_spec(new_name)->Err_0))
    } else {
        match get_inode_spec(t, old_parent) {
            Step::Done(Ok(op)) => if !op.is_dir() {
                Step::Done(Err(MetaError::Posix(Errno::ENOTDIR)))
            } else {
                match op.entry(old_name) {
                    None => Step::Done(Err(MetaError::Posix(Errno::ENOENT))),
                    Some(oe) => match sticky_outcome(m, t, ctx, op, oe.ino) {
                        Step::Done(Ok(_)) => match get_inode_spec(t, new_parent) {
                            Step::Done(Ok(np)) => if !np.is_dir() {
                                Step::Done(Err(MetaError::Posix(Errno::ENOTDIR)))
                            } else {
                                match np.entry(new_name) {
                                    None => Step::Done(Ok((oe.ino, None))),
                                    Some(ne) => match sticky_outcome(m, t, ctx, np, ne.ino) {
                                        Step::Done(Ok(_)) => if no_replace {
                                            Step::Done(Err(MetaError::Posix(Errno::EEXIST)))
                                        } else {
                                            Step::Done(Ok((oe.ino, Some(ne.ino))))
                                        },
                                        other => other.forwarded(),
                                    },
                                }
                            },
                            other => other.forwarded(),
                        },
                        other => other.forwarded(),
                    },
                }
            },
            other => other.forwarded(),
        }
    }
}

/// Whether the entry `old_name` of `old_parent` can be moved to `new_parent`:
/// both parents must exist (else the catalog is inconsistent) and be
/// directories (`ENOTDIR`), and the old one must hold the name (`ENOENT`).
pub open spec fn rename_in_cache_outcome(t: TxnView, old_parent: u64, old_name: Seq<u8>, new_parent: u64)
    -> Step<()> {
    match get_inode_spec(t, old_parent) {
        Step::Done(Ok(op)) => if !op.is_dir() {
            Step::Done(Err(MetaError::Posix(Errno::ENOTDIR)))
        } else if op.entry(old_name) is None {
            Step::Done(Err(MetaError::Posix(Errno::ENOENT)))
        } else {
            match get_inode_spec(t, new_parent) {
                Step::Done(Ok(np)) => if !np.is_dir() {
                    Step::Done(Err(MetaError::Posix(Errno::ENOTDIR)))
                } else {
                    Step::Done(Ok(()))
                },
                other => other.forwarded(),
            }
        },
        other => other.forwarded(),
    }
}

/// The transaction after the entry `old_name` of `old_parent` was moved to
/// `new_parent` under `new_name`: the old parent is without it, and then the
/// new parent holds the same inode under the new name.
pub open spec fn rename_in_cache_post(
    t: TxnView,
    old_parent: u64,
    old_name: Seq<u8>,
    new_parent: u64,
    new_name: Seq<u8>,
) -> TxnView {
    let e = t.node(old_parent).entry(old_name)->0;
    let t1 = t.put(old_parent, t.node(old_parent).without_entry(old_name));
    t1.put(
        new_parent,
        t1.node(new_parent).with_entry(DirEntryView { name: new_name, ino: e.ino, kind: e.kind }),
    )
}

/// The entry that stood under `new_name` in `new_parent` when the entry
/// `old_name` of `old_parent` was moved there.
pub open spec fn rename_in_cache_replaced(
    t: TxnView,
    old_parent: u64,
    old_name: Seq<u8>,
    new_parent: u64,
    new_name: Seq<u8>,
) -> Option<DirEntryView> {
    let t1 = t.put(old_parent, t.node(old_parent).without_entry(old_name));
    t1.node(new_parent).entry(new_name)
}

/// The inode to move and the inode to replace, as the checks before the
/// rename `p` find them.
pub open spec fn rename_targets(m: MetaView, t: TxnView, ctx: ReqContext, p: RenameParamView) -> (
    u64,
    Option<u64>,
) {
    rename_pre_check_spec(
        m,
        t,
        ctx,
        p.old_parent,
        p.old_name,
        p.new_parent,
        p.new_name,
        p.flags == RENAME_NOREPLACE,
    ).value()
}

/// The outcome of a rename that may replace its destination. After the checks
/// of [`rename_pre_check_spec`], with `p.flags == RENAME_NOREPLACE` for
/// `no_replace`: moving an inode onto itself succeeds. An inode under the new
/// name must not be the old parent itself (`ENOTEMPTY`), must agree with its
/// entry in parent and name, and be fit to be unlinked (else the catalog is
/// inconsistent).
pub open spec fn rename_may_replace_outcome(m: MetaView, t: TxnView, ctx: ReqContext, p: RenameParamView)
    -> Step<()> {
    match rename_pre_check_spec(
        m,
        t,
        ctx,
        p.old_parent,
        p.old_name,
        p.new_parent,
        p.new_name,
        p.flags == RENAME_NOREPLACE,
    ) {
        Step::Done(Ok((old_ino, new_ino))) => match new_ino {
            None => Step::Done(Ok(())),
            Some(ti) => if ti == old_ino {
                Step::Done(Ok(()))
            } else if ti == p.old_parent {
                Step::Done(Err(MetaError::Posix(Errno::ENOTEMPTY)))
            } else if t.node(ti).parent != p.new_parent || t.node(ti).name != p.new_name {
                Step::Done(Err(MetaError::InconsistentFS { ino: ti }))
            } else {
                deferred_delete_outcome(t, ti)
            },
        },
        other => other.forwarded(),
    }
}

/// The transaction after a rename that may replace its destination: moving an
/// inode onto itself changes nothing; else an inode under the new name is
/// unlinked, the moved inode gets its new parent and name, and the entry
/// moves.
pub open spec fn rename_may_replace_post(
    m: MetaView,
    t: TxnView,
    ctx: ReqContext,
    p: RenameParamView,
    from_remote: bool,
) -> TxnView {
    let (old_ino, new_ino) = rename_targets(m, t, ctx, p);
    if new_ino == Some(old_ino) {
        t
    } else {
        let t1 = match new_ino {
            Some(ti) => deferred_delete_post(m, t, ti, from_remote),
            None => t,
        };
        let t2 = t1.put(old_ino, t1.node(old_ino).moved(p.new_parent, p.new_name));
        rename_in_cache_post(t2, p.old_parent, p.old_name, p.new_parent, p.new_name)
    }
}

/// What reading the parent of the new name gives in an exchange: the old
/// parent again where the two are the same, else the record of the new
/// parent, which must exist (`ENOENT`) and be a directory (`ENOTDIR`).
pub open spec fn exchange_new_parent(t: TxnView, old_parent: u64, op: NodeView, new_parent: u64) -> Step<
    NodeView,
> {
    if old_parent == new_parent {
        Step::Done(Ok(op))
    } else {
        match t.fetch(new_parent) {
            Fetch::Unread => Step::Need(new_parent),
            Fetch::Absent => Step::Done(Err(MetaError::Posix(Errno::ENOENT))),
            Fetch::Present(np) => if !np.is_dir() {
                Step::Done(Err(MetaError::Posix(Errno::ENOTDIR)))
            } else {
                Step::Done(Ok(np))
            },
        }
    }
}

/// What the checks before an exchange find: the two inodes to swap. Both
/// names must be within length (`ENAMETOOLONG`); both parents must exist
/// (`ENOENT`), be directories (`ENOTDIR`) and hold their name (`ENOENT`); the
/// sticky bit must allow the change at both ends (`EACCES`).
pub open spec fn exchange_pre_check_spec(
    m: MetaView,
    t: TxnView,
    ctx: ReqContext,
    old_parent: u64,
    old_name: Seq<u8>,
    new_parent: u64,
    new_name: Seq<u8>,
) -> Step<(u64, u64)> {
    if check_name_length_spec(old_name) is Err {
        Step::Done(Err(check_name_length_spec(old_name)->Err_0))
    } else if check_name_length_spec(new_name) is Err {
        Step::Done(Err(check_name_length_spec(new_name)->Err_0))
    } else {
        match t.fetch(old_parent) {
            Fetch::Unread => Step::Need(old_parent),
            Fetch::Absent => Step::Done(Err(MetaError::Posix(Errno::ENOENT))),
            Fetch::Present(op) => if !op.is_dir() {
                Step::Done(Err(MetaError::Posix(Errno::ENOTDIR)))
            } else {
                match op.entry(old_name) {
                    None => Step::Done(Err(MetaError::Posix(Errno::ENOENT))),
                    Some(oe) => match sticky_outcome(m, t, ctx, op, oe.ino) {
                        Step::Done(Ok(_)) => match exchange_new_parent(t, old_parent, op, new_parent) {
                            Step::Done(Ok(np)) => match np.entry(new_name) {
                                None => Step::Done(Err(MetaError::Posix(Errno::ENOENT))),
                                Some(ne) => match sticky_outcome(m, t, ctx, np, ne.ino) {
                                    Step::Done(Ok(_)) => Step::Done(Ok((oe.ino, ne.ino))),
                                    other => other.forwarded(),
                                },
                            },
                            other => other.forwarded(),
                        },
                        other => other.forwarded(),
                    },
                }
            },
        }
    }
}

/// The outcome of an exchange: asking for `RENAME_NOREPLACE` as well is
/// refused with `EINVAL`; the rest is decided by the checks of
/// [`exchange_pre_check_spec`].
pub open spec fn rename_exchange_outcome(m: MetaView, t: TxnView, ctx: ReqContext, p: RenameParamView)
    -> Step<()> {
    if p.flags & RENAME_NOREPLACE != 0 {
        Step::Done(Err(MetaError::Posix(Errno::EINVAL)))
    } else {
        match exchange_pre_check_spec(m, t, ctx, p.old_parent, p.old_name, p.new_parent, p.new_name) {
            Step::Done(Ok(_)) => Step::Done(Ok(())),
            other => other.forwarded(),
        }
    }
}

/// The transaction after an exchange: each of the two inodes has the parent
/// and the name of the other, and each of the two names stands for the other
/// inode. Exchanging an inode with itself changes nothing.
pub open spec fn rename_exchange_post(t: TxnView, p: RenameParamView) -> TxnView {
    let opn = t.node(p.old_parent);
    let npn = t.node(p.new_parent);
    let oe = opn.entry(p.old_name)->0;
    let ne = npn.entry(p.new_name)->0;
    if oe.ino == ne.ino {
        t
    } else {
        let to_old = DirEntryView { name: p.old_name, ino: ne.ino, kind: ne.kind };
        let to_new = DirEntryView { name: p.new_name, ino: oe.ino, kind: oe.kind };
        let t1 = t.put(oe.ino, t.node(oe.ino).moved(p.new_parent, p.new_name)).put(
            ne.ino,
            t.node(ne.ino).moved(p.old_parent, p.old_name),
        );
        if p.old_parent != p.new_parent {
            t1.put(p.old_parent, opn.with_entry(to_old)).put(p.new_parent, npn.with_entry(to_new))
        } else {
            t1.put(p.old_parent, opn.with_entry(to_old).with_entry(to_new))
        }
    }
}

/// The outcome of a rename request: an exchange where `RENAME_EXCHANGE` is
/// set, else a move that may replace its destination.
pub open spec fn rename_outcome(m: MetaView, t: TxnView, ctx: ReqContext, p: RenameParamView) -> Step<()> {
    if p.flags & RENAME_EXCHANGE != 0 {
        rename_exchange_outcome(m, t, ctx, p)
    } else {
        rename_may_replace_outcome(m, t, ctx, p)
    }
}

/// The transaction after a rename request of this node.
pub open spec fn rename_post(m: MetaView, t: TxnView, ctx: ReqContext, p: RenameParamView) -> TxnView {
    if p.flags & RENAME_EXCHANGE != 0 {
        rename_exchange_post(t, p)
    } else {
        rename_may_replace_post(m, t, ctx, p, false)
    }
}

impl S3MetaData {
    /// The sticky-bit check on an entry of `parent_node` that names `ino`.
    pub fn check_sticky_entry(&self, txn: &MetaTxn, context: &ReqContext, parent_node: &Node, ino: u64)
        -> (r: Step<()>)
        requires
            txn.wf(),
        ensures
            r == sticky_outcome(self@, txn@, *context, parent_node@, ino),
    {
        let child = match self.get_inode_from_txn(txn, ino).into_value() {
            Ok(n) => n,
            Err(s) => {
                return s;
            },
        };
        match self.check_sticky_bit(context, parent_node, &child) {
            Ok(_) => Step::Done(Ok(())),
            Err(e) => Step::Done(Err(e)),
        }
    }

    /// The checks before a rename that may replace its destination.
    pub fn rename_pre_check(
        &self,
        txn: &MetaTxn,
        context: ReqContext,
        old_parent: u64,
        old_name: &[u8],
        new_parent: u64,
        new_name: &[u8],
        no_replace: bool,
    ) -> (r: Step<(u64, Option<u64>)>)
        requires
            txn.wf(),
        ensures
            r == rename_pre_check_spec(
                self@,
                txn@,
                context,
                old_parent,
                old_name@,
                new_parent,
                new_name@,
                no_replace,
            ),
    {
        match check_name_length(old_name) {
            Ok(_) => {},
            Err(e) => {
                return Step::Done(Err(e));
            },
        }
        match check_name_length(new_name) {
            Ok(_) => {},
            Err(e) => {
                return Step::Done(Err(e));
            },
        }
        let old_parent_node = match self.get_inode_from_txn(txn, old_parent).into_value() {
            Ok(n) => n,
            Err(s) => {
                return s;
            },
        };
        if old_parent_node.get_type() != FileKind::Dir {
            return Step::Done(Err(MetaError::Posix(Errno::ENOTDIR)));
        }
        let old_entry_ino: u64 = match old_parent_node.get_entry(old_name) {
            None => {
                return Step::Done(Err(MetaError::Posix(Errno::ENOENT)));
            },
            Some(old_entry) => old_entry.ino(),
        };
        match self.check_sticky_entry(txn, &context, &old_parent_node, old_entry_ino).into_value() {
            Ok(_) => {},
            Err(s) => {
                return s;
            },
        }
        let new_parent_node = match self.get_inode_from_txn(txn, new_parent).into_value() {
            Ok(n) => n,
            Err(s) => {
                return s;
            },
        };
        if new_parent_node.get_type() != FileKind::Dir {
            return Step::Done(Err(MetaError::Posix(Errno::ENOTDIR)));
        }
        let new_entry_ino: Option<u64> = match new_parent_node.get_entry(new_name) {
            None => None,
            Some(new_entry) => Some(new_entry.ino()),
        };
        match new_entry_ino {
            None => Step::Done(Ok((old_entry_ino, None))),
            Some(new_ino) => {
                match self.check_sticky_entry(txn, &context, &new_parent_node, new_ino).into_value() {
                    Ok(_) => {},
                    Err(s) => {
                        return s;
                    },
                }
                if no_replace {
                    return Step::Done(Err(MetaError::Posix(Errno::EEXIST)));
                }
                Step::Done(Ok((old_entry_ino, Some(new_ino))))
            },
        }
    }

    /// Moves the entry `old_name` of `old_parent` to `new_parent` under
    /// `new_name`, and hands back the entry that stood there.
    pub fn rename_in_cache_helper(
        &self,
        txn: &mut MetaTxn,
        old_parent: u64,
        old_name: &[u8],
        new_parent: u64,
        new_name: &[u8],
    ) -> (r: Step<Option<DirEntry>>)
        requires
            old(txn).wf(),
        ensures
            final(txn).wf(),
            match r {
                Step::Done(Ok(prev)) => rename_in_cache_outcome(old(txn)@, old_parent, old_name@, new_parent)
                    == Step::Done(Ok::<(), MetaError>(())) && entry_view(prev) == rename_in_cache_replaced(
                    old(txn)@,
                    old_parent,
                    old_name@,
                    new_parent,
                    new_name@,
                ) && final(txn)@ == rename_in_cache_post(
                    old(txn)@,
                    old_parent,
                    old_name@,
                    new_parent,
                    new_name@,
                ),
                other => other.forwarded::<()>() == rename_in_cache_outcome(
                    old(txn)@,
                    old_parent,
                    old_name@,
                    new_parent,
                ) && !rename_in_cache_outcome(old(txn)@, old_parent, old_name@, new_parent).is_ok()
                    && final(txn)@ == old(txn)@,
            },
    {
        let mut old_parent_node = match self.get_inode_from_txn(txn, old_parent).into_value() {
            Ok(n) => n,
            Err(s) => {
                return s;
            },
        };
        if old_parent_node.get_type() != FileKind::Dir {
            return Step::Done(Err(MetaError::Posix(Errno::ENOTDIR)));
        }
        if old_parent_node.get_entry(old_name).is_none() {
            return Step::Done(Err(MetaError::Posix(Errno::ENOENT)));
        }
        match self.get_inode_from_txn(txn, new_parent).into_value() {
            Ok(n) => {
                if n.get_type() != FileKind::Dir {
                    return Step::Done(Err(MetaError::Posix(Errno::ENOTDIR)));
                }
            },
            Err(s) => {
                return s;
            },
        };
        let entry_to_move = match old_parent_node.remove_entry_for_rename(old_name) {
            None => {
                return Step::Done(Err(MetaError::Posix(Errno::ENOENT)));
            },
            Some(old_entry) => DirEntry::new(name_to_vec(new_name), old_entry.ino(), old_entry.entry_type()),
        };
        txn.set(old_parent, old_parent_node);
        let mut new_parent_node = match self.get_inode_from_txn(txn, new_parent).into_value() {
            Ok(n) => n,
            Err(s) => {
                return s;
            },
        };
        let result = new_parent_node.insert_entry_for_rename(entry_to_move);
        txn.set(new_parent, new_parent_node);
        Step::Done(Ok(result))
    }

    /// Renames the entry `old_name` of `old_parent` to `new_name` of
    /// `new_parent` as `param` says, for the process `context`. An inode
    /// under the new name is replaced: unlinked, and removed or kept as its
    /// references demand. `from_remote` says that another node of the
    /// cluster asked for the rename.
    pub fn rename_may_replace_local(
        &self,
        txn: &mut MetaTxn,
        context: ReqContext,
        param: &RenameParam,
        from_remote: bool,
    ) -> (r: Step<()>)
        requires
            old(txn).wf(),
        ensures
            final(txn).wf(),
            r == rename_may_replace_outcome(self@, old(txn)@, context, param@),
            final(txn)@ == if r.is_ok() {
                rename_may_replace_post(self@, old(txn)@, context, param@, from_remote)
            } else {
                old(txn)@
            },
    {
        let old_parent = param.old_parent;
        let old_name = param.old_name.as_slice();
        let new_parent = param.new_parent;
        let new_name = param.new_name.as_slice();
        let no_replace = param.flags == RENAME_NOREPLACE;
        let ghost t0 = txn@;
        proof {
            txn.lemma_wf();
        }
        let (old_entry_ino, new_entry_ino) = match self.rename_pre_check(
            txn,
            context,
            old_parent,
            old_name,
            new_parent,
            new_name,
            no_replace,
        ).into_value() {
            Ok(x) => x,
            Err(s) => {
                return s;
            },
        };
        if let Some(new_ino) = new_entry_ino {
            if new_ino == old_entry_ino {
                return Step::Done(Ok(()));
            }
            if new_ino == old_parent {
                return Step::Done(Err(MetaError::Posix(Errno::ENOTEMPTY)));
            }
            let replaced = match self.get_inode_from_txn(txn, new_ino).into_value() {
                Ok(n) => n,
                Err(s) => {
                    return s;
                },
            };
            if replaced.get_parent_ino() != new_parent || !crate::name::name_eq(
                replaced.get_name(),
                new_name,
            ) {
                return Step::Done(Err(MetaError::InconsistentFS { ino: new_ino }));
            }
            match self.may_deferred_delete_node_helper(txn, new_ino, from_remote).into_value() {
                Ok(_) => {},
                Err(s) => {
                    return s;
                },
            }
            proof {
                assert(t0.present(new_parent));
                lemma_remove(t0.node(new_parent).entries, new_name@);
            }
        }
        let ghost t1 = txn@;
        let mut moved_node = match self.get_inode_from_txn(txn, old_entry_ino).into_value() {
            Ok(n) => n,
            Err(s) => {
                return s;
            },
        };
        moved_node.set_parent_ino(new_parent);
        moved_node.set_name(new_name);
        txn.set(old_entry_ino, moved_node);
        match self.rename_in_cache_helper(txn, old_parent, old_name, new_parent, new_name).into_value() {
            Ok(_) => Step::Done(Ok(())),
            Err(s) => s,
        }
    }

    /// Renames as `param` says for a request of this node, see
    /// [`Self::rename_may_replace_local`].
    pub fn rename_may_replace_helper(&self, txn: &mut MetaTxn, context: ReqContext, param: &RenameParam)
        -> (r: Step<()>)
        requires
            old(txn).wf(),
        ensures
            final(txn).wf(),
            r == rename_may_replace_outcome(self@, old(txn)@, context, param@),
            final(txn)@ == if r.is_ok() {
                rename_may_replace_post(self@, old(txn)@, context, param@, false)
            } else {
                old(txn)@
            },
    {
        self.rename_may_replace_local(txn, context, param, false)
    }

    /// The checks before an exchange of two entries.
    pub fn exchange_pre_check(
        &self,
        txn: &MetaTxn,
        context: &ReqContext,
        old_parent: u64,
        old_name: &[u8],
        new_parent: u64,
        new_name: &[u8],
    ) -> (r: Step<(u64, u64)>)
        requires
            txn.wf(),
        ensures
            r == exchange_pre_check_spec(
                self@,
                txn@,
                *context,
                old_parent,
                old_name@,
                new_parent,
                new_name@,
            ),
    {
        match check_name_length(old_name) {
            Ok(_) => {},
            Err(e) => {
                return Step::Done(Err(e));
            },
        }
        match check_name_length(new_name) {
            Ok(_) => {},
            Err(e) => {
                return Step::Done(Err(e));
            },
        }
        let old_parent_node = match txn.get(old_parent) {
            Fetched::Unread => {
                return Step::Need(old_parent);
            },
            Fetched::Absent => {
                return Step::Done(Err(MetaError::Posix(Errno::ENOENT)));
            },
            Fetched::Present(n) => n,
        };
        if old_parent_node.get_type() != FileKind::Dir {
            return Step::Done(Err(MetaError::Posix(Errno::ENOTDIR)));
        }
        let old_entry_ino: u64 = match old_parent_node.get_entry(old_name) {
            None => {
                return Step::Done(Err(MetaError::Posix(Errno::ENOENT)));
            },
            Some(old_entry) => old_entry.ino(),
        };
        match self.check_sticky_entry(txn, context, &old_parent_node, old_entry_ino).into_value() {
            Ok(_) => {},
            Err(s) => {
                return s;
            },
        }
        let new_parent_node = if old_parent == new_parent {
            old_parent_node
        } else {
            let n = match txn.get(new_parent) {
                Fetched::Unread => {
                    return Step::Need(new_parent);
                },
                Fetched::Absent => {
                    return Step::Done(Err(MetaError::Posix(Errno::ENOENT)));
                },
                Fetched::Present(n) => n,
            };
            if n.get_type() != FileKind::Dir {
                return Step::Done(Err(MetaError::Posix(Errno::ENOTDIR)));
            }
            n
        };
        let new_entry_ino: u64 = match new_parent_node.get_entry(new_name) {
            None => {
                return Step::Done(Err(MetaError::Posix(Errno::ENOENT)));
            },
            Some(new_entry) => new_entry.ino(),
        };
        match self.check_sticky_entry(txn, context, &new_parent_node, new_entry_ino).into_value() {
            Ok(_) => {},
            Err(s) => {
                return s;
            },
        }
        Step::Done(Ok((old_entry_ino, new_entry_ino)))
    }

    /// Exchanges the entry `old_name` of `old_parent` with the entry
    /// `new_name` of `new_parent`, as `param` says, for the process
    /// `context`.
    pub fn rename_exchange_helper(&self, txn: &mut MetaTxn, context: ReqContext, param: &RenameParam)
        -> (r: Step<()>)
        requires
            old(txn).wf(),
        ensures
            final(txn).wf(),
            r == rename_exchange_outcome(self@, old(txn)@, context, param@),
            final(txn)@ == if r.is_ok() {
                rename_exchange_post(old(txn)@, param@)
            } else {
                old(txn)@
            },
    {
        let old_parent = param.old_parent;
        let old_name = param.old_name.as_slice();
        let new_parent = param.new_parent;
        let new_name = param.new_name.as_slice();
        if param.flags & RENAME_NOREPLACE != 0 {
            return Step::Done(Err(MetaError::Posix(Errno::EINVAL)));
        }
        let (old_ino, new_ino) = match self.exchange_pre_check(
            txn,
            &context,
            old_parent,
            old_name,
            new_parent,
            new_name,
        ).into_value() {
            Ok(x) => x,
            Err(s) => {
                return s;
            },
        };
        if old_ino == new_ino {
            return Step::Done(Ok(()));
        }
        let mut old_parent_node = match self.get_inode_from_txn(txn, old_parent).into_value() {
            Ok(n) => n,
            Err(s) => {
                return s;
            },
        };
        let mut new_parent_node = match self.get_inode_from_txn(txn, new_parent).into_value() {
            Ok(n) => n,
            Err(s) => {
                return s;
            },
        };
        let mut old_node = match self.get_inode_from_txn(txn, old_ino).into_value() {
            Ok(n) => n,
            Err(s) => {
                return s;
            },
        };
        let mut new_node = match self.get_inode_from_txn(txn, new_ino).into_value() {
            Ok(n) => n,
            Err(s) => {
                return s;
            },
        };
        let old_kind = match old_parent_node.get_entry(old_name) {
            Some(e) => e.entry_type(),
            None => {
                return Step::Done(Err(MetaError::Posix(Errno::ENOENT)));
            },
        };
        let new_kind = match new_parent_node.get_entry(new_name) {
            Some(e) => e.entry_type(),
            None => {
                return Step::Done(Err(MetaError::Posix(Errno::ENOENT)));
            },
        };
        old_node.set_parent_ino(new_parent);
        new_node.set_parent_ino(old_parent);
        old_node.set_name(new_name);
        new_node.set_name(old_name);
        txn.set(old_ino, old_node);
        txn.set(new_ino, new_node);
        let to_old = DirEntry::new(name_to_vec(old_name), new_ino, new_kind);
        let to_new = DirEntry::new(name_to_vec(new_name), old_ino, old_kind);
        if old_parent != new_parent {
            old_parent_node.insert_entry_for_rename(to_old);
            new_parent_node.insert_entry_for_rename(to_new);
            txn.set(old_parent, old_parent_node);
            txn.set(new_parent, new_parent_node);
        } else {
            old_parent_node.insert_entry_for_rename(to_old);
            old_parent_node.insert_entry_for_rename(to_new);
            txn.set(old_parent, old_parent_node);
        }
        Step::Done(Ok(()))
    }

    /// Carries out the rename request `param` of the process `context`: an
    /// exchange where the flags ask for one, else a move that may replace
    /// its destination.
    pub fn rename(&self, txn: &mut MetaTxn, context: ReqContext, param: &RenameParam) -> (r: Step<()>)
        requires
            old(txn).wf(),
        ensures
            final(txn).wf(),
            r == rename_outcome(self@, old(txn)@, context, param@),
            final(txn)@ == if r.is_ok() {
                rename_post(self@, old(txn)@, context, param@)
            } else {
                old(txn)@
            },
    {
        if param.flags & RENAME_EXCHANGE != 0 {
            self.rename_exchange_helper(txn, context, param)
        } else {
            self.rename_may_replace_helper(txn, context, param)
        }
    }
}

} // verus!
