//! Creation: mknod, mkdir, symlink and create share one handler.

use vstd::prelude::*;
use crate::attr::{
    check_name_length, check_name_length_spec, check_type_supported, check_type_supported_spec,
    convert_to_fuse_attr, fuse_attr_of, FileKind, Timestamp, MY_GENERATION, MY_TTL_SEC,
};
use crate::dir::DirEntryView;

use crate::meta::{get_inode_spec, EntryReply, S3MetaData};
use crate::node::{child_node, create_error, CreateParam, CreateParamView};
use crate::txn::{Effect, EffectView, MetaTxn, Step, TxnView};

verus! {

/// The kind of inode that the creation request `p` makes.
pub open spec fn created_kind(p: CreateParamView) -> FileKind {
    check_type_supported_spec(p.node_type)->Ok_0
}

/// The outcome of a creation request at time `now`. The name must not be too
/// long (`ENAMETOOLONG`) and the type must be one that is stored (else the
/// request is unsupported);
/// the parent must exist (else the catalog is inconsistent), be a directory
/// (`ENOTDIR`), and have the name free (`EEXIST`); a symbolic link needs a
/// target (`EINVAL`). Then the handler asks for a fresh inode number, and with
/// it replies with the attributes of the new inode.
pub open spec fn mknod_outcome(t: TxnView, p: CreateParamView, now: Timestamp) -> Step<EntryReply> {
    if check_name_length_spec(p.name) is Err {
        Step::Done(Err(check_name_length_spec(p.name)->Err_0))
    } else if check_type_supported_spec(p.node_type) is Err {
        Step::Done(Err(check_type_supported_spec(p.node_type)->Err_0))
    } else {
        match get_inode_spec(t, p.parent) {
            Step::Done(Ok(dir)) => match create_error(dir, p) {
                Some(e) => Step::Done(Err(e)),
                None => match t.inum {
                    None => Step::NeedInum,
                    Some(ino) => Step::Done(
                        Ok(
                            EntryReply {
                                ttl: MY_TTL_SEC,
                                attr: fuse_attr_of(child_node(p, created_kind(p), ino, now).attr),
                                generation: MY_GENERATION,
                            },
                        ),
                    ),
                },
            },
            other => other.forwarded(),
        }
    }
}

/// The transaction after a creation: the new inode stands under the fresh
/// number, which is used up; the parent has the new entry; for a regular file
/// the empty payload object is to be created.
pub open spec fn mknod_post(t: TxnView, p: CreateParamView, now: Timestamp) -> TxnView {
    let ino = t.inum->0;
    let kind = created_kind(p);
    let t1 = t.put(ino, child_node(p, kind, ino, now)).put(
        p.parent,
        t.node(p.parent).with_entry(DirEntryView { name: p.name, ino, kind }),
    ).with_inum(None);
    if kind == FileKind::File {
        t1.emit(EffectView::CreateObject { ino })
    } else {
        t1
    }
}

impl S3MetaData {
    /// Creates the file, directory or symbolic link that `param` asks for,
    /// at time `now`.
    pub fn mknod(&self, txn: &mut MetaTxn, param: &CreateParam, now: Timestamp) -> (r: Step<EntryReply>)
        requires
            old(txn).wf(),
        ensures
            final(txn).wf(),
            r == mknod_outcome(old(txn)@, param@, now),
            final(txn)@ == if r.is_ok() {
                mknod_post(old(txn)@, param@, now)
            } else {
                old(txn)@
            },
    {
        match check_name_length(param.name.as_slice()) {
            Ok(_) => {},
            Err(e) => {
                return Step::Done(Err(e));
            },
        }
        match check_type_supported(param.node_type) {
            Ok(_) => {},
            Err(e) => {
                return Step::Done(Err(e));
            },
        }
        let parent_ino = param.parent;
        let mut parent_node = match self.get_inode_from_txn(txn, parent_ino).into_value() {
            Ok(n) => n,
            Err(s) => {
                return s;
            },
        };
        let kind = match parent_node.create_pre_check(param) {
            Ok(k) => k,
            Err(e) => {
                return Step::Done(Err(e));
            },
        };
        let new_inum = match txn.inum() {
            Some(i) => i,
            None => {
                return Step::NeedInum;
            },
        };
        let new_node = match parent_node.create_child_node(param, new_inum, now) {
            Ok(n) => n,
            Err(e) => {
                return Step::Done(Err(e));
            },
        };
        let fuse_attr = convert_to_fuse_attr(new_node.get_attr());
        txn.take_inum();
        txn.set(new_inum, new_node);
        txn.set(parent_ino, parent_node);
        if kind == FileKind::File {
            txn.emit(Effect::CreateObject { ino: new_inum });
        }
        Step::Done(Ok(EntryReply { ttl: MY_TTL_SEC, attr: fuse_attr, generation: MY_GENERATION }))
    }
}

} // verus!
