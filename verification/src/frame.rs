//! A handler reads only what it asks for.
//!
//! A transaction that has read more than another, and agrees with it on what
//! both have read, gives every handler that is done on the smaller one the
//! same outcome, and ends with the same writes. So what a handler does on
//! the records it has loaded is what it would do on the whole store.

use vstd::prelude::*;
use crate::access::{
    forget_post, getattr_outcome, init_root_outcome, init_root_post, inode_outcome, lookup_outcome,
    lookup_post, open_outcome, open_post, read_outcome, readlink_outcome, release_post,
    releasedir_post, setattr_outcome, setattr_post, statfs_outcome, VolumeStat,
};
use crate::attr::{FileKind, ReqContext, Timestamp};
use crate::create::{mknod_outcome, mknod_post};
use crate::data::{readdir_outcome, write_outcome, write_post};
use crate::meta::{MetaView, RenameParamView, RENAME_NOREPLACE};
use crate::node::{CreateParamView, SetAttrParam};
use crate::remove::{
    deferred_delete_outcome, deferred_delete_post, remove_node_outcome, remove_node_post, rmdir_outcome,
    unlink_outcome,
};
use crate::rename::{
    exchange_pre_check_spec, rename_exchange_outcome, rename_exchange_post, rename_may_replace_outcome,
    rename_may_replace_post, rename_pre_check_spec,
};
use crate::txn::{Step, TxnView};

verus! {

/// The handler did not stop to ask for a record or an inode number.
pub open spec fn done<T>(s: Step<T>) -> bool {
    s is Done
}

/// The transaction `s` holds what `t` holds, and may have read more.
pub open spec fn extends(s: TxnView, t: TxnView) -> bool {
    &&& forall|k: u64| #[trigger]
        t.image.dom().contains(k) ==> s.image.dom().contains(k) && s.image[k] == t.image[k]
    &&& s.written == t.written
    &&& s.effects == t.effects
    &&& s.inum == t.inum
}

/// Loading a record that a transaction has not read gives a transaction that
/// extends it.
pub proof fn lemma_loaded_extends(t: TxnView, ino: u64, n: Option<crate::node::NodeView>)
    ensures
        extends(t.loaded(ino, n), t),
{
}

/// The root bootstrap reads only what it asks for.
pub proof fn lemma_frame_init_root(m: MetaView, s: TxnView, t: TxnView, now: Timestamp)
    requires
        extends(s, t),
        done(init_root_outcome(t)),
    ensures
        init_root_outcome(s) == init_root_outcome(t),
        extends(init_root_post(m, s, now), init_root_post(m, t, now)),
{
}

/// A lookup reads only what it asks for.
pub proof fn lemma_frame_lookup(m: MetaView, s: TxnView, t: TxnView, ctx: ReqContext, parent: u64, name: Seq<u8>)
    requires
        extends(s, t),
        done(lookup_outcome(m, t, ctx, parent, name)),
    ensures
        lookup_outcome(m, s, ctx, parent, name) == lookup_outcome(m, t, ctx, parent, name),
        lookup_outcome(m, t, ctx, parent, name).is_ok() ==> extends(
            lookup_post(s, parent, name),
            lookup_post(t, parent, name),
        ),
{
}

/// The requests that work on one inode read only what they ask for.
pub proof fn lemma_frame_inode(s: TxnView, t: TxnView, ino: u64, nlookup: u64, fh: u64, flush: bool)
    requires
        extends(s, t),
        done(inode_outcome(t, ino)),
    ensures
        inode_outcome(s, ino) == inode_outcome(t, ino),
        getattr_outcome(s, ino) == getattr_outcome(t, ino),
        readlink_outcome(s, ino) == readlink_outcome(t, ino),
        inode_outcome(t, ino).is_ok() ==> {
            &&& extends(forget_post(s, ino, nlookup), forget_post(t, ino, nlookup))
            &&& extends(release_post(s, ino, fh, flush), release_post(t, ino, fh, flush))
            &&& extends(releasedir_post(s, ino), releasedir_post(t, ino))
        },
{
}

/// The requests that only read one inode read only what they ask for.
pub proof fn lemma_frame_read(
    m: MetaView,
    s: TxnView,
    t: TxnView,
    ctx: ReqContext,
    ino: u64,
    offset: i64,
    size: u32,
    stat: VolumeStat,
)
    requires
        extends(s, t),
        done(inode_outcome(t, ino)),
    ensures
        read_outcome(s, ino, offset, size) == read_outcome(t, ino, offset, size),
        readdir_outcome(m, s, ctx, ino, offset) == readdir_outcome(m, t, ctx, ino, offset),
        statfs_outcome(m, s, ctx, ino, stat) == statfs_outcome(m, t, ctx, ino, stat),
{
}

/// An open reads only what it asks for.
pub proof fn lemma_frame_open(m: MetaView, s: TxnView, t: TxnView, ctx: ReqContext, ino: u64, flags: u32)
    requires
        extends(s, t),
        done(open_outcome(m, t, ctx, ino, flags)),
    ensures
        open_outcome(m, s, ctx, ino, flags) == open_outcome(m, t, ctx, ino, flags),
        open_outcome(m, t, ctx, ino, flags).is_ok() ==> extends(open_post(s, ino), open_post(t, ino)),
{
}

/// A setattr reads only what it asks for.
pub proof fn lemma_frame_setattr(
    m: MetaView,
    s: TxnView,
    t: TxnView,
    ctx: ReqContext,
    ino: u64,
    p: SetAttrParam,
    now: Timestamp,
)
    requires
        extends(s, t),
        done(setattr_outcome(m, t, ctx, ino, p, now)),
    ensures
        setattr_outcome(m, s, ctx, ino, p, now) == setattr_outcome(m, t, ctx, ino, p, now),
        setattr_outcome(m, t, ctx, ino, p, now).is_ok() ==> extends(
            setattr_post(s, ino, p, now),
            setattr_post(t, ino, p, now),
        ),
{
}

/// Recording a write reads only what it asks for.
pub proof fn lemma_frame_write(
    m: MetaView,
    s: TxnView,
    t: TxnView,
    ino: u64,
    offset: i64,
    len: usize,
    now: Timestamp,
)
    requires
        extends(s, t),
        done(write_outcome(t, ino, offset, len)),
    ensures
        write_outcome(s, ino, offset, len) == write_outcome(t, ino, offset, len),
        write_outcome(t, ino, offset, len).is_ok() ==> extends(
            write_post(m, s, ino, offset, len, now),
            write_post(m, t, ino, offset, len, now),
        ),
{
}

/// A creation reads only what it asks for.
pub proof fn lemma_frame_mknod(s: TxnView, t: TxnView, p: CreateParamView, now: Timestamp)
    requires
        extends(s, t),
        done(mknod_outcome(t, p, now)),
    ensures
        mknod_outcome(s, p, now) == mknod_outcome(t, p, now),
        mknod_outcome(t, p, now).is_ok() ==> extends(mknod_post(s, p, now), mknod_post(t, p, now)),
{
}

/// Unlinking an inode reads only what it asks for.
pub proof fn lemma_frame_deferred_delete(m: MetaView, s: TxnView, t: TxnView, ino: u64, from_remote: bool)
    requires
        extends(s, t),
        done(deferred_delete_outcome(t, ino)),
    ensures
        deferred_delete_outcome(s, ino) == deferred_delete_outcome(t, ino),
        deferred_delete_outcome(t, ino).is_ok() ==> extends(
            deferred_delete_post(m, s, ino, from_remote),
            deferred_delete_post(m, t, ino, from_remote),
        ),
{
}

/// Removing an entry reads only what it asks for.
pub proof fn lemma_frame_remove_node(
    m: MetaView,
    s: TxnView,
    t: TxnView,
    ctx: ReqContext,
    parent: u64,
    name: Seq<u8>,
    node_type: FileKind,
    from_remote: bool,
)
    requires
        extends(s, t),
        done(remove_node_outcome(m, t, ctx, parent, name, node_type)),
    ensures
        remove_node_outcome(m, s, ctx, parent, name, node_type) == remove_node_outcome(
            m,
            t,
            ctx,
            parent,
            name,
            node_type,
        ),
        remove_node_outcome(m, t, ctx, parent, name, node_type).is_ok() ==> extends(
            remove_node_post(m, s, parent, name, from_remote),
            remove_node_post(m, t, parent, name, from_remote),
        ),
{
    if remove_node_outcome(m, t, ctx, parent, name, node_type).is_ok() {
        let ino = crate::remove::child_of(t, parent, name);
        lemma_frame_deferred_delete(m, s, t, ino, from_remote);
    }
}

/// An unlink and an rmdir read only what they ask for.
pub proof fn lemma_frame_unlink(m: MetaView, s: TxnView, t: TxnView, ctx: ReqContext, parent: u64, name: Seq<u8>)
    requires
        extends(s, t),
    ensures
        done(unlink_outcome(m, t, ctx, parent, name)) ==> unlink_outcome(m, s, ctx, parent, name)
            == unlink_outcome(m, t, ctx, parent, name),
        done(rmdir_outcome(m, t, ctx, parent, name)) ==> rmdir_outcome(m, s, ctx, parent, name)
            == rmdir_outcome(m, t, ctx, parent, name),
        unlink_outcome(m, t, ctx, parent, name).is_ok() || rmdir_outcome(m, t, ctx, parent, name).is_ok()
            ==> extends(
            remove_node_post(m, s, parent, name, false),
            remove_node_post(m, t, parent, name, false),
        ),
{
    if done(unlink_outcome(m, t, ctx, parent, name)) && t.present(parent) && t.node(parent).is_dir()
        && t.node(parent).entry(name) is Some {
        let kind = t.node(parent).entry(name)->0.kind;
        if kind != FileKind::Dir {
            lemma_frame_remove_node(m, s, t, ctx, parent, name, kind, false);
        }
    }
    if done(rmdir_outcome(m, t, ctx, parent, name)) && t.present(parent) && t.node(parent).is_dir()
        && t.node(parent).entry(name) is Some {
        if t.node(parent).entry(name)->0.kind == FileKind::Dir {
            lemma_frame_remove_node(m, s, t, ctx, parent, name, FileKind::Dir, false);
        }
    }
}

/// A rename that may replace its destination reads only what it asks for.
pub proof fn lemma_frame_rename_may_replace(
    m: MetaView,
    s: TxnView,
    t: TxnView,
    ctx: ReqContext,
    p: RenameParamView,
    from_remote: bool,
)
    requires
        extends(s, t),
        done(rename_may_replace_outcome(m, t, ctx, p)),
    ensures
        rename_may_replace_outcome(m, s, ctx, p) == rename_may_replace_outcome(m, t, ctx, p),
        rename_may_replace_outcome(m, t, ctx, p).is_ok() ==> extends(
            rename_may_replace_post(m, s, ctx, p, from_remote),
            rename_may_replace_post(m, t, ctx, p, from_remote),
        ),
{
    let no_replace = p.flags == RENAME_NOREPLACE;
    let pre_t = rename_pre_check_spec(
        m,
        t,
        ctx,
        p.old_parent,
        p.old_name,
        p.new_parent,
        p.new_name,
        no_replace,
    );
    let pre_s = rename_pre_check_spec(
        m,
        s,
        ctx,
        p.old_parent,
        p.old_name,
        p.new_parent,
        p.new_name,
        no_replace,
    );
    assert(done(pre_t));
    assert(pre_s == pre_t);
    if pre_t.is_ok() {
        let (old_ino, new_ino) = pre_t.value();
        assert(t.present(p.old_parent) && t.present(p.new_parent) && t.present(old_ino));
        match new_ino {
            Some(ti) => {
                assert(t.present(ti));
                if ti != old_ino && ti != p.old_parent && t.node(ti).parent == p.new_parent && t.node(
                    ti,
                ).name == p.new_name {
                    lemma_frame_deferred_delete(m, s, t, ti, from_remote);
                }
            },
            None => {},
        }
    }
}

/// An exchange reads only what it asks for.
pub proof fn lemma_frame_rename_exchange(m: MetaView, s: TxnView, t: TxnView, ctx: ReqContext, p: RenameParamView)
    requires
        extends(s, t),
        done(rename_exchange_outcome(m, t, ctx, p)),
    ensures
        rename_exchange_outcome(m, s, ctx, p) == rename_exchange_outcome(m, t, ctx, p),
        rename_exchange_outcome(m, t, ctx, p).is_ok() ==> extends(
            rename_exchange_post(s, p),
            rename_exchange_post(t, p),
        ),
{
    if p.flags & RENAME_NOREPLACE == 0 {
        let pre_t = exchange_pre_check_spec(m, t, ctx, p.old_parent, p.old_name, p.new_parent, p.new_name);
        let pre_s = exchange_pre_check_spec(m, s, ctx, p.old_parent, p.old_name, p.new_parent, p.new_name);
        assert(done(pre_t));
        assert(pre_s == pre_t);
        if pre_t.is_ok() {
            let (oi, ni) = pre_t.value();
            assert(t.present(p.old_parent) && t.present(p.new_parent) && t.present(oi) && t.present(ni));
        }
    }
}

} // verus!
