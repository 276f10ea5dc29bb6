//! The invariants of the catalog, and the proof that every request keeps them.
//!
//! The invariants speak of the whole store. A transaction that has read every
//! key stands for it: its image is the store, and the image after a handler is
//! the store after the commit.

use vstd::prelude::*;
use crate::access::{
    forget_post, init_root_outcome, init_root_post, inode_outcome, lookup_outcome, lookup_post,
    open_outcome, open_post, release_post, releasedir_post, setattr_outcome, setattr_post,
};
use crate::attr::{FileKind, ReqContext, Timestamp};
use crate::create::{created_kind, mknod_outcome, mknod_post};
use crate::data::{write_outcome, write_post};
use crate::dir::{dir_get, lemma_get, lemma_insert, lemma_remove, DirEntryView};
use crate::meta::{settled, MetaView, RenameParamView};
use crate::node::{
    child_node, create_error, node_wf, root_node, setattr_apply, setattr_error, CreateParamView,
    NodeView, SetAttrParam, FUSE_ROOT_ID,
};
use crate::rename::{
    exchange_pre_check_spec, rename_exchange_outcome, rename_exchange_post, rename_in_cache_post,
    rename_may_replace_outcome, rename_may_replace_post, rename_pre_check_spec, rename_targets,
};
use crate::meta::RENAME_NOREPLACE;
use crate::remove::{
    child_of, deferred_delete_outcome, deferred_delete_post, remove_node_outcome, remove_node_post,
    rmdir_outcome, unlink_outcome,
};
use crate::txn::{EffectView, TxnView};

verus! {

/// The transaction has read or written every key: its image is the whole
/// store.
pub open spec fn complete(t: TxnView) -> bool {
    forall|k: u64| #[trigger] t.image.dom().contains(k)
}

/// Every record stands under its own inode number.
pub open spec fn keys_match(t: TxnView) -> bool {
    forall|k: u64| #[trigger] t.present(k) ==> t.node(k).attr.ino == k
}

/// The root exists: a directory that is its own parent and is not unlinked.
pub open spec fn root_ok(t: TxnView) -> bool {
    &&& t.present(FUSE_ROOT_ID)
    &&& t.node(FUSE_ROOT_ID).is_dir()
    &&& t.node(FUSE_ROOT_ID).parent == FUSE_ROOT_ID
    &&& !t.node(FUSE_ROOT_ID).deferred_deletion
}

/// The entry `e`, which the directory `d` holds under `name`, names an inode
/// that exists, is not the root and not unlinked, and agrees with the entry:
/// `d` is its parent, `name` its name, and its kind the entry's.
pub open spec fn entry_ok(t: TxnView, d: u64, name: Seq<u8>, e: DirEntryView) -> bool {
    &&& e.ino != FUSE_ROOT_ID
    &&& t.present(e.ino)
    &&& t.node(e.ino).parent == d
    &&& t.node(e.ino).name == name
    &&& !t.node(e.ino).deferred_deletion
    &&& t.node(e.ino).attr.kind == e.kind
}

/// Every entry of every directory names an inode that exists and agrees with
/// it.
pub open spec fn entries_ok(t: TxnView) -> bool {
    forall|d: u64, name: Seq<u8>|
        t.present(d) && (#[trigger] t.node(d).entry(name)) is Some ==> entry_ok(
            t,
            d,
            name,
            t.node(d).entry(name)->0,
        )
}

/// The inode `k` is linked: it exists, is not the root, and is not unlinked.
pub open spec fn linked(t: TxnView, k: u64) -> bool {
    t.present(k) && k != FUSE_ROOT_ID && !t.node(k).deferred_deletion
}

/// The parent of the linked inode `k` is a directory that exists and holds,
/// under the inode's name, an entry that names it.
pub open spec fn parent_ok(t: TxnView, k: u64) -> bool {
    let n = t.node(k);
    &&& t.present(n.parent)
    &&& t.node(n.parent).is_dir()
    &&& t.node(n.parent).entry(n.name) is Some
    &&& t.node(n.parent).entry(n.name)->0.ino == k
}

/// Every linked inode has its entry in its parent.
pub open spec fn parents_ok(t: TxnView) -> bool {
    forall|k: u64| #[trigger] linked(t, k) ==> parent_ok(t, k)
}

/// An unlinked inode that waits for its references has no entries.
pub open spec fn deferred_ok(t: TxnView) -> bool {
    forall|k: u64| #[trigger] t.present(k) && t.node(k).deferred_deletion ==> t.node(k).entries.len() == 0
}

/// The invariants of the catalog, stated of a transaction that holds the
/// whole store:
/// every entry names an inode that exists; every inode but the root, unless
/// it is unlinked and waiting, has a parent directory with an entry that
/// names it under its name; the reference counts are not negative; every
/// record stands under its own number, and the root under 1; the size of
/// a directory is the number of its entries.
pub open spec fn catalog_inv(t: TxnView) -> bool {
    &&& complete(t)
    &&& t.wf()
    &&& keys_match(t)
    &&& root_ok(t)
    &&& entries_ok(t)
    &&& parents_ok(t)
    &&& deferred_ok(t)
}

/// What the catalog invariants say in the words of the data model.
pub proof fn lemma_catalog_inv_means(t: TxnView)
    requires
        catalog_inv(t),
    ensures
        // every entry of a directory names an inode that exists
        forall|d: u64, name: Seq<u8>|
            t.present(d) && (#[trigger] t.node(d).entry(name)) is Some ==> t.present(
                t.node(d).entry(name)->0.ino,
            ),
        // every inode but the root, unless it is unlinked and waiting, has a
        // parent directory that holds an entry for it under its name
        forall|k: u64|
            #[trigger] t.present(k) && k != FUSE_ROOT_ID && !t.node(k).deferred_deletion ==> {
                &&& t.present(t.node(k).parent)
                &&& t.node(t.node(k).parent).is_dir()
                &&& t.node(t.node(k).parent).entry(t.node(k).name) is Some
                &&& t.node(t.node(k).parent).entry(t.node(k).name)->0.ino == k
            },
        // the reference counts are not negative
        forall|k: u64| #[trigger] t.present(k) ==> t.node(k).lookup_count >= 0 && t.node(k).open_count >= 0,
        // inode numbers are unique, and 1 is the root
        forall|k: u64| #[trigger] t.present(k) ==> t.node(k).attr.ino == k,
        t.present(FUSE_ROOT_ID) && t.node(FUSE_ROOT_ID).is_dir(),
        // the size of a directory is the number of its entries
        forall|k: u64| #[trigger]
            t.present(k) && t.node(k).is_dir() ==> t.node(k).attr.size == t.node(k).entries.len(),
{
    assert forall|d: u64, name: Seq<u8>|
        t.present(d) && (#[trigger] t.node(d).entry(name)) is Some implies t.present(
        t.node(d).entry(name)->0.ino,
    ) by {
        assert(entry_ok(t, d, name, t.node(d).entry(name)->0));
    }
    assert forall|k: u64|
        #[trigger] t.present(k) && k != FUSE_ROOT_ID && !t.node(k).deferred_deletion implies {
        &&& t.present(t.node(k).parent)
        &&& t.node(t.node(k).parent).is_dir()
        &&& t.node(t.node(k).parent).entry(t.node(k).name) is Some
        &&& t.node(t.node(k).parent).entry(t.node(k).name)->0.ino == k
    } by {
        assert(linked(t, k));
        assert(parent_ok(t, k));
    }
}

/// Noting an effect changes nothing in the catalog.
pub proof fn lemma_inv_emit(t: TxnView, e: EffectView)
    requires
        catalog_inv(t),
    ensures
        catalog_inv(t.emit(e)),
{
    let u = t.emit(e);
    assert(u.image == t.image);
    assert forall|k: u64| #[trigger] u.present(k) implies node_wf(u.node(k)) && u.node(k).attr.ino == k by {
        assert(t.present(k));
    }
    assert forall|d: u64, name: Seq<u8>|
        u.present(d) && (#[trigger] u.node(d).entry(name)) is Some implies entry_ok(
        u,
        d,
        name,
        u.node(d).entry(name)->0,
    ) by {
        assert(t.node(d).entry(name) is Some);
        assert(entry_ok(t, d, name, t.node(d).entry(name)->0));
    }
    assert forall|k: u64| #[trigger] linked(u, k) implies parent_ok(u, k) by {
        assert(linked(t, k));
        assert(parent_ok(t, k));
    }
    assert forall|k: u64| #[trigger] u.present(k) && u.node(k).deferred_deletion implies u.node(
        k,
    ).entries.len() == 0 by {
        assert(t.present(k));
    }
}

/// A record may be replaced by one that differs from it in what no invariant
/// reads: the counts, and the attributes but for the number and the kind.
pub proof fn lemma_inv_put_alike(t: TxnView, k: u64, n: NodeView)
    requires
        catalog_inv(t),
        t.present(k),
        node_wf(n),
        n.parent == t.node(k).parent,
        n.name == t.node(k).name,
        n.entries == t.node(k).entries,
        n.deferred_deletion == t.node(k).deferred_deletion,
        n.attr.kind == t.node(k).attr.kind,
        n.attr.ino == t.node(k).attr.ino,
    ensures
        catalog_inv(t.put(k, n)),
{
    let u = t.put(k, n);
    assert forall|j: u64| u.present(j) == t.present(j) by {}
    assert forall|j: u64| #[trigger] u.present(j) implies node_wf(u.node(j)) && u.node(j).attr.ino == j by {
        assert(t.present(j));
    }
    assert forall|j: u64| #[trigger] u.written.contains(j) implies u.image.dom().contains(j) by {}
    assert forall|d: u64, name: Seq<u8>|
        u.present(d) && (#[trigger] u.node(d).entry(name)) is Some implies entry_ok(
        u,
        d,
        name,
        u.node(d).entry(name)->0,
    ) by {
        assert(t.present(d));
        assert(t.node(d).entry(name) == u.node(d).entry(name));
        assert(entry_ok(t, d, name, t.node(d).entry(name)->0));
    }
    assert forall|j: u64| #[trigger] linked(u, j) implies parent_ok(u, j) by {
        assert(linked(t, j));
        assert(parent_ok(t, j));
        let p = t.node(j).parent;
        assert(t.node(p).entry(t.node(j).name) == u.node(p).entry(u.node(j).name));
    }
    assert forall|j: u64| #[trigger] u.present(j) && u.node(j).deferred_deletion implies u.node(
        j,
    ).entries.len() == 0 by {
        assert(t.present(j));
    }
}

/// An unlinked inode may leave the store.
pub proof fn lemma_inv_del_deferred(t: TxnView, k: u64)
    requires
        catalog_inv(t),
        t.present(k),
        t.node(k).deferred_deletion,
    ensures
        catalog_inv(t.del(k)),
{
    let u = t.del(k);
    assert forall|j: u64| u.present(j) == (t.present(j) && j != k) by {}
    assert forall|j: u64| #[trigger] u.present(j) implies node_wf(u.node(j)) && u.node(j).attr.ino == j by {
        assert(t.present(j));
    }
    assert forall|d: u64, name: Seq<u8>|
        u.present(d) && (#[trigger] u.node(d).entry(name)) is Some implies entry_ok(
        u,
        d,
        name,
        u.node(d).entry(name)->0,
    ) by {
        assert(t.present(d));
        assert(t.node(d).entry(name) == u.node(d).entry(name));
        assert(entry_ok(t, d, name, t.node(d).entry(name)->0));
    }
    assert forall|j: u64| #[trigger] linked(u, j) implies parent_ok(u, j) by {
        assert(linked(t, j));
        assert(parent_ok(t, j));
        let p = t.node(j).parent;
        if p == k {
            assert(t.present(k) && t.node(k).deferred_deletion);
            lemma_get(t.node(k).entries, t.node(j).name);
        }
    }
    assert forall|j: u64| #[trigger] u.present(j) && u.node(j).deferred_deletion implies u.node(
        j,
    ).entries.len() == 0 by {
        assert(t.present(j));
    }
}

/// Dropping references from an inode keeps the invariants, whether the record
/// is written back or, unlinked and without references, leaves the store.
pub proof fn lemma_inv_settled(t: TxnView, k: u64, n: NodeView)
    requires
        catalog_inv(t),
        t.present(k),
        n == (NodeView { lookup_count: n.lookup_count, open_count: n.open_count, ..t.node(k) }),
    ensures
        catalog_inv(settled(t, k, n)),
{
    assert(node_wf(t.node(k)));
    if n.deferred_deletion && n.unreferenced() {
        lemma_inv_put_alike(t, k, n);
        let u = t.put(k, n);
        lemma_inv_del_deferred(u, k);
        assert(u.del(k) == t.del(k)) by {
            assert(u.del(k).image =~= t.del(k).image);
            assert(u.del(k).written =~= t.del(k).written);
        }
        if n.attr.kind == FileKind::File {
            lemma_inv_emit(t.del(k), EffectView::RemoveFileCache { ino: k });
            lemma_inv_emit(
                t.del(k).emit(EffectView::RemoveFileCache { ino: k }),
                EffectView::DeleteObject { ino: k },
            );
        }
    } else {
        lemma_inv_put_alike(t, k, n);
    }
}

/// The first mount of an empty store makes a catalog that meets the
/// invariants.
pub proof fn lemma_inv_init_root(m: MetaView, t: TxnView, now: Timestamp)
    requires
        complete(t),
        t.wf(),
        forall|k: u64| !t.present(k),
    ensures
        init_root_outcome(t) == crate::txn::Step::Done(Ok::<bool, crate::error::MetaError>(true)),
        catalog_inv(init_root_post(m, t, now)),
{
    assert(t.image.dom().contains(FUSE_ROOT_ID));
    assert(!t.present(FUSE_ROOT_ID));
    let r = root_node(m.root_uid, m.root_gid, now);
    let u = t.put(FUSE_ROOT_ID, r);
    assert(init_root_post(m, t, now) == u);
    assert forall|j: u64| u.present(j) == (j == FUSE_ROOT_ID) by {
        assert(!t.present(j));
    }
    assert forall|name: Seq<u8>| dir_get(r.entries, name) is None by {}
    assert forall|d: u64, name: Seq<u8>|
        u.present(d) && (#[trigger] u.node(d).entry(name)) is Some implies entry_ok(
        u,
        d,
        name,
        u.node(d).entry(name)->0,
    ) by {
        assert(dir_get(r.entries, name) is None);
    }
}

/// The bootstrap of a store that has a root changes nothing.
pub proof fn lemma_init_root_idempotent(m: MetaView, t: TxnView, now: Timestamp)
    requires
        t.present(FUSE_ROOT_ID),
    ensures
        init_root_outcome(t) == crate::txn::Step::Done(Ok::<bool, crate::error::MetaError>(false)),
        init_root_post(m, t, now) == t,
{
}

/// A lookup keeps the invariants.
pub proof fn lemma_inv_lookup(m: MetaView, t: TxnView, ctx: ReqContext, parent: u64, name: Seq<u8>)
    requires
        catalog_inv(t),
        lookup_outcome(m, t, ctx, parent, name).is_ok(),
    ensures
        catalog_inv(lookup_post(t, parent, name)),
{
    let ino = t.node(parent).entry(name)->0.ino;
    assert(t.present(ino));
    assert(node_wf(t.node(ino)));
    lemma_inv_put_alike(t, ino, t.node(ino).looked_up());
}

/// A forget keeps the invariants.
pub proof fn lemma_inv_forget(t: TxnView, ino: u64, nlookup: u64)
    requires
        catalog_inv(t),
        inode_outcome(t, ino).is_ok(),
    ensures
        catalog_inv(forget_post(t, ino, nlookup)),
{
    lemma_inv_settled(t, ino, t.node(ino).forgotten(nlookup));
}

/// A release of a file handle keeps the invariants.
pub proof fn lemma_inv_release(t: TxnView, ino: u64, fh: u64, flush: bool)
    requires
        catalog_inv(t),
        inode_outcome(t, ino).is_ok(),
    ensures
        catalog_inv(release_post(t, ino, fh, flush)),
{
    if flush {
        let e = EffectView::FlushFile { ino, fh };
        lemma_inv_emit(t, e);
        lemma_inv_settled(t.emit(e), ino, t.node(ino).released());
    } else {
        lemma_inv_settled(t, ino, t.node(ino).released());
    }
}

/// A release of a directory handle keeps the invariants.
pub proof fn lemma_inv_releasedir(t: TxnView, ino: u64)
    requires
        catalog_inv(t),
        inode_outcome(t, ino).is_ok(),
    ensures
        catalog_inv(releasedir_post(t, ino)),
{
    lemma_inv_settled(t, ino, t.node(ino).released());
}

/// An open keeps the invariants.
pub proof fn lemma_inv_open(m: MetaView, t: TxnView, ctx: ReqContext, ino: u64, flags: u32)
    requires
        catalog_inv(t),
        open_outcome(m, t, ctx, ino, flags).is_ok(),
    ensures
        catalog_inv(open_post(t, ino)),
{
    assert(t.present(ino));
    assert(node_wf(t.node(ino)));
    lemma_inv_put_alike(t, ino, t.node(ino).opened());
}

/// A setattr keeps the invariants.
pub proof fn lemma_inv_setattr(
    m: MetaView,
    t: TxnView,
    ctx: ReqContext,
    ino: u64,
    p: SetAttrParam,
    now: Timestamp,
)
    requires
        catalog_inv(t),
        setattr_outcome(m, t, ctx, ino, p, now).is_ok(),
    ensures
        catalog_inv(setattr_post(t, ino, p, now)),
{
    assert(t.present(ino));
    let n = t.node(ino);
    assert(node_wf(n));
    let a = setattr_apply(n.attr, p, now);
    assert(setattr_error(m.need_check_perm, n.attr, p, ctx.uid, ctx.gid) is None);
    lemma_inv_put_alike(t, ino, n.with_attr(a));
    if p.size is Some && p.size->0 != n.attr.size {
        lemma_inv_emit(t.put(ino, n.with_attr(a)), EffectView::TruncateObject { ino, size: p.size->0 });
    }
}

/// Recording a write keeps the invariants.
pub proof fn lemma_inv_write(m: MetaView, t: TxnView, ino: u64, offset: i64, len: usize, now: Timestamp)
    requires
        catalog_inv(t),
        write_outcome(t, ino, offset, len).is_ok(),
    ensures
        catalog_inv(write_post(m, t, ino, offset, len, now)),
{
    assert(t.present(ino));
    let n = t.node(ino);
    assert(node_wf(n));
    let w = n.written((offset + len) as u64, now);
    lemma_inv_put_alike(t, ino, w);
    if len != 0 {
        lemma_inv_emit(
            t.put(ino, w),
            EffectView::InvalidateRemote {
                ino,
                block_start: (offset / m.block_size) as u64,
                block_end: ((offset + len - 1) / (m.block_size as int)) as u64,
            },
        );
    }
}

/// A creation keeps the invariants, given that the inode number is fresh (it
/// is not the root's and no record stands under it), that the parent has not
/// been unlinked, and that its size can count one more entry.
pub proof fn lemma_inv_mknod(t: TxnView, p: CreateParamView, now: Timestamp)
    requires
        catalog_inv(t),
        mknod_outcome(t, p, now).is_ok(),
        t.inum->0 != FUSE_ROOT_ID,
        !t.present(t.inum->0),
        !t.node(p.parent).deferred_deletion,
        t.node(p.parent).entries.len() < u64::MAX,
    ensures
        catalog_inv(mknod_post(t, p, now)),
{
    let i = t.inum->0;
    let kind = created_kind(p);
    let dir = t.node(p.parent);
    let e = DirEntryView { name: p.name, ino: i, kind };
    let c = child_node(p, kind, i, now);
    let dir2 = dir.with_entry(e);
    let u = t.put(i, c).put(p.parent, dir2).with_inum(None);
    assert(t.present(p.parent));
    assert(create_error(dir, p) is None);
    assert(node_wf(dir));
    lemma_insert(dir.entries, e);
    assert(node_wf(dir2));
    assert(node_wf(c));
    assert forall|name: Seq<u8>| dir_get(c.entries, name) is None by {}
    assert forall|j: u64| u.present(j) == (t.present(j) || j == i) by {}
    assert forall|j: u64| #[trigger] u.present(j) implies node_wf(u.node(j)) && u.node(j).attr.ino == j by {
        if j != i && j != p.parent {
            assert(t.present(j));
        }
    }
    assert forall|j: u64| #[trigger] u.written.contains(j) implies u.image.dom().contains(j) by {}
    assert forall|d: u64, name: Seq<u8>|
        u.present(d) && (#[trigger] u.node(d).entry(name)) is Some implies entry_ok(
        u,
        d,
        name,
        u.node(d).entry(name)->0,
    ) by {
        if d == p.parent {
            if name != p.name {
                assert(dir2.entry(name) == dir.entry(name));
                assert(entry_ok(t, d, name, t.node(d).entry(name)->0));
            }
        } else if d == i {
            assert(dir_get(c.entries, name) is None);
        } else {
            assert(t.present(d));
            assert(t.node(d).entry(name) == u.node(d).entry(name));
            assert(entry_ok(t, d, name, t.node(d).entry(name)->0));
        }
    }
    assert forall|j: u64| #[trigger] linked(u, j) implies parent_ok(u, j) by {
        if j == i {
        } else {
            assert(linked(t, j));
            assert(parent_ok(t, j));
            let pj = t.node(j).parent;
            if pj == p.parent {
                assert(dir2.entry(t.node(j).name) == dir.entry(t.node(j).name));
            }
        }
    }
    assert forall|j: u64| #[trigger] u.present(j) && u.node(j).deferred_deletion implies u.node(
        j,
    ).entries.len() == 0 by {
        if j != i && j != p.parent {
            assert(t.present(j));
        }
    }
    assert(catalog_inv(u));
    if kind == FileKind::File {
        lemma_inv_emit(u, EffectView::CreateObject { ino: i });
    }
}

/// Unlinking an inode that has no entries keeps the invariants.
pub proof fn lemma_inv_deferred_delete(m: MetaView, t: TxnView, ino: u64, from_remote: bool)
    requires
        catalog_inv(t),
        deferred_delete_outcome(t, ino).is_ok(),
        t.node(ino).entries.len() == 0,
    ensures
        catalog_inv(deferred_delete_post(m, t, ino, from_remote)),
{
    let n = t.node(ino);
    let pi = n.parent;
    let pn = t.node(pi);
    assert(t.present(ino) && t.present(pi));
    assert(node_wf(pn) && node_wf(n));
    assert(pn.entry(n.name) is Some);
    assert(entry_ok(t, pi, n.name, pn.entry(n.name)->0));
    lemma_remove(pn.entries, n.name);
    let pn2 = pn.without_entry(n.name);
    assert(node_wf(pn2));
    assert forall|name: Seq<u8>| dir_get(n.entries, name) is None by {}
    let t1 = if !n.unreferenced() {
        t.put(ino, n.deferred())
    } else {
        t.del(ino)
    };
    let u = t1.put(pi, pn2);
    assert forall|j: u64| #[trigger] u.present(j) implies node_wf(u.node(j)) && u.node(j).attr.ino == j by {
        if j != ino && j != pi {
            assert(t.present(j));
        }
    }
    assert forall|j: u64| #[trigger] u.written.contains(j) implies u.image.dom().contains(j) by {}
    assert forall|d: u64, name: Seq<u8>|
        u.present(d) && (#[trigger] u.node(d).entry(name)) is Some implies entry_ok(
        u,
        d,
        name,
        u.node(d).entry(name)->0,
    ) by {
        if d == pi {
            assert(name != n.name);
            assert(pn2.entry(name) == pn.entry(name));
            assert(entry_ok(t, d, name, t.node(d).entry(name)->0));
        } else if d == ino {
            assert(dir_get(n.entries, name) is None);
        } else {
            assert(t.present(d));
            assert(t.node(d).entry(name) == u.node(d).entry(name));
            assert(entry_ok(t, d, name, t.node(d).entry(name)->0));
        }
    }
    assert forall|j: u64| #[trigger] linked(u, j) implies parent_ok(u, j) by {
        assert(j != ino);
        assert(linked(t, j));
        assert(parent_ok(t, j));
        let pj = t.node(j).parent;
        if pj == pi {
            assert(pn2.entry(t.node(j).name) == pn.entry(t.node(j).name));
        } else if pj == ino {
            assert(dir_get(n.entries, t.node(j).name) is None);
        }
    }
    assert forall|j: u64| #[trigger] u.present(j) && u.node(j).deferred_deletion implies u.node(
        j,
    ).entries.len() == 0 by {
        if j != ino && j != pi {
            assert(t.present(j));
        } else if j == pi {
            assert(t.present(pi));
        }
    }
    assert(catalog_inv(u));
    // the effects that go with the two cases
    if !n.unreferenced() {
        if from_remote && n.lookup_count > 0 {
            let e = EffectView::NotifyDelete { fuse_fd: m.fuse_fd, parent: pi, ino, name: n.name };
            lemma_inv_emit(u, e);
            assert(deferred_delete_post(m, t, ino, from_remote) == u.emit(e));
        }
    } else if n.attr.kind == FileKind::File {
        let e1 = EffectView::RemoveFileCache { ino };
        let e2 = EffectView::DeleteObject { ino };
        lemma_inv_emit(u, e1);
        lemma_inv_emit(u.emit(e1), e2);
        assert(deferred_delete_post(m, t, ino, from_remote) == u.emit(e1).emit(e2));
    }
}

/// Removing an entry keeps the invariants.
pub proof fn lemma_inv_remove_node(
    m: MetaView,
    t: TxnView,
    ctx: ReqContext,
    parent: u64,
    name: Seq<u8>,
    node_type: FileKind,
    from_remote: bool,
)
    requires
        catalog_inv(t),
        remove_node_outcome(m, t, ctx, parent, name, node_type).is_ok(),
    ensures
        catalog_inv(remove_node_post(m, t, parent, name, from_remote)),
{
    let ino = child_of(t, parent, name);
    assert(t.present(parent));
    assert(t.present(ino));
    assert(node_wf(t.node(ino)));
    lemma_inv_deferred_delete(m, t, ino, from_remote);
}

/// An unlink keeps the invariants.
pub proof fn lemma_inv_unlink(m: MetaView, t: TxnView, ctx: ReqContext, parent: u64, name: Seq<u8>)
    requires
        catalog_inv(t),
        unlink_outcome(m, t, ctx, parent, name).is_ok(),
    ensures
        catalog_inv(remove_node_post(m, t, parent, name, false)),
{
    lemma_inv_remove_node(m, t, ctx, parent, name, t.node(parent).entry(name)->0.kind, false);
}

/// An rmdir keeps the invariants.
pub proof fn lemma_inv_rmdir(m: MetaView, t: TxnView, ctx: ReqContext, parent: u64, name: Seq<u8>)
    requires
        catalog_inv(t),
        rmdir_outcome(m, t, ctx, parent, name).is_ok(),
    ensures
        catalog_inv(remove_node_post(m, t, parent, name, false)),
{
    lemma_inv_remove_node(m, t, ctx, parent, name, FileKind::Dir, false);
}

/// The transaction after the entry `old_name` of `old_parent` moved to
/// `new_name` of `new_parent`, with the inode that it names.
pub open spec fn move_post(t: TxnView, old_parent: u64, old_name: Seq<u8>, new_parent: u64, new_name: Seq<u8>)
    -> TxnView {
    let ino = child_of(t, old_parent, old_name);
    rename_in_cache_post(
        t.put(ino, t.node(ino).moved(new_parent, new_name)),
        old_parent,
        old_name,
        new_parent,
        new_name,
    )
}

/// Moving an entry to a free name of a directory that has not been unlinked,
/// and whose size can count one more entry, keeps the invariants.
pub proof fn lemma_inv_move(t: TxnView, old_parent: u64, old_name: Seq<u8>, new_parent: u64, new_name: Seq<u8>)
    requires
        catalog_inv(t),
        t.present(old_parent),
        t.node(old_parent).entry(old_name) is Some,
        t.present(new_parent),
        t.node(new_parent).is_dir(),
        !t.node(new_parent).deferred_deletion,
        t.node(new_parent).entry(new_name) is None,
        t.node(new_parent).entries.len() < u64::MAX,
    ensures
        catalog_inv(move_post(t, old_parent, old_name, new_parent, new_name)),
{
    let p1 = old_parent;
    let p2 = new_parent;
    let oe = t.node(p1).entry(old_name)->0;
    let mi = oe.ino;
    let mnode = t.node(mi);
    assert(entry_ok(t, p1, old_name, oe));
    assert(node_wf(t.node(p1)) && node_wf(t.node(p2)) && node_wf(mnode));
    let e2 = DirEntryView { name: new_name, ino: mi, kind: oe.kind };
    let s1 = t.node(p1).entries;
    let r1 = crate::dir::dir_remove(s1, old_name);
    let base = if p1 == p2 {
        r1
    } else {
        t.node(p2).entries
    };
    let r2 = crate::dir::dir_insert(base, e2);
    lemma_remove(s1, old_name);
    lemma_insert(base, e2);
    lemma_get(s1, old_name);
    let t2 = t.put(mi, mnode.moved(p2, new_name));
    let t3 = t2.put(p1, t2.node(p1).without_entry(old_name));
    let u = t3.put(p2, t3.node(p2).with_entry(e2));
    assert(u == move_post(t, p1, old_name, p2, new_name));
    assert(t3.node(p2).entries == base);
    assert(dir_get(base, new_name) is None);
    // what each record of the new image is
    assert forall|k: u64| #[trigger] u.present(k) == t.present(k) by {}
    assert forall|k: u64| #[trigger] t.present(k) implies {
        &&& u.node(k).entries == (if k == p2 {
            r2
        } else if k == p1 {
            r1
        } else {
            t.node(k).entries
        })
        &&& u.node(k).parent == (if k == mi {
            p2
        } else {
            t.node(k).parent
        })
        &&& u.node(k).name == (if k == mi {
            new_name
        } else {
            t.node(k).name
        })
        &&& u.node(k).deferred_deletion == t.node(k).deferred_deletion
        &&& u.node(k).attr.kind == t.node(k).attr.kind
        &&& u.node(k).attr.ino == t.node(k).attr.ino
        &&& node_wf(u.node(k))
    } by {
        assert(node_wf(t.node(k)));
    }
    assert forall|j: u64| #[trigger] u.present(j) implies node_wf(u.node(j)) && u.node(j).attr.ino == j by {
        assert(t.present(j));
    }
    assert forall|j: u64| #[trigger] u.written.contains(j) implies u.image.dom().contains(j) by {}
    assert(root_ok(u)) by {
        assert(t.present(FUSE_ROOT_ID));
    }
    assert forall|d: u64, name: Seq<u8>|
        u.present(d) && (#[trigger] u.node(d).entry(name)) is Some implies entry_ok(
        u,
        d,
        name,
        u.node(d).entry(name)->0,
    ) by {
        assert(t.present(d));
        let e = u.node(d).entry(name)->0;
        if d == p2 && name == new_name {
            assert(e == e2);
            assert(t.present(mi));
        } else {
            // the entry stood in the old image under the same name
            assert(t.node(d).entry(name) == Some(e) && !(d == p1 && name == old_name)) by {
                if d == p2 {
                    assert(dir_get(r2, name) == dir_get(base, name));
                    if p1 == p2 {
                        assert(name != old_name);
                        assert(dir_get(r1, name) == dir_get(s1, name));
                    }
                } else if d == p1 {
                    assert(name != old_name);
                    assert(dir_get(r1, name) == dir_get(s1, name));
                }
            }
            assert(entry_ok(t, d, name, e));
            assert(t.present(e.ino));
            assert(e.ino != mi);
        }
    }
    assert forall|j: u64| #[trigger] linked(u, j) implies parent_ok(u, j) by {
        assert(t.present(j));
        if j == mi {
            assert(u.node(p2).entry(new_name) == Some(e2));
        } else {
            assert(linked(t, j));
            assert(parent_ok(t, j));
            let pj = t.node(j).parent;
            let nj = t.node(j).name;
            let e = t.node(pj).entry(nj)->0;
            assert(t.present(pj));
            assert(!(pj == p1 && nj == old_name));
            if pj == p1 {
                assert(dir_get(r1, nj) == dir_get(s1, nj));
            }
            assert(dir_get(base, nj) == Some(e) || pj != p2);
            if pj == p2 {
                assert(nj != new_name);
                assert(dir_get(r2, nj) == dir_get(base, nj));
            }
            assert(u.node(pj).entry(nj) == Some(e));
        }
    }
    assert forall|j: u64| #[trigger] u.present(j) && u.node(j).deferred_deletion implies u.node(
        j,
    ).entries.len() == 0 by {
        assert(t.present(j));
        assert(j != p2);
    }
}

/// A rename that may replace its destination keeps the invariants, given
/// that the new parent has not been unlinked, that its size can count one more
/// entry, and that an inode which the rename replaces has no entries.
pub proof fn lemma_inv_rename_may_replace(
    m: MetaView,
    t: TxnView,
    ctx: ReqContext,
    p: RenameParamView,
    from_remote: bool,
)
    requires
        catalog_inv(t),
        rename_may_replace_outcome(m, t, ctx, p).is_ok(),
        !t.node(p.new_parent).deferred_deletion,
        t.node(p.new_parent).entries.len() < u64::MAX,
        rename_targets(m, t, ctx, p).1 matches Some(ti) ==> t.node(ti).entries.len() == 0,
    ensures
        catalog_inv(rename_may_replace_post(m, t, ctx, p, from_remote)),
{
    let (mi, new_ino) = rename_targets(m, t, ctx, p);
    let p1 = p.old_parent;
    let p2 = p.new_parent;
    assert(rename_pre_check_spec(
        m,
        t,
        ctx,
        p1,
        p.old_name,
        p2,
        p.new_name,
        p.flags == RENAME_NOREPLACE,
    ).is_ok());
    assert(t.present(p1) && t.present(p2));
    assert(mi == child_of(t, p1, p.old_name));
    assert(entry_ok(t, p1, p.old_name, t.node(p1).entry(p.old_name)->0));
    match new_ino {
        None => {
            lemma_inv_move(t, p1, p.old_name, p2, p.new_name);
        },
        Some(ti) => {
            if ti != mi {
                assert(entry_ok(t, p2, p.new_name, t.node(p2).entry(p.new_name)->0));
                assert(node_wf(t.node(p2)));
                lemma_inv_deferred_delete(m, t, ti, from_remote);
                let t1 = deferred_delete_post(m, t, ti, from_remote);
                lemma_remove(t.node(p2).entries, p.new_name);
                assert(t1.present(p1) && t1.present(p2));
                assert(t1.node(p2) == t.node(p2).without_entry(p.new_name));
                assert(t1.node(p1).entry(p.old_name) == t.node(p1).entry(p.old_name)) by {
                    if p1 == p2 {
                        assert(p.old_name != p.new_name);
                    }
                }
                lemma_inv_move(t1, p1, p.old_name, p2, p.new_name);
            }
        },
    }
}

/// An exchange keeps the invariants, given that neither of the two inodes is
/// one of the two directories.
pub proof fn lemma_inv_rename_exchange(m: MetaView, t: TxnView, ctx: ReqContext, p: RenameParamView)
    requires
        catalog_inv(t),
        rename_exchange_outcome(m, t, ctx, p).is_ok(),
        ({
            let oi = child_of(t, p.old_parent, p.old_name);
            let ni = child_of(t, p.new_parent, p.new_name);
            oi != p.old_parent && oi != p.new_parent && ni != p.old_parent && ni != p.new_parent
        }),
    ensures
        catalog_inv(rename_exchange_post(t, p)),
{
    let p1 = p.old_parent;
    let p2 = p.new_parent;
    assert(exchange_pre_check_spec(m, t, ctx, p1, p.old_name, p2, p.new_name).is_ok());
    assert(t.present(p1) && t.present(p2));
    let opn = t.node(p1);
    let npn = t.node(p2);
    let oe = opn.entry(p.old_name)->0;
    let ne = npn.entry(p.new_name)->0;
    assert(opn.entry(p.old_name) is Some && npn.entry(p.new_name) is Some);
    assert(entry_ok(t, p1, p.old_name, oe));
    assert(entry_ok(t, p2, p.new_name, ne));
    let oi = oe.ino;
    let ni = ne.ino;
    if oi != ni {
        let to_old = DirEntryView { name: p.old_name, ino: ni, kind: ne.kind };
        let to_new = DirEntryView { name: p.new_name, ino: oi, kind: oe.kind };
        assert(node_wf(opn) && node_wf(npn));
        let s1 = opn.entries;
        let s2 = npn.entries;
        let r1 = crate::dir::dir_insert(s1, to_old);
        let r12 = crate::dir::dir_insert(r1, to_new);
        let r2 = crate::dir::dir_insert(s2, to_new);
        lemma_insert(s1, to_old);
        lemma_insert(r1, to_new);
        lemma_insert(s2, to_new);
        let u = rename_exchange_post(t, p);
        assert forall|k: u64| #[trigger] u.present(k) == t.present(k) by {}
        assert forall|k: u64| #[trigger] t.present(k) implies {
            &&& u.node(k).entries == (if k == p1 {
                if p1 == p2 {
                    r12
                } else {
                    r1
                }
            } else if k == p2 {
                r2
            } else {
                t.node(k).entries
            })
            &&& u.node(k).parent == (if k == oi {
                p2
            } else if k == ni {
                p1
            } else {
                t.node(k).parent
            })
            &&& u.node(k).name == (if k == oi {
                p.new_name
            } else if k == ni {
                p.old_name
            } else {
                t.node(k).name
            })
            &&& u.node(k).deferred_deletion == t.node(k).deferred_deletion
            &&& u.node(k).attr.kind == t.node(k).attr.kind
            &&& u.node(k).attr.ino == t.node(k).attr.ino
            &&& node_wf(u.node(k))
        } by {
            assert(node_wf(t.node(k)));
        }
        assert forall|j: u64| #[trigger] u.present(j) implies node_wf(u.node(j)) && u.node(j).attr.ino
            == j by {
            assert(t.present(j));
        }
        assert forall|j: u64| #[trigger] u.written.contains(j) implies u.image.dom().contains(j) by {}
        assert(root_ok(u)) by {
            assert(t.present(FUSE_ROOT_ID));
        }
        assert forall|d: u64, name: Seq<u8>|
            u.present(d) && (#[trigger] u.node(d).entry(name)) is Some implies entry_ok(
            u,
            d,
            name,
            u.node(d).entry(name)->0,
        ) by {
            assert(t.present(d));
            let e = u.node(d).entry(name)->0;
            if d == p1 && name == p.old_name {
                assert(e == to_old);
            } else if d == p2 && name == p.new_name {
                assert(e == to_new);
            } else {
                assert(t.node(d).entry(name) == Some(e)) by {
                    if d == p1 {
                        assert(dir_get(r1, name) == dir_get(s1, name));
                        if p1 == p2 {
                            assert(dir_get(r12, name) == dir_get(r1, name));
                        }
                    } else if d == p2 {
                        assert(dir_get(r2, name) == dir_get(s2, name));
                    }
                }
                assert(entry_ok(t, d, name, e));
                assert(e.ino != oi && e.ino != ni);
            }
        }
        assert forall|j: u64| #[trigger] linked(u, j) implies parent_ok(u, j) by {
            assert(t.present(j));
            if j == oi {
                assert(u.node(p2).entry(p.new_name) == Some(to_new));
            } else if j == ni {
                assert(u.node(p1).entry(p.old_name) == Some(to_old)) by {
                    if p1 == p2 {
                        assert(p.old_name != p.new_name);
                        assert(dir_get(r12, p.old_name) == dir_get(r1, p.old_name));
                    }
                }
            } else {
                assert(linked(t, j));
                assert(parent_ok(t, j));
                let pj = t.node(j).parent;
                let nj = t.node(j).name;
                let e = t.node(pj).entry(nj)->0;
                assert(t.present(pj));
                assert(!(pj == p1 && nj == p.old_name));
                assert(!(pj == p2 && nj == p.new_name));
                if pj == p1 {
                    assert(dir_get(r1, nj) == dir_get(s1, nj));
                    if p1 == p2 {
                        assert(dir_get(r12, nj) == dir_get(r1, nj));
                    }
                } else if pj == p2 {
                    assert(dir_get(r2, nj) == dir_get(s2, nj));
                }
                assert(u.node(pj).entry(nj) == Some(e));
            }
        }
        assert forall|j: u64| #[trigger] u.present(j) && u.node(j).deferred_deletion implies u.node(
            j,
        ).entries.len() == 0 by {
            assert(t.present(j));
            if j == p1 {
                lemma_get(s1, p.old_name);
            }
            if j == p2 {
                lemma_get(s2, p.new_name);
            }
        }
    }
}

} // verus!
