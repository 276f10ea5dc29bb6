//! Laws that relate several requests: what a forget leaves of a path, and the
//! sequences of requests that give the catalog back.

use vstd::prelude::*;
use crate::access::{forget_post, inode_outcome, lookup_outcome};
use crate::attr::{ReqContext, Timestamp};
use crate::catalog::{catalog_inv, entry_ok, lemma_inv_forget, move_post};
use crate::create::{created_kind, mknod_outcome, mknod_post};
use crate::dir::{
    dir_get, dir_insert, dir_remove, lemma_dir_ext, lemma_get, lemma_insert, lemma_insert_remove,
    lemma_remove, lemma_remove_insert, DirEntryView,
};
use crate::error::{Errno, MetaError};
use crate::meta::{EntryReply, MetaView, RenameParamView, RENAME_NOREPLACE};
use crate::node::{child_node, create_error, node_wf, CreateParamView, NodeView};
use crate::remove::{child_of, remove_node_post, unlink_outcome};
use crate::rename::{
    exchange_pre_check_spec, rename_exchange_outcome, rename_exchange_post, rename_may_replace_outcome,
    rename_may_replace_post, rename_pre_check_spec, rename_targets,
};
use crate::txn::{Step, TxnView};

verus! {

/// What the store holds when the transaction is committed: the records of its
/// image, each under its key.
pub open spec fn store_of(t: TxnView) -> Map<u64, NodeView> {
    Map::new(|k: u64| t.present(k), |k: u64| t.node(k))
}

/// A forget changes nothing in what a lookup finds: a path that led to an
/// inode before leads to the same inode after, with the same reply. And when
/// the forget removed the inode from the store, no path leads to it: a lookup
/// that succeeds finds another inode.
pub proof fn lemma_forget_then_lookup(
    m: MetaView,
    t: TxnView,
    ctx: ReqContext,
    ino: u64,
    nlookup: u64,
    parent: u64,
    name: Seq<u8>,
)
    requires
        catalog_inv(t),
        inode_outcome(t, ino).is_ok(),
    ensures
        lookup_outcome(m, t, ctx, parent, name).is_ok() ==> lookup_outcome(
            m,
            forget_post(t, ino, nlookup),
            ctx,
            parent,
            name,
        ) == lookup_outcome(m, t, ctx, parent, name),
        lookup_outcome(m, t, ctx, parent, name).is_ok() && child_of(t, parent, name) == ino
            ==> forget_post(t, ino, nlookup).present(ino),
        !forget_post(t, ino, nlookup).present(ino) ==> (lookup_outcome(
            m,
            forget_post(t, ino, nlookup),
            ctx,
            parent,
            name,
        ) matches Step::Done(Ok(r)) ==> r.attr.ino != ino),
{
    let u = forget_post(t, ino, nlookup);
    lemma_inv_forget(t, ino, nlookup);
    if lookup_outcome(m, t, ctx, parent, name).is_ok() {
        assert(t.present(parent));
        let e = t.node(parent).entry(name)->0;
        assert(entry_ok(t, parent, name, e));
        lemma_get(t.node(parent).entries, name);
        assert(u.present(parent) && u.node(parent).entries == t.node(parent).entries && u.node(
            parent,
        ).attr == t.node(parent).attr);
        assert(u.present(e.ino) && u.node(e.ino).attr == t.node(e.ino).attr);
    }
    if !u.present(ino) {
        if let Step::Done(Ok(r)) = lookup_outcome(m, u, ctx, parent, name) {
            assert(u.present(parent));
            let e = u.node(parent).entry(name)->0;
            assert(entry_ok(u, parent, name, e));
            assert(u.present(e.ino));
        }
    }
}

/// Creating an inode, unlinking it, and forgetting the lookup that the kernel
/// got with the creation gives the store back as it was. After the unlink
/// alone the record is still there: it waits, marked as unlinked, for the
/// kernel to forget it, while every other record is as before.
pub proof fn lemma_mknod_unlink_forget(
    m: MetaView,
    t: TxnView,
    p: CreateParamView,
    now: Timestamp,
    ctx: ReqContext,
)
    requires
        t.wf(),
        mknod_outcome(t, p, now).is_ok(),
        !t.present(t.inum->0),
        t.node(p.parent).entries.len() < u64::MAX,
        unlink_outcome(m, mknod_post(t, p, now), ctx, p.parent, p.name).is_ok(),
    ensures
        ({
            let i = t.inum->0;
            let t1 = mknod_post(t, p, now);
            let t2 = remove_node_post(m, t1, p.parent, p.name, false);
            let t3 = forget_post(t2, i, 1);
            &&& t2.present(i)
            &&& t2.node(i).deferred_deletion
            &&& store_of(t2).remove(i) == store_of(t)
            &&& inode_outcome(t2, i).is_ok()
            &&& store_of(t3) == store_of(t)
        }),
{
    let i = t.inum->0;
    let kind = created_kind(p);
    let dir = t.node(p.parent);
    let e = DirEntryView { name: p.name, ino: i, kind };
    let c = child_node(p, kind, i, now);
    assert(t.present(p.parent));
    assert(create_error(dir, p) is None);
    assert(node_wf(dir));
    lemma_insert(dir.entries, e);
    lemma_insert_remove(dir.entries, e);
    let t1 = mknod_post(t, p, now);
    assert(t1.present(i) && t1.node(i) == c);
    assert(t1.present(p.parent) && t1.node(p.parent) == dir.with_entry(e));
    assert(child_of(t1, p.parent, p.name) == i);
    let t2 = remove_node_post(m, t1, p.parent, p.name, false);
    assert(dir.with_entry(e).without_entry(p.name) == dir);
    assert(t2.present(i) && t2.node(i) == c.deferred());
    assert(t2.present(p.parent) && t2.node(p.parent) == dir);
    assert(store_of(t2).remove(i) =~= store_of(t));
    let t3 = forget_post(t2, i, 1);
    assert(store_of(t3) =~= store_of(t));
}

/// The rename that undoes `p`: from the new place back to the old.
pub open spec fn reversed(p: RenameParamView) -> RenameParamView {
    RenameParamView {
        old_parent: p.new_parent,
        old_name: p.new_name,
        new_parent: p.old_parent,
        new_name: p.old_name,
        flags: p.flags,
    }
}

/// The record `n0` of `k` after an entry `e` moved from the name `a` of the
/// directory `p1` to the name `b` of the directory `p2`: the inode that the
/// entry names has its new place, `p1` is without the old entry, and `p2` has
/// the new one.
spec fn after_move(n0: NodeView, k: u64, e: DirEntryView, p1: u64, a: Seq<u8>, p2: u64, b: Seq<u8>)
    -> NodeView {
    let n1 = if k == e.ino {
        n0.moved(p2, b)
    } else {
        n0
    };
    let n2 = if k == p1 {
        n1.without_entry(a)
    } else {
        n1
    };
    if k == p2 {
        n2.with_entry(DirEntryView { name: b, ino: e.ino, kind: e.kind })
    } else {
        n2
    }
}

proof fn lemma_move_records(t: TxnView, p1: u64, a: Seq<u8>, p2: u64, b: Seq<u8>)
    requires
        t.present(p1),
        t.present(p2),
        t.present(child_of(t, p1, a)),
    ensures
        move_post(t, p1, a, p2, b).image.dom() == t.image.dom(),
        forall|k: u64| #[trigger]
            t.image.dom().contains(k) ==> move_post(t, p1, a, p2, b).image[k] == (if t.present(k) {
                Some(after_move(t.node(k), k, t.node(p1).entry(a)->0, p1, a, p2, b))
            } else {
                t.image[k]
            }),
{
    let u = move_post(t, p1, a, p2, b);
    assert(u.image.dom() =~= t.image.dom());
}

/// A record that went through a move and the move back is as it was.
proof fn lemma_record_back(n0: NodeView, k: u64, ea: DirEntryView, p1: u64, a: Seq<u8>, p2: u64, b: Seq<u8>)
    requires
        node_wf(n0),
        ea.name == a,
        k == p1 ==> n0.entry(a) == Some(ea),
        k == p2 ==> n0.is_dir() && n0.entries.len() < u64::MAX,
        k == p2 && k != p1 ==> n0.entry(b) is None,
        k == p2 && k == p1 ==> a != b && n0.entry(b) is None,
        k == ea.ino ==> n0.parent == p1 && n0.name == a,
    ensures
        after_move(
            after_move(n0, k, ea, p1, a, p2, b),
            k,
            DirEntryView { name: b, ino: ea.ino, kind: ea.kind },
            p2,
            b,
            p1,
            a,
        ) == n0,
{
    let eb = DirEntryView { name: b, ino: ea.ino, kind: ea.kind };
    let n1 = after_move(n0, k, ea, p1, a, p2, b);
    let n2 = after_move(n1, k, eb, p2, b, p1, a);
    let s = n0.entries;
    if k == p1 {
        lemma_get(s, a);
        lemma_remove(s, a);
        lemma_remove_insert(s, a);
        assert(n0.is_dir());
    }
    if k == p1 && k == p2 {
        let r1 = dir_remove(s, a);
        lemma_insert(r1, eb);
        lemma_insert_remove(r1, eb);
        assert(n1.entries == dir_insert(r1, eb));
        assert(n2.entries == dir_insert(dir_remove(n1.entries, b), ea));
    } else if k == p1 {
        assert(n1.entries == dir_remove(s, a));
        assert(n2.entries == dir_insert(n1.entries, ea));
    } else if k == p2 {
        lemma_insert(s, eb);
        lemma_insert_remove(s, eb);
        assert(n1.entries == dir_insert(s, eb));
        assert(n2.entries == dir_remove(n1.entries, b));
    }
    assert(n2.entries == s);
    assert(n2.attr == n0.attr);
}

/// Moving an entry to a free name and back gives the image back as it was.
proof fn lemma_move_back(t: TxnView, p1: u64, a: Seq<u8>, p2: u64, b: Seq<u8>)
    requires
        t.wf(),
        t.present(p1),
        t.present(p2),
        t.node(p1).entry(a) is Some,
        t.present(child_of(t, p1, a)),
        t.node(child_of(t, p1, a)).parent == p1,
        t.node(child_of(t, p1, a)).name == a,
        t.node(p2).is_dir(),
        t.node(p2).entry(b) is None,
        t.node(p2).entries.len() < u64::MAX,
    ensures
        ({
            let t1 = move_post(t, p1, a, p2, b);
            &&& t1.present(p1)
            &&& t1.present(p2)
            &&& t1.node(p1).entry(a) is None
            &&& t1.node(p2).entry(b) is Some
            &&& move_post(t1, p2, b, p1, a).image == t.image
        }),
{
    let ea = t.node(p1).entry(a)->0;
    let mi = ea.ino;
    let eb = DirEntryView { name: b, ino: mi, kind: ea.kind };
    assert(node_wf(t.node(p1)) && node_wf(t.node(p2)));
    let s1 = t.node(p1).entries;
    lemma_get(s1, a);
    lemma_remove(s1, a);
    let base = if p1 == p2 {
        dir_remove(s1, a)
    } else {
        t.node(p2).entries
    };
    lemma_insert(base, eb);
    let t1 = move_post(t, p1, a, p2, b);
    lemma_move_records(t, p1, a, p2, b);
    assert(t1.present(p1) && t1.present(p2) && t1.present(mi));
    assert(t1.node(p2) == after_move(t.node(p2), p2, ea, p1, a, p2, b));
    assert(t1.node(p1) == after_move(t.node(p1), p1, ea, p1, a, p2, b));
    assert(t1.node(p2).entries == dir_insert(base, eb));
    assert(t1.node(p2).entry(b) == Some(eb));
    assert(t1.node(p1).entry(a) is None);
    let t2 = move_post(t1, p2, b, p1, a);
    lemma_move_records(t1, p2, b, p1, a);
    assert forall|k: u64| #[trigger] t.image.dom().contains(k) implies t2.image[k] == t.image[k] by {
        if t.present(k) {
            assert(t1.present(k));
            assert(node_wf(t.node(k)));
            assert(t1.node(k) == after_move(t.node(k), k, ea, p1, a, p2, b));
            assert(t2.image[k] == Some(after_move(t1.node(k), k, eb, p2, b, p1, a)));
            lemma_record_back(t.node(k), k, ea, p1, a, p2, b);
        } else {
            assert(!t1.present(k));
        }
    }
    assert(t2.image.dom() =~= t.image.dom());
    assert(t2.image =~= t.image);
}

/// A rename to a free name is a move of the entry.
proof fn lemma_rename_is_move(m: MetaView, t: TxnView, ctx: ReqContext, p: RenameParamView, from_remote: bool)
    requires
        rename_may_replace_outcome(m, t, ctx, p).is_ok(),
        t.present(p.new_parent) ==> t.node(p.new_parent).entry(p.new_name) is None,
    ensures
        t.present(p.old_parent),
        t.present(p.new_parent),
        t.node(p.old_parent).entry(p.old_name) is Some,
        t.present(child_of(t, p.old_parent, p.old_name)),
        t.node(p.new_parent).is_dir(),
        rename_targets(m, t, ctx, p) == (child_of(t, p.old_parent, p.old_name), None::<u64>),
        rename_may_replace_post(m, t, ctx, p, from_remote) == move_post(
            t,
            p.old_parent,
            p.old_name,
            p.new_parent,
            p.new_name,
        ),
{
    assert(rename_pre_check_spec(
        m,
        t,
        ctx,
        p.old_parent,
        p.old_name,
        p.new_parent,
        p.new_name,
        p.flags == RENAME_NOREPLACE,
    ).is_ok());
}

/// Renaming an entry to a free name and renaming it back gives the catalog
/// back as it was, given that the record of the moved inode names the place
/// of its entry.
pub proof fn lemma_rename_there_and_back(
    m: MetaView,
    t: TxnView,
    ctx: ReqContext,
    p: RenameParamView,
    from_remote: bool,
)
    requires
        t.wf(),
        rename_may_replace_outcome(m, t, ctx, p).is_ok(),
        rename_targets(m, t, ctx, p).1 is None,
        t.node(rename_targets(m, t, ctx, p).0).parent == p.old_parent,
        t.node(rename_targets(m, t, ctx, p).0).name == p.old_name,
        t.node(p.new_parent).entries.len() < u64::MAX,
        rename_may_replace_outcome(
            m,
            rename_may_replace_post(m, t, ctx, p, from_remote),
            ctx,
            reversed(p),
        ).is_ok(),
    ensures
        rename_may_replace_post(
            m,
            rename_may_replace_post(m, t, ctx, p, from_remote),
            ctx,
            reversed(p),
            from_remote,
        ).image == t.image,
{
    assert(t.present(p.new_parent) ==> t.node(p.new_parent).entry(p.new_name) is None) by {
        assert(rename_pre_check_spec(
            m,
            t,
            ctx,
            p.old_parent,
            p.old_name,
            p.new_parent,
            p.new_name,
            p.flags == RENAME_NOREPLACE,
        ).is_ok());
    }
    lemma_rename_is_move(m, t, ctx, p, from_remote);
    lemma_move_back(t, p.old_parent, p.old_name, p.new_parent, p.new_name);
    let t1 = rename_may_replace_post(m, t, ctx, p, from_remote);
    lemma_rename_is_move(m, t1, ctx, reversed(p), from_remote);
}

/// Exchanging two entries twice gives the catalog back as it was, given that
/// the records of the two inodes name the places of their entries, and that
/// neither inode is one of the two directories.
pub proof fn lemma_exchange_twice(m: MetaView, t: TxnView, ctx: ReqContext, p: RenameParamView)
    requires
        t.wf(),
        rename_exchange_outcome(m, t, ctx, p).is_ok(),
        ({
            let oi = child_of(t, p.old_parent, p.old_name);
            let ni = child_of(t, p.new_parent, p.new_name);
            &&& oi != p.old_parent && oi != p.new_parent && ni != p.old_parent && ni != p.new_parent
            &&& t.node(oi).parent == p.old_parent && t.node(oi).name == p.old_name
            &&& t.node(ni).parent == p.new_parent && t.node(ni).name == p.new_name
        }),
    ensures
        rename_exchange_post(rename_exchange_post(t, p), p).image == t.image,
{
    let p1 = p.old_parent;
    let p2 = p.new_parent;
    assert(exchange_pre_check_spec(m, t, ctx, p1, p.old_name, p2, p.new_name).is_ok());
    assert(t.present(p1) && t.present(p2));
    let opn = t.node(p1);
    let npn = t.node(p2);
    assert(opn.entry(p.old_name) is Some && npn.entry(p.new_name) is Some);
    let oe = opn.entry(p.old_name)->0;
    let ne = npn.entry(p.new_name)->0;
    let oi = oe.ino;
    let ni = ne.ino;
    assert(t.present(oi) && t.present(ni));
    assert(node_wf(opn) && node_wf(npn));
    let s1 = opn.entries;
    let s2 = npn.entries;
    lemma_get(s1, p.old_name);
    lemma_get(s2, p.new_name);
    if oi != ni {
        let to_old = DirEntryView { name: p.old_name, ino: ni, kind: ne.kind };
        let to_new = DirEntryView { name: p.new_name, ino: oi, kind: oe.kind };
        let t1 = rename_exchange_post(t, p);
        // the entries after the first exchange, and after the second
        let r1 = dir_insert(s1, to_old);
        lemma_insert(s1, to_old);
        let back_old = DirEntryView { name: p.old_name, ino: oi, kind: oe.kind };
        let back_new = DirEntryView { name: p.new_name, ino: ni, kind: ne.kind };
        assert(back_old == oe && back_new == ne);
        if p1 == p2 {
            let r12 = dir_insert(r1, to_new);
            lemma_insert(r1, to_new);
            assert(t1.node(p1).entries == r12);
            assert(t1.node(p1).entry(p.old_name) == Some(to_old));
            assert(t1.node(p1).entry(p.new_name) == Some(to_new));
            let q1 = dir_insert(r12, back_old);
            lemma_insert(r12, back_old);
            let q12 = dir_insert(q1, back_new);
            lemma_insert(q1, back_new);
            assert forall|n: Seq<u8>| dir_get(q12, n) == dir_get(s1, n) by {
                if n == p.new_name {
                } else if n == p.old_name {
                    assert(dir_get(q12, n) == dir_get(q1, n));
                } else {
                    assert(dir_get(q12, n) == dir_get(q1, n));
                    assert(dir_get(q1, n) == dir_get(r12, n));
                    assert(dir_get(r12, n) == dir_get(r1, n));
                    assert(dir_get(r1, n) == dir_get(s1, n));
                }
            }
            lemma_dir_ext(q12, s1);
        } else {
            let r2 = dir_insert(s2, to_new);
            lemma_insert(s2, to_new);
            assert(t1.node(p1).entries == r1);
            assert(t1.node(p2).entries == r2);
            let q1 = dir_insert(r1, back_old);
            lemma_insert(r1, back_old);
            let q2 = dir_insert(r2, back_new);
            lemma_insert(r2, back_new);
            assert forall|n: Seq<u8>| dir_get(q1, n) == dir_get(s1, n) by {
                if n != p.old_name {
                    assert(dir_get(q1, n) == dir_get(r1, n));
                    assert(dir_get(r1, n) == dir_get(s1, n));
                }
            }
            assert forall|n: Seq<u8>| dir_get(q2, n) == dir_get(s2, n) by {
                if n != p.new_name {
                    assert(dir_get(q2, n) == dir_get(r2, n));
                    assert(dir_get(r2, n) == dir_get(s2, n));
                }
            }
            lemma_dir_ext(q1, s1);
            lemma_dir_ext(q2, s2);
        }
        assert(t1.present(p1) && t1.present(p2) && t1.present(oi) && t1.present(ni));
        assert(child_of(t1, p1, p.old_name) == ni);
        assert(child_of(t1, p2, p.new_name) == oi);
        let t2 = rename_exchange_post(t1, p);
        assert(t2.image.dom() =~= t.image.dom());
        assert forall|k: u64| #[trigger] t.image.dom().contains(k) implies t2.image[k] == t.image[k] by {
            if k == p1 || k == p2 {
                assert(t2.node(k).entries == t.node(k).entries);
                assert(t2.node(k) == t.node(k));
            } else if k == oi || k == ni {
                assert(t2.node(k) == t.node(k));
            }
        }
        assert(t2.image =~= t.image);
    }
}

/// Two creations in one directory, each of which would succeed alone: one
/// after the other, both succeed if their names differ, and the second fails
/// with `EEXIST` if they ask for the same name. The inode number `second` is
/// the one that the second creation is given.
pub proof fn lemma_two_creations(
    t: TxnView,
    p1: CreateParamView,
    now1: Timestamp,
    p2: CreateParamView,
    now2: Timestamp,
    second: u64,
)
    requires
        t.wf(),
        p1.parent == p2.parent,
        mknod_outcome(t, p1, now1).is_ok(),
        mknod_outcome(t.with_inum(Some(second)), p2, now2).is_ok(),
    ensures
        p1.name != p2.name ==> mknod_outcome(
            mknod_post(t, p1, now1).with_inum(Some(second)),
            p2,
            now2,
        ).is_ok(),
        p1.name == p2.name ==> mknod_outcome(mknod_post(t, p1, now1).with_inum(Some(second)), p2, now2)
            == Step::Done(Err::<EntryReply, MetaError>(MetaError::Posix(Errno::EEXIST))),
{
    let i = t.inum->0;
    let dir = t.node(p1.parent);
    let e = DirEntryView { name: p1.name, ino: i, kind: created_kind(p1) };
    assert(t.present(p1.parent));
    assert(t.with_inum(Some(second)).present(p1.parent));
    assert(t.with_inum(Some(second)).node(p1.parent) == dir);
    assert(create_error(dir, p1) is None);
    assert(create_error(dir, p2) is None);
    assert(node_wf(dir));
    lemma_insert(dir.entries, e);
    let t1 = mknod_post(t, p1, now1).with_inum(Some(second));
    assert(t1.present(p1.parent) && t1.node(p1.parent) == dir.with_entry(e));
    if p1.name != p2.name {
        assert(dir.with_entry(e).entry(p2.name) == dir.entry(p2.name));
    }
}

} // verus!
