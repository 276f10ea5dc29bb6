//! A volume as a whole: the catalog and the inode counter, the requests that
//! change them, and the proof that every run of requests from a fresh mount
//! keeps the invariants of the catalog.

use vstd::prelude::*;
use crate::access::{
    forget_post, init_root_post, inode_outcome, lookup_outcome, lookup_post, open_outcome, open_post,
    release_post, releasedir_post, setattr_outcome, setattr_post,
};
use crate::attr::{ReqContext, Timestamp};
use crate::catalog::{
    catalog_inv, complete, entry_ok, lemma_inv_forget, lemma_inv_init_root, lemma_inv_lookup,
    lemma_inv_mknod, lemma_inv_open, lemma_inv_release, lemma_inv_releasedir,
    lemma_inv_rename_exchange, lemma_inv_rename_may_replace, lemma_inv_rmdir, lemma_inv_setattr,
    lemma_inv_unlink, lemma_inv_write,
};
use crate::create::{mknod_outcome, mknod_post};
use crate::data::{write_outcome, write_post};
use crate::inum::{alloc_spec, INUM_START};
use crate::meta::{MetaView, RenameParamView, RENAME_EXCHANGE};
use crate::node::{sat_dec, CreateParamView, SetAttrParam};
use crate::remove::{child_of, remove_node_post, rmdir_outcome, unlink_outcome};
use crate::rename::{rename_outcome, rename_post, rename_targets};
use crate::txn::{Step, TxnView};

verus! {

/// The state of a volume: the catalog, as a transaction that holds the whole
/// store, and the value of the inode counter.
pub struct Volume {
    pub catalog: TxnView,
    pub counter: u64,
}

/// A request that may change the catalog.
#[allow(inconsistent_fields)]
pub enum Request {
    Lookup { ctx: ReqContext, parent: u64, name: Seq<u8> },
    Forget { ino: u64, nlookup: u64 },
    SetAttr { ctx: ReqContext, ino: u64, param: SetAttrParam, now: Timestamp },
    Open { ctx: ReqContext, ino: u64, flags: u32 },
    Release { ino: u64, fh: u64, flush: bool },
    ReleaseDir { ino: u64 },
    Mknod { param: CreateParamView, now: Timestamp },
    Unlink { ctx: ReqContext, parent: u64, name: Seq<u8> },
    Rmdir { ctx: ReqContext, parent: u64, name: Seq<u8> },
    Rename { ctx: ReqContext, param: RenameParamView },
    Write { ino: u64, offset: i64, len: usize, now: Timestamp },
}

/// The volume after the first mount of an empty store: the root directory,
/// and the counter at the first number.
pub open spec fn fresh_mount(m: MetaView, empty: TxnView, now: Timestamp) -> Volume {
    Volume { catalog: init_root_post(m, empty, now), counter: INUM_START }
}

/// The volume after a creation request. A request that passes its checks
/// takes the next number from the counter; a request that fails, or finds the
/// numbers used up, changes nothing.
pub open spec fn mknod_step(v: Volume, param: CreateParamView, now: Timestamp) -> Volume {
    if mknod_outcome(v.catalog.with_inum(None), param, now) == Step::<crate::meta::EntryReply>::NeedInum {
        match alloc_spec(Some(v.counter)) {
            Ok(g) => Volume {
                catalog: mknod_post(v.catalog.with_inum(Some(g.ino)), param, now),
                counter: g.next,
            },
            Err(_) => v,
        }
    } else {
        v
    }
}

/// The volume after the request `r` was handled and its transaction
/// committed: a request that fails changes nothing.
pub open spec fn step(m: MetaView, v: Volume, r: Request) -> Volume {
    let t = v.catalog;
    match r {
        Request::Lookup { ctx, parent, name } => if lookup_outcome(m, t, ctx, parent, name).is_ok() {
            Volume { catalog: lookup_post(t, parent, name), ..v }
        } else {
            v
        },
        Request::Forget { ino, nlookup } => if inode_outcome(t, ino).is_ok() {
            Volume { catalog: forget_post(t, ino, nlookup), ..v }
        } else {
            v
        },
        Request::SetAttr { ctx, ino, param, now } => if setattr_outcome(m, t, ctx, ino, param, now).is_ok() {
            Volume { catalog: setattr_post(t, ino, param, now), ..v }
        } else {
            v
        },
        Request::Open { ctx, ino, flags } => if open_outcome(m, t, ctx, ino, flags).is_ok() {
            Volume { catalog: open_post(t, ino), ..v }
        } else {
            v
        },
        Request::Release { ino, fh, flush } => if inode_outcome(t, ino).is_ok() {
            Volume { catalog: release_post(t, ino, fh, flush), ..v }
        } else {
            v
        },
        Request::ReleaseDir { ino } => if inode_outcome(t, ino).is_ok() {
            Volume { catalog: releasedir_post(t, ino), ..v }
        } else {
            v
        },
        Request::Mknod { param, now } => mknod_step(v, param, now),
        Request::Unlink { ctx, parent, name } => if unlink_outcome(m, t, ctx, parent, name).is_ok() {
            Volume { catalog: remove_node_post(m, t, parent, name, false), ..v }
        } else {
            v
        },
        Request::Rmdir { ctx, parent, name } => if rmdir_outcome(m, t, ctx, parent, name).is_ok() {
            Volume { catalog: remove_node_post(m, t, parent, name, false), ..v }
        } else {
            v
        },
        Request::Rename { ctx, param } => if rename_outcome(m, t, ctx, param).is_ok() {
            Volume { catalog: rename_post(m, t, ctx, param), ..v }
        } else {
            v
        },
        Request::Write { ino, offset, len, now } => if write_outcome(t, ino, offset, len).is_ok() {
            Volume { catalog: write_post(m, t, ino, offset, len, now), ..v }
        } else {
            v
        },
    }
}

/// The requests that the kernel sends to a filesystem. It creates nothing in
/// a directory that has been unlinked, and moves nothing there; it replaces
/// no directory that has entries; it exchanges no inode with a directory
/// that holds one of the two entries. And no directory is so full that its
/// size cannot count one more entry.
pub open spec fn valid(m: MetaView, v: Volume, r: Request) -> bool {
    let t = v.catalog;
    match r {
        Request::Mknod { param, now } => t.present(param.parent) ==> !t.node(param.parent).deferred_deletion
            && t.node(param.parent).entries.len() < u64::MAX,
        Request::Rename { ctx, param } => rename_outcome(m, t, ctx, param).is_ok() ==> if param.flags
            & RENAME_EXCHANGE != 0 {
            let oi = child_of(t, param.old_parent, param.old_name);
            let ni = child_of(t, param.new_parent, param.new_name);
            oi != param.old_parent && oi != param.new_parent && ni != param.old_parent && ni
                != param.new_parent
        } else {
            &&& !t.node(param.new_parent).deferred_deletion
            &&& t.node(param.new_parent).entries.len() < u64::MAX
            &&& rename_targets(m, t, ctx, param).1 matches Some(ti) ==> t.node(ti).entries.len() == 0
        },
        _ => true,
    }
}

/// The invariants of a volume: those of the catalog, and every inode number
/// in use lies below the counter, so that the counter hands out no number
/// twice.
pub open spec fn volume_inv(v: Volume) -> bool {
    &&& catalog_inv(v.catalog)
    &&& v.catalog.inum is None
    &&& v.counter >= INUM_START
    &&& forall|k: u64| #[trigger] v.catalog.present(k) ==> k < v.counter
}

/// The first mount of an empty store gives a volume that meets the
/// invariants.
pub proof fn lemma_fresh_mount(m: MetaView, empty: TxnView, now: Timestamp)
    requires
        complete(empty),
        empty.wf(),
        empty.inum is None,
        forall|k: u64| !empty.present(k),
    ensures
        volume_inv(fresh_mount(m, empty, now)),
{
    lemma_inv_init_root(m, empty, now);
    let v = fresh_mount(m, empty, now);
    assert forall|k: u64| #[trigger] v.catalog.present(k) implies k < v.counter by {
        assert(!empty.present(k));
    }
}

/// The reference counts of the inode `k` as the request `r` leaves them.
pub open spec fn counts_after(v: Volume, r: Request, k: u64) -> (u64, u64) {
    let n = v.catalog.node(k);
    match r {
        Request::Forget { ino, nlookup } => if ino == k {
            (sat_dec(n.lookup_count, nlookup), n.open_count)
        } else {
            (n.lookup_count, n.open_count)
        },
        Request::Release { ino, fh, flush } => if ino == k {
            (n.lookup_count, sat_dec(n.open_count, 1))
        } else {
            (n.lookup_count, n.open_count)
        },
        Request::ReleaseDir { ino } => if ino == k {
            (n.lookup_count, sat_dec(n.open_count, 1))
        } else {
            (n.lookup_count, n.open_count)
        },
        _ => (n.lookup_count, n.open_count),
    }
}

/// No directory of the catalog holds an entry for the inode `k`.
pub open spec fn unlinked(t: TxnView, k: u64) -> bool {
    forall|d: u64, name: Seq<u8>|
        t.present(d) && (#[trigger] t.node(d).entry(name)) is Some ==> t.node(d).entry(name)->0.ino != k
}

/// Every valid request keeps the invariants of the volume: those of the
/// catalog hold after its commit, the counter does not fall, and an inode
/// leaves the store only when no directory holds an entry for it and the
/// request leaves it without open and without kernel lookup.
pub proof fn lemma_step(m: MetaView, v: Volume, r: Request)
    requires
        volume_inv(v),
        valid(m, v, r),
    ensures
        volume_inv(step(m, v, r)),
        step(m, v, r).counter >= v.counter,
        forall|k: u64| #[trigger]
            v.catalog.present(k) && !step(m, v, r).catalog.present(k) ==> unlinked(
                step(m, v, r).catalog,
                k,
            ) && counts_after(v, r, k) == (0u64, 0u64),
{
    let t = v.catalog;
    let w = step(m, v, r);
    match r {
        Request::Lookup { ctx, parent, name } => {
            if lookup_outcome(m, t, ctx, parent, name).is_ok() {
                lemma_inv_lookup(m, t, ctx, parent, name);
                assert(t.present(parent));
                assert(entry_ok(t, parent, name, t.node(parent).entry(name)->0));
            }
        },
        Request::Forget { ino, nlookup } => {
            if inode_outcome(t, ino).is_ok() {
                lemma_inv_forget(t, ino, nlookup);
            }
        },
        Request::SetAttr { ctx, ino, param, now } => {
            if setattr_outcome(m, t, ctx, ino, param, now).is_ok() {
                lemma_inv_setattr(m, t, ctx, ino, param, now);
            }
        },
        Request::Open { ctx, ino, flags } => {
            if open_outcome(m, t, ctx, ino, flags).is_ok() {
                lemma_inv_open(m, t, ctx, ino, flags);
            }
        },
        Request::Release { ino, fh, flush } => {
            if inode_outcome(t, ino).is_ok() {
                lemma_inv_release(t, ino, fh, flush);
            }
        },
        Request::ReleaseDir { ino } => {
            if inode_outcome(t, ino).is_ok() {
                lemma_inv_releasedir(t, ino);
            }
        },
        Request::Mknod { param, now } => {
            if mknod_outcome(t.with_inum(None), param, now) == Step::<
                crate::meta::EntryReply,
            >::NeedInum {
                match alloc_spec(Some(v.counter)) {
                    Ok(g) => {
                        let t1 = t.with_inum(Some(g.ino));
                        assert(t1.image == t.image);
                        assert(t.with_inum(None).image == t.image);
                        assert(t.present(param.parent));
                        assert(!t.present(g.ino));
                        assert(catalog_inv(t1)) by {
                            lemma_same_image(t, t1);
                        }
                        assert(t1.present(param.parent));
                        assert(mknod_outcome(t1, param, now).is_ok());
                        lemma_inv_mknod(t1, param, now);
                    },
                    Err(_) => {},
                }
            }
        },
        Request::Unlink { ctx, parent, name } => {
            if unlink_outcome(m, t, ctx, parent, name).is_ok() {
                lemma_inv_unlink(m, t, ctx, parent, name);
                assert(t.present(parent));
            }
        },
        Request::Rmdir { ctx, parent, name } => {
            if rmdir_outcome(m, t, ctx, parent, name).is_ok() {
                lemma_inv_rmdir(m, t, ctx, parent, name);
                assert(t.present(parent));
            }
        },
        Request::Rename { ctx, param } => {
            if rename_outcome(m, t, ctx, param).is_ok() {
                if param.flags & RENAME_EXCHANGE != 0 {
                    lemma_inv_rename_exchange(m, t, ctx, param);
                } else {
                    lemma_inv_rename_may_replace(m, t, ctx, param, false);
                }
            }
        },
        Request::Write { ino, offset, len, now } => {
            if write_outcome(t, ino, offset, len).is_ok() {
                lemma_inv_write(m, t, ino, offset, len, now);
            }
        },
    }
    assert(catalog_inv(w.catalog));
    assert forall|k: u64| #[trigger] v.catalog.present(k) && !w.catalog.present(k) implies unlinked(
        w.catalog,
        k,
    ) && counts_after(v, r, k) == (0u64, 0u64) by {
        assert forall|d: u64, name: Seq<u8>|
            w.catalog.present(d) && (#[trigger] w.catalog.node(d).entry(name)) is Some implies w.catalog.node(
            d,
        ).entry(name)->0.ino != k by {
            assert(entry_ok(w.catalog, d, name, w.catalog.node(d).entry(name)->0));
        }
        lemma_removed(m, v, r, k);
    }
    assert forall|k: u64| #[trigger] w.catalog.present(k) implies k < w.counter by {
        if !v.catalog.present(k) {
            lemma_added(m, v, r, k);
        }
    }
    lemma_inum_used(m, v, r);
}

/// Two transactions with the same image, of which one meets the invariants
/// of the catalog and the other has written no key outside the image.
proof fn lemma_same_image(t: TxnView, u: TxnView)
    requires
        catalog_inv(t),
        u.image == t.image,
        u.written == t.written,
    ensures
        catalog_inv(u),
{
    assert forall|k: u64| #[trigger] u.present(k) implies crate::node::node_wf(u.node(k)) && u.node(
        k,
    ).attr.ino == k by {
        assert(t.present(k));
    }
    assert forall|d: u64, name: Seq<u8>|
        u.present(d) && (#[trigger] u.node(d).entry(name)) is Some implies entry_ok(
        u,
        d,
        name,
        u.node(d).entry(name)->0,
    ) by {
        assert(t.node(d).entry(name) is Some);
        assert(entry_ok(t, d, name, t.node(d).entry(name)->0));
    }
    assert forall|k: u64| #[trigger] crate::catalog::linked(u, k) implies crate::catalog::parent_ok(
        u,
        k,
    ) by {
        assert(crate::catalog::linked(t, k));
        assert(crate::catalog::parent_ok(t, k));
    }
    assert forall|k: u64| #[trigger] u.present(k) && u.node(k).deferred_deletion implies u.node(
        k,
    ).entries.len() == 0 by {
        assert(t.present(k));
    }
}

/// The record that a request takes out of the store was left without
/// references by it.
proof fn lemma_removed(m: MetaView, v: Volume, r: Request, k: u64)
    requires
        volume_inv(v),
        v.catalog.present(k),
        !step(m, v, r).catalog.present(k),
    ensures
        counts_after(v, r, k) == (0u64, 0u64),
{
    let t = v.catalog;
    match r {
        Request::Lookup { ctx, parent, name } => {},
        Request::Forget { ino, nlookup } => {},
        Request::SetAttr { ctx, ino, param, now } => {},
        Request::Open { ctx, ino, flags } => {},
        Request::Release { ino, fh, flush } => {},
        Request::ReleaseDir { ino } => {},
        Request::Mknod { param, now } => {},
        Request::Unlink { ctx, parent, name } => {},
        Request::Rmdir { ctx, parent, name } => {},
        Request::Rename { ctx, param } => {
            if rename_outcome(m, t, ctx, param).is_ok() && param.flags & RENAME_EXCHANGE == 0 {
                let (mi, new_ino) = rename_targets(m, t, ctx, param);
                assert(t.present(param.old_parent));
                assert(t.present(mi));
            }
        },
        Request::Write { ino, offset, len, now } => {},
    }
}

/// The only record that a request adds to the store stands under the number
/// that the counter handed out.
proof fn lemma_added(m: MetaView, v: Volume, r: Request, k: u64)
    requires
        volume_inv(v),
        !v.catalog.present(k),
        step(m, v, r).catalog.present(k),
    ensures
        k < step(m, v, r).counter,
{
    let t = v.catalog;
    match r {
        Request::Rename { ctx, param } => {
            if rename_outcome(m, t, ctx, param).is_ok() && param.flags & RENAME_EXCHANGE == 0 {
                let (mi, new_ino) = rename_targets(m, t, ctx, param);
                assert(t.present(param.old_parent));
                assert(t.present(mi));
            }
        },
        _ => {},
    }
}

/// No request leaves an inode number behind in the transaction.
proof fn lemma_inum_used(m: MetaView, v: Volume, r: Request)
    requires
        volume_inv(v),
    ensures
        step(m, v, r).catalog.inum is None,
        step(m, v, r).counter >= v.counter,
        step(m, v, r).counter >= INUM_START,
{
}

/// The volume after the requests `rs`, handled one after the other.
pub open spec fn run(m: MetaView, v: Volume, rs: Seq<Request>) -> Volume
    decreases rs.len(),
{
    if rs.len() == 0 {
        v
    } else {
        step(m, run(m, v, rs.drop_last()), rs.last())
    }
}

/// Every request of `rs` is valid in the state in which it is handled.
pub open spec fn all_valid(m: MetaView, v: Volume, rs: Seq<Request>) -> bool
    decreases rs.len(),
{
    rs.len() == 0 || (all_valid(m, v, rs.drop_last()) && valid(m, run(m, v, rs.drop_last()), rs.last()))
}

/// After every request of a run of valid requests the invariants hold, and
/// the counter has not fallen.
pub proof fn lemma_run(m: MetaView, v: Volume, rs: Seq<Request>)
    requires
        volume_inv(v),
        all_valid(m, v, rs),
    ensures
        volume_inv(run(m, v, rs)),
        run(m, v, rs).counter >= v.counter,
        forall|i: int| 0 <= i <= rs.len() ==> volume_inv(#[trigger] run(m, v, rs.take(i))),
    decreases rs.len(),
{
    if rs.len() > 0 {
        let init = rs.drop_last();
        lemma_run(m, v, init);
        lemma_step(m, run(m, v, init), rs.last());
        assert forall|i: int| 0 <= i <= rs.len() implies volume_inv(#[trigger] run(m, v, rs.take(i))) by {
            if i < rs.len() {
                assert(rs.take(i) =~= init.take(i));
            } else {
                assert(rs.take(i) =~= rs);
            }
        }
    } else {
        assert forall|i: int| 0 <= i <= rs.len() implies volume_inv(#[trigger] run(m, v, rs.take(i))) by {
            assert(rs.take(i) =~= rs);
        }
    }
}

} // verus!
