//! Whole requests against a key-value store kept in memory.

use std::collections::BTreeMap;

use metacore::attr::{FileKind, NodeType, ReqContext, Timestamp};
use metacore::data::DirItem;
use metacore::error::{Errno, MetaError};
use metacore::inum::INumAllocator;
use metacore::meta::{RenameParam, S3MetaData, RENAME_EXCHANGE, RENAME_NOREPLACE};
use metacore::node::{CreateParam, Node, SetAttrParam};
use metacore::txn::{Effect, KvWrite, MetaTxn, Step};

/// The store of a volume: the inode records and the inode counter.
struct Store {
    nodes: BTreeMap<u64, Node>,
    counter: Option<u64>,
    gets: usize,
    puts: usize,
}

impl Store {
    fn new() -> Store {
        Store { nodes: BTreeMap::new(), counter: None, gets: 0, puts: 0 }
    }

    fn node(&self, ino: u64) -> &Node {
        self.nodes.get(&ino).unwrap()
    }

    fn has(&self, ino: u64) -> bool {
        self.nodes.contains_key(&ino)
    }

    fn names(&self, ino: u64) -> Vec<(String, u64)> {
        let n = self.node(ino);
        let mut out = Vec::new();
        for i in 0..n.entry_count() {
            let e = n.entry_at(i);
            out.push((String::from_utf8(e.entry_name().to_vec()).unwrap(), e.ino()));
        }
        out
    }

    /// What the store holds, in a form that two stores can be compared by.
    fn dump(&self) -> Vec<String> {
        self.nodes.iter().map(|(k, n)| format!("{} {:?}", k, n)).collect()
    }
}

/// Runs one request: loads what the handler asks for, and applies the staged
/// writes once it is done.
fn run<T>(store: &mut Store, mut body: impl FnMut(&mut MetaTxn) -> Step<T>) -> (Result<T, MetaError>, Vec<Effect>) {
    let mut txn = MetaTxn::new();
    loop {
        match body(&mut txn) {
            Step::Need(k) => {
                store.gets += 1;
                let v = store.nodes.get(&k).map(|n| n.clone_node());
                txn.load(k, v);
            }
            Step::NeedInum => {
                let g = INumAllocator::new().alloc_inum_for_fnode(store.counter).unwrap();
                store.counter = Some(g.next);
                txn.supply_inum(g.ino);
            }
            Step::Done(Ok(v)) => {
                for w in txn.writes() {
                    store.puts += 1;
                    match w {
                        KvWrite::Put(k, n) => {
                            store.nodes.insert(k, n);
                        }
                        KvWrite::Delete(k) => {
                            store.nodes.remove(&k);
                        }
                    }
                }
                return (Ok(v), txn.effects());
            }
            Step::Done(Err(e)) => {
                assert!(txn.writes().is_empty());
                assert!(txn.effects().is_empty());
                return (Err(e), Vec::new());
            }
        }
    }
}

const NOW: Timestamp = Timestamp { secs: 1_700_000_000, nanos: 7 };

fn ctx(uid: u32) -> ReqContext {
    ReqContext { uid, gid: uid, pid: 1 }
}

fn meta() -> S3MetaData {
    S3MetaData::new(10_485_760, 0, 0, true).unwrap()
}

fn mounted() -> (S3MetaData, Store) {
    let m = meta();
    let mut s = Store::new();
    let (r, _) = run(&mut s, |t| m.init_root(t, NOW));
    assert_eq!(r, Ok(true));
    (m, s)
}

fn create(parent: u64, name: &str, node_type: NodeType, mode: u32, uid: u32) -> CreateParam {
    CreateParam {
        parent,
        name: name.as_bytes().to_vec(),
        mode,
        rdev: 0,
        uid,
        gid: uid,
        node_type,
        link: None,
    }
}

fn mknod(m: &S3MetaData, s: &mut Store, parent: u64, name: &str, node_type: NodeType, uid: u32) -> Result<u64, MetaError> {
    let p = create(parent, name, node_type, 0o644, uid);
    run(s, |t| m.mknod(t, &p, NOW)).0.map(|r| r.attr.ino)
}

fn rename_param(op: u64, on: &str, np: u64, nn: &str, flags: u32) -> RenameParam {
    RenameParam {
        old_parent: op,
        old_name: on.as_bytes().to_vec(),
        new_parent: np,
        new_name: nn.as_bytes().to_vec(),
        flags,
    }
}

fn posix(e: Errno) -> MetaError {
    MetaError::Posix(e)
}

fn pairs(v: &[(&str, u64)]) -> Vec<(String, u64)> {
    v.iter().map(|(n, i)| (n.to_string(), *i)).collect()
}

#[test]
fn root_bootstrap_is_idempotent() {
    let m = S3MetaData::new(4096, 501, 20, true).unwrap();
    let mut s = Store::new();
    let (r, _) = run(&mut s, |t| m.init_root(t, NOW));
    assert_eq!(r, Ok(true));
    let root = s.node(1);
    assert_eq!(root.get_ino(), 1);
    assert_eq!(root.get_parent_ino(), 1);
    assert_eq!(root.get_type(), FileKind::Dir);
    assert_eq!(root.get_attr().perm, 0o755);
    assert_eq!(root.get_attr().uid, 501);
    assert_eq!(root.get_attr().gid, 20);
    assert_eq!(root.get_name(), b"/");
    assert!(root.is_node_data_empty());
    let puts = s.puts;
    let before = s.dump();
    let (r, _) = run(&mut s, |t| m.init_root(t, Timestamp { secs: 9, nanos: 9 }));
    assert_eq!(r, Ok(false));
    assert_eq!(s.puts, puts);
    assert_eq!(s.dump(), before);
}

#[test]
fn create_open_write_read() {
    let (mut m, mut s) = mounted();
    let p = create(1, "a", NodeType::File, 0o644, 1000);
    let (r, effects) = run(&mut s, |t| m.mknod(t, &p, NOW));
    let reply = r.unwrap();
    assert_eq!(reply.attr.ino, 2);
    assert_eq!(reply.ttl, 3600);
    assert_eq!(reply.generation, 1);
    assert_eq!(reply.attr.mode, 0o100644);
    assert_eq!(reply.attr.uid, 1000);
    assert!(matches!(effects.as_slice(), [Effect::CreateObject { ino: 2 }]));
    assert_eq!(s.node(2).get_lookup_count(), 1);
    assert_eq!(s.node(2).get_parent_ino(), 1);
    assert_eq!(s.node(2).get_name(), b"a");
    assert_eq!(s.node(1).get_attr().size, 1);

    let (h, _) = run(&mut s, |t| m.open(t, ctx(1000), 2, 2));
    assert_eq!(h, Ok(4));
    assert_eq!(m.cur_fd(), 5);
    assert_eq!(s.node(2).get_open_count(), 1);

    let later = Timestamp { secs: NOW.secs + 5, nanos: 0 };
    let (w, effects) = run(&mut s, |t| m.write_helper(t, 2, 4, 0, 5, 0, later));
    assert_eq!(w, Ok(5));
    assert!(matches!(
        effects.as_slice(),
        [Effect::InvalidateRemote { ino: 2, block_start: 0, block_end: 0 }]
    ));
    assert_eq!(s.node(2).get_attr().size, 5);
    assert_eq!(s.node(2).get_attr().mtime, later);
    assert_eq!(s.node(2).get_attr().ctime, later);
    assert_eq!(s.node(2).get_attr().atime, NOW);

    let (plan, _) = run(&mut s, |t| m.read_helper(t, 2, 4, 0, 5));
    let plan = plan.unwrap();
    assert_eq!((plan.offset, plan.size), (0, 5));
    let (attr, _) = run(&mut s, |t| m.getattr(t, 2));
    assert_eq!(attr.unwrap().attr.size, 5);
}

#[test]
fn sticky_bit_enforcement() {
    let (m, mut s) = mounted();
    let p = SetAttrParam { mode: Some(0o1777), uid: None, gid: None, size: None, atime: None, mtime: None };
    let (r, _) = run(&mut s, |t| m.setattr_helper(t, ctx(0), 1, &p, NOW));
    assert_eq!(r.unwrap().attr.mode, 0o041777);
    assert_eq!(s.node(1).get_attr().perm, 0o1777);
    assert_eq!(s.node(1).get_attr().uid, 0);

    assert_eq!(mknod(&m, &mut s, 1, "x", NodeType::File, 1000), Ok(2));
    let before = s.dump();
    let (r, _) = run(&mut s, |t| m.unlink(t, ctx(1001), 1, b"x"));
    assert_eq!(r, Err(posix(Errno::EACCES)));
    assert_eq!(s.dump(), before);
    let (r, _) = run(&mut s, |t| m.unlink(t, ctx(1000), 1, b"x"));
    assert_eq!(r, Ok(()));
    assert!(s.names(1).is_empty());

    assert_eq!(mknod(&m, &mut s, 1, "x", NodeType::File, 1000), Ok(3));
    let (r, _) = run(&mut s, |t| m.unlink(t, ctx(0), 1, b"x"));
    assert_eq!(r, Ok(()));
    assert!(s.names(1).is_empty());
}

#[test]
fn deferred_deletion() {
    let (mut m, mut s) = mounted();
    assert_eq!(mknod(&m, &mut s, 1, "first", NodeType::File, 1000), Ok(2));
    assert_eq!(mknod(&m, &mut s, 1, "f", NodeType::File, 1000), Ok(3));
    assert_eq!(run(&mut s, |t| m.forget(t, 3, 1)).0, Ok(()));
    assert_eq!(s.node(3).get_lookup_count(), 0);
    let h = run(&mut s, |t| m.open(t, ctx(1000), 3, 0)).0.unwrap();

    let (r, effects) = run(&mut s, |t| m.unlink(t, ctx(1000), 1, b"f"));
    assert_eq!(r, Ok(()));
    assert!(effects.is_empty());
    assert!(s.has(3));
    assert!(s.node(3).is_deferred_deletion());
    assert_eq!(s.names(1), pairs(&[("first", 2)]));
    assert_eq!(s.node(1).get_attr().size, 1);
    let (attr, _) = run(&mut s, |t| m.getattr(t, 3));
    assert_eq!(attr.unwrap().attr.ino, 3);

    let (r, effects) = run(&mut s, |t| m.release(t, 3, h as u64, false));
    assert_eq!(r, Ok(()));
    assert!(!s.has(3));
    assert!(matches!(
        effects.as_slice(),
        [Effect::RemoveFileCache { ino: 3 }, Effect::DeleteObject { ino: 3 }]
    ));
    assert_eq!(run(&mut s, |t| m.getattr(t, 3)).0, Err(MetaError::InconsistentFS { ino: 3 }));
}

#[test]
fn rename_replace() {
    let (m, mut s) = mounted();
    assert_eq!(mknod(&m, &mut s, 1, "d", NodeType::Dir, 0), Ok(2));
    assert_eq!(mknod(&m, &mut s, 1, "a", NodeType::File, 0), Ok(3));
    assert_eq!(mknod(&m, &mut s, 1, "b", NodeType::File, 0), Ok(4));
    assert_eq!(s.names(1), pairs(&[("a", 3), ("b", 4), ("d", 2)]));
    let p = rename_param(1, "a", 1, "b", 0);
    let (r, _) = run(&mut s, |t| m.rename(t, ctx(0), &p));
    assert_eq!(r, Ok(()));
    assert_eq!(s.names(1), pairs(&[("b", 3), ("d", 2)]));
    assert_eq!(s.node(1).get_attr().size, 2);
    assert_eq!(s.node(3).get_name(), b"b");
    assert_eq!(s.node(3).get_parent_ino(), 1);
    // the kernel still holds the lookup that the creation of inode 4 gave it
    assert!(s.node(4).is_deferred_deletion());
    let (r, effects) = run(&mut s, |t| m.forget(t, 4, 1));
    assert_eq!(r, Ok(()));
    assert!(!s.has(4));
    assert!(matches!(
        effects.as_slice(),
        [Effect::RemoveFileCache { ino: 4 }, Effect::DeleteObject { ino: 4 }]
    ));
}

#[test]
fn rename_replace_of_unreferenced_inode_deletes_it() {
    let (m, mut s) = mounted();
    assert_eq!(mknod(&m, &mut s, 1, "a", NodeType::File, 0), Ok(2));
    assert_eq!(mknod(&m, &mut s, 1, "b", NodeType::File, 0), Ok(3));
    assert_eq!(run(&mut s, |t| m.forget(t, 3, 1)).0, Ok(()));
    let p = rename_param(1, "a", 1, "b", 0);
    let (r, effects) = run(&mut s, |t| m.rename(t, ctx(0), &p));
    assert_eq!(r, Ok(()));
    assert!(!s.has(3));
    assert_eq!(s.names(1), pairs(&[("b", 2)]));
    assert!(matches!(
        effects.as_slice(),
        [Effect::RemoveFileCache { ino: 3 }, Effect::DeleteObject { ino: 3 }]
    ));
}

#[test]
fn exchange_rename_across_directories() {
    let (m, mut s) = mounted();
    assert_eq!(mknod(&m, &mut s, 1, "d1", NodeType::Dir, 0), Ok(2));
    assert_eq!(mknod(&m, &mut s, 1, "d2", NodeType::Dir, 0), Ok(3));
    assert_eq!(mknod(&m, &mut s, 2, "x", NodeType::File, 0), Ok(4));
    assert_eq!(mknod(&m, &mut s, 3, "y", NodeType::File, 0), Ok(5));
    let p = rename_param(2, "x", 3, "y", RENAME_EXCHANGE);
    let (r, effects) = run(&mut s, |t| m.rename(t, ctx(0), &p));
    assert_eq!(r, Ok(()));
    assert!(effects.is_empty());
    assert_eq!((s.node(4).get_parent_ino(), s.node(4).get_name()), (3, &b"y"[..]));
    assert_eq!((s.node(5).get_parent_ino(), s.node(5).get_name()), (2, &b"x"[..]));
    // each name stays in its directory and now stands for the other inode
    assert_eq!(s.names(2), pairs(&[("x", 5)]));
    assert_eq!(s.names(3), pairs(&[("y", 4)]));
}

#[test]
fn exchange_rename_is_its_own_inverse() {
    let (m, mut s) = mounted();
    assert_eq!(mknod(&m, &mut s, 1, "d1", NodeType::Dir, 0), Ok(2));
    assert_eq!(mknod(&m, &mut s, 2, "x", NodeType::File, 0), Ok(3));
    assert_eq!(mknod(&m, &mut s, 1, "y", NodeType::Dir, 0), Ok(4));
    let before = s.dump();
    let p = rename_param(2, "x", 1, "y", RENAME_EXCHANGE);
    assert_eq!(run(&mut s, |t| m.rename(t, ctx(0), &p)).0, Ok(()));
    assert_ne!(s.dump(), before);
    let back = rename_param(2, "x", 1, "y", RENAME_EXCHANGE);
    assert_eq!(run(&mut s, |t| m.rename(t, ctx(0), &back)).0, Ok(()));
    assert_eq!(s.dump(), before);
}

#[test]
fn exchange_within_one_directory() {
    let (m, mut s) = mounted();
    assert_eq!(mknod(&m, &mut s, 1, "a", NodeType::File, 0), Ok(2));
    assert_eq!(mknod(&m, &mut s, 1, "b", NodeType::Dir, 0), Ok(3));
    let p = rename_param(1, "a", 1, "b", RENAME_EXCHANGE);
    assert_eq!(run(&mut s, |t| m.rename(t, ctx(0), &p)).0, Ok(()));
    assert_eq!(s.names(1), pairs(&[("a", 3), ("b", 2)]));
    assert_eq!(s.node(2).get_name(), b"b");
    assert_eq!(s.node(3).get_name(), b"a");
    assert_eq!(s.node(1).get_entry(b"a").unwrap().entry_type(), FileKind::Dir);
    assert_eq!(s.node(1).get_entry(b"b").unwrap().entry_type(), FileKind::File);
}

#[test]
fn exchange_errors() {
    let (m, mut s) = mounted();
    assert_eq!(mknod(&m, &mut s, 1, "a", NodeType::File, 0), Ok(2));
    let both = rename_param(1, "a", 1, "a", RENAME_EXCHANGE | RENAME_NOREPLACE);
    assert_eq!(run(&mut s, |t| m.rename(t, ctx(0), &both)).0, Err(posix(Errno::EINVAL)));
    let missing_new = rename_param(1, "a", 1, "zz", RENAME_EXCHANGE);
    assert_eq!(run(&mut s, |t| m.rename(t, ctx(0), &missing_new)).0, Err(posix(Errno::ENOENT)));
    let missing_old = rename_param(1, "zz", 1, "a", RENAME_EXCHANGE);
    assert_eq!(run(&mut s, |t| m.rename(t, ctx(0), &missing_old)).0, Err(posix(Errno::ENOENT)));
    let no_parent = rename_param(77, "a", 1, "a", RENAME_EXCHANGE);
    assert_eq!(run(&mut s, |t| m.rename(t, ctx(0), &no_parent)).0, Err(posix(Errno::ENOENT)));
    let not_dir = rename_param(1, "a", 2, "a", RENAME_EXCHANGE);
    assert_eq!(run(&mut s, |t| m.rename(t, ctx(0), &not_dir)).0, Err(posix(Errno::ENOTDIR)));
    let same = rename_param(1, "a", 1, "a", RENAME_EXCHANGE);
    let before = s.dump();
    assert_eq!(run(&mut s, |t| m.rename(t, ctx(0), &same)).0, Ok(()));
    assert_eq!(s.dump(), before);
}

#[test]
fn rename_there_and_back_is_identity() {
    let (m, mut s) = mounted();
    assert_eq!(mknod(&m, &mut s, 1, "d", NodeType::Dir, 0), Ok(2));
    assert_eq!(mknod(&m, &mut s, 1, "a", NodeType::File, 0), Ok(3));
    assert_eq!(mknod(&m, &mut s, 2, "k", NodeType::File, 0), Ok(4));
    let before = s.dump();
    let there = rename_param(1, "a", 2, "b", 0);
    assert_eq!(run(&mut s, |t| m.rename(t, ctx(0), &there)).0, Ok(()));
    assert_eq!(s.names(1), pairs(&[("d", 2)]));
    assert_eq!(s.names(2), pairs(&[("b", 3), ("k", 4)]));
    assert_eq!((s.node(3).get_parent_ino(), s.node(3).get_name()), (2, &b"b"[..]));
    let back = rename_param(2, "b", 1, "a", 0);
    assert_eq!(run(&mut s, |t| m.rename(t, ctx(0), &back)).0, Ok(()));
    assert_eq!(s.dump(), before);
}

#[test]
fn rename_errors() {
    let (m, mut s) = mounted();
    assert_eq!(mknod(&m, &mut s, 1, "a", NodeType::File, 0), Ok(2));
    assert_eq!(mknod(&m, &mut s, 1, "b", NodeType::File, 0), Ok(3));
    let before = s.dump();
    let no_replace = rename_param(1, "a", 1, "b", RENAME_NOREPLACE);
    assert_eq!(run(&mut s, |t| m.rename(t, ctx(0), &no_replace)).0, Err(posix(Errno::EEXIST)));
    let missing = rename_param(1, "zz", 1, "c", 0);
    assert_eq!(run(&mut s, |t| m.rename(t, ctx(0), &missing)).0, Err(posix(Errno::ENOENT)));
    let into_file = rename_param(1, "a", 2, "c", 0);
    assert_eq!(run(&mut s, |t| m.rename(t, ctx(0), &into_file)).0, Err(posix(Errno::ENOTDIR)));
    let long = "n".repeat(256);
    let too_long = rename_param(1, "a", 1, &long, 0);
    assert_eq!(run(&mut s, |t| m.rename(t, ctx(0), &too_long)).0, Err(posix(Errno::ENAMETOOLONG)));
    let no_parent = rename_param(40, "a", 1, "c", 0);
    assert_eq!(
        run(&mut s, |t| m.rename(t, ctx(0), &no_parent)).0,
        Err(MetaError::InconsistentFS { ino: 40 })
    );
    assert_eq!(s.dump(), before);
    let onto_itself = rename_param(1, "a", 1, "a", 0);
    assert_eq!(run(&mut s, |t| m.rename(t, ctx(0), &onto_itself)).0, Ok(()));
    assert_eq!(s.dump(), before);
    let fresh_name = rename_param(1, "a", 1, "c", RENAME_NOREPLACE);
    assert_eq!(run(&mut s, |t| m.rename(t, ctx(0), &fresh_name)).0, Ok(()));
    assert_eq!(s.names(1), pairs(&[("b", 3), ("c", 2)]));
}

#[test]
fn rename_onto_the_old_parent_is_refused() {
    let (m, mut s) = mounted();
    assert_eq!(mknod(&m, &mut s, 1, "d", NodeType::Dir, 0), Ok(2));
    assert_eq!(mknod(&m, &mut s, 2, "x", NodeType::File, 0), Ok(3));
    let before = s.dump();
    let p = rename_param(2, "x", 1, "d", 0);
    assert_eq!(run(&mut s, |t| m.rename(t, ctx(0), &p)).0, Err(posix(Errno::ENOTEMPTY)));
    assert_eq!(s.dump(), before);
}

#[test]
fn rename_respects_the_sticky_bit() {
    let (m, mut s) = mounted();
    let p = SetAttrParam { mode: Some(0o1777), uid: None, gid: None, size: None, atime: None, mtime: None };
    run(&mut s, |t| m.setattr_helper(t, ctx(0), 1, &p, NOW)).0.unwrap();
    assert_eq!(mknod(&m, &mut s, 1, "a", NodeType::File, 1000), Ok(2));
    assert_eq!(mknod(&m, &mut s, 1, "b", NodeType::File, 1001), Ok(3));
    let r = rename_param(1, "a", 1, "c", 0);
    assert_eq!(run(&mut s, |t| m.rename(t, ctx(1001), &r)).0, Err(posix(Errno::EACCES)));
    let r = rename_param(1, "a", 1, "b", 0);
    assert_eq!(run(&mut s, |t| m.rename(t, ctx(1000), &r)).0, Err(posix(Errno::EACCES)));
    let r = rename_param(1, "a", 1, "b", RENAME_EXCHANGE);
    assert_eq!(run(&mut s, |t| m.rename(t, ctx(1000), &r)).0, Err(posix(Errno::EACCES)));
    let r = rename_param(1, "a", 1, "c", 0);
    assert_eq!(run(&mut s, |t| m.rename(t, ctx(1000), &r)).0, Ok(()));
}

#[test]
fn mknod_unlink_forget_restores_the_store() {
    let (m, mut s) = mounted();
    assert_eq!(mknod(&m, &mut s, 1, "keep", NodeType::File, 0), Ok(2));
    let before = s.dump();
    assert_eq!(mknod(&m, &mut s, 1, "n", NodeType::File, 7), Ok(3));
    assert_eq!(run(&mut s, |t| m.unlink(t, ctx(7), 1, b"n")).0, Ok(()));
    // the kernel holds the lookup of the creation: the record waits for it
    assert!(s.node(3).is_deferred_deletion());
    assert_eq!(s.names(1), pairs(&[("keep", 2)]));
    assert_eq!(run(&mut s, |t| m.forget(t, 3, 1)).0, Ok(()));
    assert_eq!(s.dump(), before);
    assert_eq!(s.counter, Some(4));
}

#[test]
fn mkdir_rmdir_forget_restores_the_store() {
    let (m, mut s) = mounted();
    let before = s.dump();
    assert_eq!(mknod(&m, &mut s, 1, "d", NodeType::Dir, 7), Ok(2));
    assert_eq!(s.node(2).get_attr().nlink, 2);
    assert_eq!(run(&mut s, |t| m.rmdir(t, ctx(7), 1, b"d")).0, Ok(()));
    let (r, effects) = run(&mut s, |t| m.forget(t, 2, 1));
    assert_eq!(r, Ok(()));
    assert!(effects.is_empty());
    assert_eq!(s.dump(), before);
}

#[test]
fn two_creations_in_one_directory() {
    let (m, mut s) = mounted();
    assert_eq!(mknod(&m, &mut s, 1, "n1", NodeType::File, 0), Ok(2));
    assert_eq!(mknod(&m, &mut s, 1, "n2", NodeType::File, 0), Ok(3));
    assert_eq!(s.names(1), pairs(&[("n1", 2), ("n2", 3)]));
    let counter = s.counter;
    let before = s.dump();
    assert_eq!(mknod(&m, &mut s, 1, "n1", NodeType::File, 0), Err(posix(Errno::EEXIST)));
    assert_eq!(s.dump(), before);
    // the refused creation took no inode number
    assert_eq!(s.counter, counter);
}

#[test]
fn creation_errors() {
    let (m, mut s) = mounted();
    assert_eq!(mknod(&m, &mut s, 1, "f", NodeType::File, 0), Ok(2));
    let long = "n".repeat(256);
    assert_eq!(mknod(&m, &mut s, 1, &long, NodeType::File, 0), Err(posix(Errno::ENAMETOOLONG)));
    let longest = "n".repeat(255);
    assert_eq!(mknod(&m, &mut s, 1, &longest, NodeType::File, 0), Ok(3));
    for t in [NodeType::CharDevice, NodeType::BlockDevice, NodeType::Fifo, NodeType::Socket] {
        assert_eq!(mknod(&m, &mut s, 1, "dev", t, 0), Err(MetaError::Unsupported));
    }
    assert_eq!(mknod(&m, &mut s, 2, "g", NodeType::File, 0), Err(posix(Errno::ENOTDIR)));
    assert_eq!(mknod(&m, &mut s, 99, "g", NodeType::File, 0), Err(MetaError::InconsistentFS { ino: 99 }));
    assert_eq!(mknod(&m, &mut s, 1, "l", NodeType::Symlink, 0), Err(posix(Errno::EINVAL)));
    assert_eq!(s.counter, Some(4));
}

#[test]
fn symlink_and_readlink() {
    let (m, mut s) = mounted();
    let mut p = create(1, "l", NodeType::Symlink, 0o777, 5);
    p.link = Some(b"/some/where".to_vec());
    let (r, effects) = run(&mut s, |t| m.mknod(t, &p, NOW));
    let reply = r.unwrap();
    assert!(effects.is_empty());
    assert_eq!(reply.attr.mode, 0o120777);
    assert_eq!(reply.attr.size, 11);
    assert_eq!(reply.attr.nlink, 1);
    assert_eq!(run(&mut s, |t| m.readlink(t, 2)).0, Ok(b"/some/where".to_vec()));
    assert_eq!(run(&mut s, |t| m.readlink(t, 1)).0, Err(posix(Errno::EINVAL)));
    assert_eq!(run(&mut s, |t| m.readlink(t, 9)).0, Err(MetaError::InconsistentFS { ino: 9 }));
}

#[test]
fn lookup_counts_and_forget_saturates() {
    let (m, mut s) = mounted();
    assert_eq!(mknod(&m, &mut s, 1, "a", NodeType::File, 1000), Ok(2));
    let (r, _) = run(&mut s, |t| m.lookup_helper(t, ctx(1000), 1, b"a"));
    let reply = r.unwrap();
    assert_eq!((reply.attr.ino, reply.ttl, reply.generation), (2, 3600, 1));
    assert_eq!(s.node(2).get_lookup_count(), 2);
    assert_eq!(run(&mut s, |t| m.lookup_helper(t, ctx(1000), 1, b"nope")).0, Err(posix(Errno::ENOENT)));
    assert_eq!(
        run(&mut s, |t| m.lookup_helper(t, ctx(1000), 5, b"a")).0,
        Err(MetaError::InconsistentFS { ino: 5 })
    );
    assert_eq!(run(&mut s, |t| m.lookup_helper(t, ctx(1000), 2, b"a")).0, Err(posix(Errno::ENOTDIR)));
    assert_eq!(run(&mut s, |t| m.forget(t, 2, 1)).0, Ok(()));
    assert_eq!(s.node(2).get_lookup_count(), 1);
    assert_eq!(run(&mut s, |t| m.forget(t, 2, 10)).0, Ok(()));
    assert_eq!(s.node(2).get_lookup_count(), 0);
    // the inode is still linked: forgetting it does not remove it
    assert!(s.has(2));
    let (r, _) = run(&mut s, |t| m.lookup_helper(t, ctx(1000), 1, b"a"));
    assert_eq!(r.unwrap().attr.ino, 2);
    assert_eq!(run(&mut s, |t| m.forget(t, 44, 1)).0, Err(MetaError::InconsistentFS { ino: 44 }));
}

#[test]
fn lookup_needs_search_permission() {
    let (m, mut s) = mounted();
    assert_eq!(mknod(&m, &mut s, 1, "d", NodeType::Dir, 1000), Ok(2));
    assert_eq!(mknod(&m, &mut s, 2, "f", NodeType::File, 1000), Ok(3));
    // the directory was made with mode 0644: nobody may search it
    assert_eq!(run(&mut s, |t| m.lookup_helper(t, ctx(1000), 2, b"f")).0, Err(posix(Errno::EACCES)));
    let p = SetAttrParam { mode: Some(0o700), uid: None, gid: None, size: None, atime: None, mtime: None };
    run(&mut s, |t| m.setattr_helper(t, ctx(1000), 2, &p, NOW)).0.unwrap();
    assert_eq!(run(&mut s, |t| m.lookup_helper(t, ctx(1000), 2, b"f")).0.unwrap().attr.ino, 3);
    assert_eq!(run(&mut s, |t| m.lookup_helper(t, ctx(1001), 2, b"f")).0, Err(posix(Errno::EACCES)));
    let lenient = S3MetaData::new(4096, 0, 0, false).unwrap();
    assert_eq!(run(&mut s, |t| lenient.lookup_helper(t, ctx(1001), 2, b"f")).0.unwrap().attr.ino, 3);
}

#[test]
fn forget_after_unlink_removes_and_lookup_finds_a_fresh_inode() {
    let (m, mut s) = mounted();
    assert_eq!(mknod(&m, &mut s, 1, "a", NodeType::File, 0), Ok(2));
    assert_eq!(run(&mut s, |t| m.unlink(t, ctx(0), 1, b"a")).0, Ok(()));
    assert_eq!(run(&mut s, |t| m.forget(t, 2, 1)).0, Ok(()));
    assert!(!s.has(2));
    assert_eq!(run(&mut s, |t| m.lookup_helper(t, ctx(0), 1, b"a")).0, Err(posix(Errno::ENOENT)));
    assert_eq!(mknod(&m, &mut s, 1, "a", NodeType::File, 0), Ok(3));
    assert_eq!(run(&mut s, |t| m.lookup_helper(t, ctx(0), 1, b"a")).0.unwrap().attr.ino, 3);
}

#[test]
fn unlink_and_rmdir_errors() {
    let (m, mut s) = mounted();
    assert_eq!(mknod(&m, &mut s, 1, "d", NodeType::Dir, 0), Ok(2));
    assert_eq!(mknod(&m, &mut s, 2, "f", NodeType::File, 0), Ok(3));
    let before = s.dump();
    assert_eq!(run(&mut s, |t| m.unlink(t, ctx(0), 1, b"d")).0, Err(posix(Errno::EISDIR)));
    assert_eq!(run(&mut s, |t| m.rmdir(t, ctx(0), 1, b"d")).0, Err(posix(Errno::ENOTEMPTY)));
    assert_eq!(run(&mut s, |t| m.rmdir(t, ctx(0), 2, b"f")).0, Err(posix(Errno::ENOTDIR)));
    assert_eq!(run(&mut s, |t| m.rmdir(t, ctx(0), 1, b"zz")).0, Err(posix(Errno::ENOENT)));
    assert_eq!(run(&mut s, |t| m.unlink(t, ctx(0), 1, b"zz")).0, Err(MetaError::InconsistentFS { ino: 1 }));
    assert_eq!(run(&mut s, |t| m.unlink(t, ctx(0), 3, b"zz")).0, Err(posix(Errno::ENOTDIR)));
    assert_eq!(run(&mut s, |t| m.unlink(t, ctx(0), 8, b"zz")).0, Err(MetaError::InconsistentFS { ino: 8 }));
    assert_eq!(
        run(&mut s, |t| m.remove_node_local(t, ctx(0), 1, b"zz", FileKind::File, false)).0,
        Err(posix(Errno::ENOENT))
    );
    assert_eq!(
        run(&mut s, |t| m.remove_node_local(t, ctx(0), 1, b"d", FileKind::File, false)).0,
        Err(MetaError::InconsistentFS { ino: 2 })
    );
    assert_eq!(
        run(&mut s, |t| m.may_deferred_delete_node_helper(t, 1, false)).0,
        Err(MetaError::InconsistentFS { ino: 1 })
    );
    assert_eq!(s.dump(), before);
    assert_eq!(run(&mut s, |t| m.unlink(t, ctx(0), 2, b"f")).0, Ok(()));
    assert_eq!(run(&mut s, |t| m.rmdir(t, ctx(0), 1, b"d")).0, Ok(()));
    assert!(s.names(1).is_empty());
}

#[test]
fn remote_unlink_of_a_looked_up_inode_notifies_the_kernel() {
    let (mut m, mut s) = mounted();
    m.set_fuse_fd(9);
    assert_eq!(m.fuse_fd(), 9);
    assert_eq!(mknod(&m, &mut s, 1, "a", NodeType::File, 0), Ok(2));
    let (r, effects) = run(&mut s, |t| m.remove_node_local(t, ctx(0), 1, b"a", FileKind::File, true));
    assert_eq!(r, Ok(()));
    match effects.as_slice() {
        [Effect::NotifyDelete { fuse_fd, parent, ino, name }] => {
            assert_eq!((*fuse_fd, *parent, *ino, name.as_slice()), (9, 1, 2, &b"a"[..]));
        }
        other => panic!("unexpected effects {:?}", other),
    }
    // an inode that only an open refers to is kept without a notification
    assert_eq!(mknod(&m, &mut s, 1, "b", NodeType::File, 0), Ok(3));
    run(&mut s, |t| m.forget(t, 3, 1)).0.unwrap();
    run(&mut s, |t| m.open(t, ctx(0), 3, 0)).0.unwrap();
    let (r, effects) = run(&mut s, |t| m.remove_node_local(t, ctx(0), 1, b"b", FileKind::File, true));
    assert_eq!(r, Ok(()));
    assert!(effects.is_empty());
    assert!(s.node(3).is_deferred_deletion());
}

#[test]
fn open_checks_access_and_hands_out_handles() {
    let (mut m, mut s) = mounted();
    assert_eq!(mknod(&m, &mut s, 1, "a", NodeType::File, 1000), Ok(2));
    // mode 0644 of uid 1000
    assert_eq!(run(&mut s, |t| m.open(t, ctx(1000), 2, 0)).0, Ok(4));
    assert_eq!(run(&mut s, |t| m.open(t, ctx(1000), 2, 1)).0, Ok(5));
    assert_eq!(run(&mut s, |t| m.open(t, ctx(1001), 2, 0)).0, Ok(6));
    assert_eq!(run(&mut s, |t| m.open(t, ctx(1001), 2, 1)).0, Err(posix(Errno::EACCES)));
    assert_eq!(run(&mut s, |t| m.open(t, ctx(1001), 2, 2)).0, Err(posix(Errno::EACCES)));
    assert_eq!(run(&mut s, |t| m.open(t, ctx(1000), 2, 3)).0, Err(posix(Errno::EINVAL)));
    assert_eq!(run(&mut s, |t| m.open(t, ctx(1000), 2, 0o1000)).0, Err(posix(Errno::EACCES)));
    assert_eq!(run(&mut s, |t| m.open(t, ctx(1000), 2, 0x20)).0, Err(posix(Errno::EACCES)));
    assert_eq!(run(&mut s, |t| m.open(t, ctx(1000), 7, 0)).0, Err(MetaError::InconsistentFS { ino: 7 }));
    // a refused open takes no handle
    assert_eq!(m.cur_fd(), 7);
    assert_eq!(s.node(2).get_open_count(), 3);
    assert_eq!(run(&mut s, |t| m.opendir(t, ctx(0), 1, 0)).0, Ok(7));
    assert_eq!(s.node(1).get_open_count(), 1);
    assert_eq!(run(&mut s, |t| m.releasedir(t, 1, 7)).0, Ok(()));
    assert_eq!(s.node(1).get_open_count(), 0);
    assert_eq!(run(&mut s, |t| m.releasedir(t, 1, 7)).0, Ok(()));
    assert_eq!(s.node(1).get_open_count(), 0);
    assert!(s.has(1));
}

#[test]
fn release_with_flush_and_flush() {
    let (mut m, mut s) = mounted();
    assert_eq!(mknod(&m, &mut s, 1, "a", NodeType::File, 0), Ok(2));
    let h = run(&mut s, |t| m.open(t, ctx(0), 2, 2)).0.unwrap() as u64;
    let puts = s.puts;
    let (r, effects) = run(&mut s, |t| m.flush(t, 2, h));
    assert_eq!(r, Ok(()));
    assert!(matches!(effects.as_slice(), [Effect::FlushFile { ino: 2, fh: 4 }]));
    let (r, effects) = run(&mut s, |t| m.fsync_helper(t, 2, h, true));
    assert_eq!(r, Ok(()));
    assert!(matches!(effects.as_slice(), [Effect::FlushFile { ino: 2, fh: 4 }]));
    assert_eq!(s.puts, puts);
    let (r, effects) = run(&mut s, |t| m.release(t, 2, h, true));
    assert_eq!(r, Ok(()));
    assert!(matches!(effects.as_slice(), [Effect::FlushFile { ino: 2, fh: 4 }]));
    assert_eq!(s.node(2).get_open_count(), 0);
    assert_eq!(run(&mut s, |t| m.flush(t, 12, h)).0, Err(MetaError::InconsistentFS { ino: 12 }));
    assert_eq!(run(&mut s, |t| m.release(t, 12, h, true)).0, Err(MetaError::InconsistentFS { ino: 12 }));
}

#[test]
fn setattr_rules() {
    let (m, mut s) = mounted();
    assert_eq!(mknod(&m, &mut s, 1, "a", NodeType::File, 1000), Ok(2));
    let none = SetAttrParam { mode: None, uid: None, gid: None, size: None, atime: None, mtime: None };
    let later = Timestamp { secs: NOW.secs + 60, nanos: 1 };
    let (r, _) = run(&mut s, |t| m.setattr_helper(t, ctx(1001), 2, &none, later));
    assert_eq!(r.unwrap().attr.ctime, NOW.secs);
    let chmod = SetAttrParam { mode: Some(0o100600), ..none };
    assert_eq!(run(&mut s, |t| m.setattr_helper(t, ctx(1001), 2, &chmod, later)).0, Err(posix(Errno::EACCES)));
    let (r, effects) = run(&mut s, |t| m.setattr_helper(t, ctx(1000), 2, &chmod, later));
    let reply = r.unwrap();
    assert!(effects.is_empty());
    assert_eq!(reply.ttl, 3600);
    assert_eq!(reply.attr.mode, 0o100600);
    assert_eq!((reply.attr.ctime, reply.attr.ctimensec), (later.secs, 1));
    assert_eq!(reply.attr.mtime, NOW.secs);
    let chown = SetAttrParam { uid: Some(5), gid: Some(6), ..none };
    let (r, _) = run(&mut s, |t| m.setattr_helper(t, ctx(0), 2, &chown, later));
    assert_eq!((r.unwrap().attr.uid, s.node(2).get_attr().gid), (5, 6));
    let truncate = SetAttrParam { size: Some(100), ..none };
    assert_eq!(run(&mut s, |t| m.setattr_helper(t, ctx(6), 2, &truncate, later)).0, Err(posix(Errno::EACCES)));
    let (r, effects) = run(&mut s, |t| m.setattr_helper(t, ctx(5), 2, &truncate, later));
    assert_eq!(r.unwrap().attr.size, 100);
    assert!(matches!(effects.as_slice(), [Effect::TruncateObject { ino: 2, size: 100 }]));
    let (_, effects) = run(&mut s, |t| m.setattr_helper(t, ctx(5), 2, &truncate, later));
    assert!(effects.is_empty());
    assert_eq!(run(&mut s, |t| m.setattr_helper(t, ctx(0), 1, &truncate, later)).0, Err(posix(Errno::EISDIR)));
    let times = SetAttrParam { atime: Some(Timestamp { secs: 1, nanos: 2 }), mtime: Some(Timestamp { secs: 3, nanos: 4 }), ..none };
    let (r, _) = run(&mut s, |t| m.setattr_helper(t, ctx(77), 2, &times, later));
    let a = r.unwrap().attr;
    assert_eq!((a.atime, a.atimensec, a.mtime, a.mtimensec), (1, 2, 3, 4));
    assert_eq!(run(&mut s, |t| m.setattr_helper(t, ctx(0), 50, &none, later)).0, Err(MetaError::InconsistentFS { ino: 50 }));
}

fn listing(items: Vec<DirItem>) -> Vec<(u64, i64, FileKind, String)> {
    items.into_iter().map(|i| (i.ino, i.offset, i.kind, String::from_utf8(i.name).unwrap())).collect()
}

#[test]
fn readdir_lists_in_name_order_from_an_offset() {
    let (m, mut s) = mounted();
    assert_eq!(mknod(&m, &mut s, 1, "b", NodeType::File, 0), Ok(2));
    assert_eq!(mknod(&m, &mut s, 1, "a", NodeType::Dir, 0), Ok(3));
    assert_eq!(mknod(&m, &mut s, 1, "ab", NodeType::File, 0), Ok(4));
    let all = listing(run(&mut s, |t| m.readdir(t, ctx(7), 1, 0, 0)).0.unwrap());
    assert_eq!(
        all,
        vec![
            (3, 1, FileKind::Dir, "a".to_string()),
            (4, 2, FileKind::File, "ab".to_string()),
            (2, 3, FileKind::File, "b".to_string()),
        ]
    );
    let rest = listing(run(&mut s, |t| m.readdir(t, ctx(7), 1, 0, 2)).0.unwrap());
    assert_eq!(rest, vec![(2, 3, FileKind::File, "b".to_string())]);
    assert!(run(&mut s, |t| m.readdir(t, ctx(7), 1, 0, 3)).0.unwrap().is_empty());
    assert!(run(&mut s, |t| m.readdir(t, ctx(7), 1, 0, i64::MAX)).0.unwrap().is_empty());
    assert_eq!(run(&mut s, |t| m.readdir(t, ctx(7), 1, 0, -1)).0.err(), Some(posix(Errno::EINVAL)));
    assert_eq!(run(&mut s, |t| m.readdir(t, ctx(7), 2, 0, 0)).0.err(), Some(posix(Errno::ENOTDIR)));
    assert_eq!(run(&mut s, |t| m.readdir(t, ctx(7), 3, 0, 0)).0.err(), Some(posix(Errno::EACCES)));
    assert_eq!(run(&mut s, |t| m.readdir(t, ctx(7), 30, 0, 0)).0.err(), Some(MetaError::InconsistentFS { ino: 30 }));
}

#[test]
fn read_is_cut_at_the_end_of_the_file() {
    let (m, mut s) = mounted();
    assert_eq!(mknod(&m, &mut s, 1, "a", NodeType::File, 0), Ok(2));
    run(&mut s, |t| m.write_helper(t, 2, 4, 0, 10, 0, NOW)).0.unwrap();
    let plan = |s: &mut Store, offset: i64, size: u32| {
        let p = run(s, |t| m.read_helper(t, 2, 4, offset, size)).0.unwrap();
        (p.offset, p.size)
    };
    assert_eq!(plan(&mut s, 0, 10), (0, 10));
    assert_eq!(plan(&mut s, 3, 4), (3, 4));
    assert_eq!(plan(&mut s, 3, 7), (3, 7));
    assert_eq!(plan(&mut s, 3, 8), (3, 7));
    assert_eq!(plan(&mut s, 10, 1), (10, 0));
    assert_eq!(plan(&mut s, 11, 1), (11, 0));
    assert_eq!(plan(&mut s, i64::MAX, u32::MAX), (i64::MAX as u64, 0));
    assert_eq!(run(&mut s, |t| m.read_helper(t, 2, 4, -1, 1)).0, Err(posix(Errno::EINVAL)));
    assert_eq!(run(&mut s, |t| m.read_helper(t, 6, 4, 0, 1)).0, Err(MetaError::InconsistentFS { ino: 6 }));
}

#[test]
fn write_grows_the_file_and_invalidates_the_blocks() {
    let m = S3MetaData::new(4096, 0, 0, true).unwrap();
    let mut s = Store::new();
    run(&mut s, |t| m.init_root(t, NOW)).0.unwrap();
    assert_eq!(mknod(&m, &mut s, 1, "a", NodeType::File, 0), Ok(2));
    let (r, effects) = run(&mut s, |t| m.write_helper(t, 2, 4, 4095, 2, 0, NOW));
    assert_eq!(r, Ok(2));
    assert!(matches!(
        effects.as_slice(),
        [Effect::InvalidateRemote { ino: 2, block_start: 0, block_end: 1 }]
    ));
    assert_eq!(s.node(2).get_attr().size, 4097);
    let (_, effects) = run(&mut s, |t| m.write_helper(t, 2, 4, 8192, 4096, 0, NOW));
    assert!(matches!(
        effects.as_slice(),
        [Effect::InvalidateRemote { ino: 2, block_start: 2, block_end: 2 }]
    ));
    assert_eq!(s.node(2).get_attr().size, 12288);
    // a write inside the file does not shrink it
    let (_, effects) = run(&mut s, |t| m.write_helper(t, 2, 4, 10, 12279, 0, NOW));
    assert!(matches!(
        effects.as_slice(),
        [Effect::InvalidateRemote { ino: 2, block_start: 0, block_end: 3 }]
    ));
    assert_eq!(s.node(2).get_attr().size, 12289);
    let (r, effects) = run(&mut s, |t| m.write_helper(t, 2, 4, 5, 0, 0, NOW));
    assert_eq!(r, Ok(0));
    assert!(effects.is_empty());
    assert_eq!(run(&mut s, |t| m.write_helper(t, 2, 4, -1, 1, 0, NOW)).0, Err(posix(Errno::EINVAL)));
    assert_eq!(run(&mut s, |t| m.write_helper(t, 2, 4, i64::MAX, 1, 0, NOW)).0, Err(posix(Errno::EINVAL)));
    assert_eq!(run(&mut s, |t| m.write_helper(t, 2, 4, i64::MAX - 1, 1, 0, NOW)).0, Ok(1));
    assert_eq!(s.node(2).get_attr().size, i64::MAX as u64);
    assert_eq!(run(&mut s, |t| m.write_helper(t, 1, 4, 0, 1, 0, NOW)).0, Err(posix(Errno::EISDIR)));
    assert_eq!(run(&mut s, |t| m.write_helper(t, 9, 4, 0, 1, 0, NOW)).0, Err(MetaError::InconsistentFS { ino: 9 }));
}

#[test]
fn invalidate_remote_block_range() {
    let m = meta();
    let mut txn = MetaTxn::new();
    assert_eq!(m.invalidate_remote(&mut txn, 8, 10_485_759, 2), Ok(()));
    assert_eq!(m.invalidate_remote(&mut txn, 8, 0, 10_485_760), Ok(()));
    assert_eq!(m.invalidate_remote(&mut txn, 8, 0, 0), Ok(()));
    assert_eq!(m.invalidate_remote(&mut txn, 8, -5, 1), Err(posix(Errno::EINVAL)));
    assert_eq!(m.invalidate_remote(&mut txn, 8, i64::MAX, 1), Err(posix(Errno::EINVAL)));
    assert!(matches!(
        txn.effects().as_slice(),
        [
            Effect::InvalidateRemote { ino: 8, block_start: 0, block_end: 1 },
            Effect::InvalidateRemote { ino: 8, block_start: 0, block_end: 0 },
        ]
    ));
    assert!(txn.writes().is_empty());
}

#[test]
fn statfs_reports_the_volume() {
    let (m, mut s) = mounted();
    assert_eq!(mknod(&m, &mut s, 1, "a", NodeType::File, 1000), Ok(2));
    let stat = metacore::access::VolumeStat { capacity: 1 << 40, free: 1 << 39, files: 2 };
    let r = run(&mut s, |t| m.statfs(t, ctx(1000), 1, stat)).0.unwrap();
    assert_eq!((r.capacity, r.free, r.files, r.namelen), (1 << 40, 1 << 39, 2, 255));
    // the file has mode 0644: its owner lacks search permission
    assert_eq!(run(&mut s, |t| m.statfs(t, ctx(1000), 2, stat)).0, Err(posix(Errno::EACCES)));
    assert_eq!(run(&mut s, |t| m.statfs(t, ctx(1000), 3, stat)).0, Err(MetaError::InconsistentFS { ino: 3 }));
}

#[test]
fn a_handler_stops_for_each_record_it_has_not_read() {
    let (m, mut s) = mounted();
    assert_eq!(mknod(&m, &mut s, 1, "a", NodeType::File, 0), Ok(2));
    let mut txn = MetaTxn::new();
    assert_eq!(m.lookup_helper(&mut txn, ctx(0), 1, b"a"), Step::Need(1));
    assert!(!txn.knows(1));
    txn.load(1, Some(s.node(1).clone_node()));
    assert!(txn.knows(1));
    assert_eq!(m.lookup_helper(&mut txn, ctx(0), 1, b"a"), Step::Need(2));
    assert!(txn.writes().is_empty());
    txn.load(2, Some(s.node(2).clone_node()));
    assert!(matches!(m.lookup_helper(&mut txn, ctx(0), 1, b"a"), Step::Done(Ok(_))));
    let writes = txn.writes();
    assert_eq!(writes.len(), 1);
    match &writes[0] {
        KvWrite::Put(k, n) => {
            assert_eq!(*k, 2);
            assert_eq!(n.get_lookup_count(), 2);
        }
        other => panic!("unexpected write {:?}", other),
    }
    // what the transaction wrote is what it reads, and a later load does not undo it
    txn.load(2, None);
    assert_eq!(m.getattr(&txn, 2).into_value::<()>().unwrap().attr.ino, 2);

    let p = create(1, "n", NodeType::File, 0o644, 0);
    let mut txn = MetaTxn::new();
    assert_eq!(m.mknod(&mut txn, &p, NOW), Step::Need(1));
    txn.load(1, Some(s.node(1).clone_node()));
    assert_eq!(m.mknod(&mut txn, &p, NOW), Step::NeedInum);
    assert_eq!(txn.inum(), None);
    txn.supply_inum(40);
    assert_eq!(txn.inum(), Some(40));
    assert_eq!(m.mknod(&mut txn, &p, NOW).into_value::<()>().unwrap().attr.ino, 40);
    assert_eq!(txn.inum(), None);
    assert_eq!(txn.writes().len(), 2);
}

#[test]
fn kv_accessors_stage_reads_and_writes() {
    let m = meta();
    let mut txn = MetaTxn::new();
    assert!(matches!(m.get_node_from_kv_engine(&txn, 5), Step::Need(5)));
    assert!(matches!(m.try_get_inode_from_txn(&txn, 5), Step::Need(5)));
    assert!(matches!(m.get_inode_from_txn(&txn, 5), Step::Need(5)));
    txn.load(5, None);
    assert!(matches!(m.get_node_from_kv_engine(&txn, 5), Step::Done(Ok(None))));
    assert!(matches!(
        m.get_inode_from_txn(&txn, 5),
        Step::Done(Err(MetaError::InconsistentFS { ino: 5 }))
    ));
    let root = Node::open_root_node(3, 4, NOW);
    m.set_node_to_kv_engine(&mut txn, 5, root);
    match m.get_node_from_kv_engine(&txn, 5) {
        Step::Done(Ok(Some(n))) => assert_eq!(n.get_attr().uid, 3),
        other => panic!("unexpected {:?}", other),
    }
    assert!(matches!(txn.writes().as_slice(), [KvWrite::Put(5, _)]));
    m.remove_node_from_kv_engine(&mut txn, 5);
    assert!(matches!(m.get_node_from_kv_engine(&txn, 5), Step::Done(Ok(None))));
    assert!(matches!(txn.writes().as_slice(), [KvWrite::Delete(5)]));
    m.remove_node_from_kv_engine(&mut txn, 6);
    assert!(matches!(txn.writes().as_slice(), [KvWrite::Delete(5), KvWrite::Delete(6)]));
}
