//! Requests against a store that holds bytes, notes versions, and refuses the
//! commit of a transaction that read what has changed since.

use std::collections::BTreeMap;

use metacore::attr::{FileKind, NodeType, ReqContext, Timestamp};
use metacore::error::{Errno, MetaError};
use metacore::inum::INumAllocator;
use metacore::meta::{RenameParam, S3MetaData, RENAME_EXCHANGE};
use metacore::node::{CreateParam, Node};
use metacore::retry::{CommitOutcome, TxnRunner, Verdict};
use metacore::data::object_key;
use metacore::txn::{MetaTxn, Step};

const NOW: Timestamp = Timestamp { secs: 42, nanos: 0 };

/// The key-value store: the bytes of each record, the version of each key,
/// the inode counter, and the commits that are to meet an injected conflict.
struct Kv {
    records: BTreeMap<u64, Vec<u8>>,
    versions: BTreeMap<u64, u64>,
    counter: Option<u64>,
    inject: Vec<bool>,
    commits: usize,
}

/// One attempt of a request: the transaction of the core, and the versions
/// of the keys that it has read.
struct Attempt {
    txn: MetaTxn,
    reads: Vec<(u64, u64)>,
}

impl Kv {
    fn new() -> Kv {
        Kv { records: BTreeMap::new(), versions: BTreeMap::new(), counter: None, inject: Vec::new(), commits: 0 }
    }

    fn version(&self, ino: u64) -> u64 {
        self.versions.get(&ino).copied().unwrap_or(0)
    }

    fn node(&self, ino: u64) -> Node {
        Node::decode(self.records.get(&ino).unwrap()).unwrap()
    }

    fn begin(&self) -> Attempt {
        Attempt { txn: MetaTxn::new(), reads: Vec::new() }
    }

    /// Runs the handler on the attempt until it is done.
    fn drive<T>(&mut self, a: &mut Attempt, body: &mut dyn FnMut(&mut MetaTxn) -> Step<T>) -> Result<T, MetaError> {
        loop {
            match body(&mut a.txn) {
                Step::Need(ino) => {
                    a.reads.push((ino, self.version(ino)));
                    if let Err(e) = a.txn.load_bytes(ino, self.records.get(&ino).map(|b| b.as_slice())) {
                        return Err(e);
                    }
                }
                Step::NeedInum => {
                    let g = INumAllocator::new().alloc_inum_for_fnode(self.counter).unwrap();
                    self.counter = Some(g.next);
                    a.txn.supply_inum(g.ino);
                }
                Step::Done(r) => return r,
            }
        }
    }

    fn commit(&mut self, a: Attempt) -> CommitOutcome {
        let injected = self.inject.get(self.commits).copied().unwrap_or(false);
        self.commits += 1;
        if injected || a.reads.iter().any(|(k, v)| self.version(*k) != *v) {
            return CommitOutcome::Conflict;
        }
        for w in a.txn.encoded_writes() {
            match w.value {
                Some(bytes) => {
                    self.records.insert(w.key, bytes);
                }
                None => {
                    self.records.remove(&w.key);
                }
            }
            let v = self.version(w.key);
            self.versions.insert(w.key, v + 1);
        }
        CommitOutcome::Committed
    }

    /// Runs a request as the runner of the core decides; also says how many
    /// attempts it took.
    fn request<T>(&mut self, mut body: impl FnMut(&mut MetaTxn) -> Step<T>) -> (Result<T, MetaError>, u32) {
        let mut runner = TxnRunner::new();
        while runner.start_attempt() {
            let mut a = self.begin();
            let value = match self.drive(&mut a, &mut body) {
                Ok(v) => v,
                Err(e) => return (Err(e), runner.attempts_made()),
            };
            match runner.on_commit(self.commit(a)) {
                Verdict::Success => return (Ok(value), runner.attempts_made()),
                Verdict::Retry => {}
                Verdict::Failure(e) => return (Err(e), runner.attempts_made()),
            }
        }
        (Err(MetaError::TxnRetryExceeded), runner.attempts_made())
    }
}

fn ctx() -> ReqContext {
    ReqContext { uid: 0, gid: 0, pid: 1 }
}

fn create(parent: u64, name: &str, node_type: NodeType) -> CreateParam {
    CreateParam {
        parent,
        name: name.as_bytes().to_vec(),
        mode: 0o755,
        rdev: 0,
        uid: 0,
        gid: 0,
        node_type,
        link: None,
    }
}

fn mounted() -> (S3MetaData, Kv) {
    let m = S3MetaData::new(4096, 0, 0, true).unwrap();
    let mut kv = Kv::new();
    assert_eq!(kv.request(|t| m.init_root(t, NOW)), (Ok(true), 1));
    (m, kv)
}

fn names(kv: &Kv, ino: u64) -> Vec<(String, u64)> {
    let n = kv.node(ino);
    (0..n.entry_count())
        .map(|i| (String::from_utf8(n.entry_at(i).entry_name().to_vec()).unwrap(), n.entry_at(i).ino()))
        .collect()
}

/// The invariants of the catalog, checked on what the store holds.
fn check_invariants(kv: &Kv) {
    let root = kv.node(1);
    assert_eq!(root.get_type(), FileKind::Dir);
    assert!(!root.is_deferred_deletion());
    for (&ino, bytes) in &kv.records {
        let n = Node::decode(bytes).expect("every record decodes");
        assert_eq!(n.get_ino(), ino);
        assert!(ino < kv.counter.unwrap_or(2));
        if n.get_type() == FileKind::Dir {
            assert_eq!(n.get_attr().size, n.entry_count() as u64);
        } else {
            assert_eq!(n.entry_count(), 0);
        }
        for i in 0..n.entry_count() {
            let e = n.entry_at(i);
            let child = kv.node(e.ino());
            assert_eq!(child.get_parent_ino(), ino);
            assert_eq!(child.get_name(), e.entry_name());
            assert_eq!(child.get_type(), e.entry_type());
            assert!(!child.is_deferred_deletion());
        }
        if ino != 1 && !n.is_deferred_deletion() {
            let parent = kv.node(n.get_parent_ino());
            assert_eq!(parent.get_type(), FileKind::Dir);
            assert_eq!(parent.get_entry(n.get_name()).unwrap().ino(), ino);
        }
        if n.is_deferred_deletion() {
            assert!(n.get_lookup_count() > 0 || n.get_open_count() > 0);
        }
    }
}

#[test]
fn invariants_hold_after_every_request() {
    let (mut m, mut kv) = mounted();
    check_invariants(&kv);
    let script: Vec<CreateParam> = vec![
        create(1, "d", NodeType::Dir),
        create(1, "f", NodeType::File),
        create(2, "x", NodeType::File),
        create(2, "sub", NodeType::Dir),
        create(5, "deep", NodeType::File),
    ];
    for p in &script {
        assert!(kv.request(|t| m.mknod(t, p, NOW)).0.is_ok());
        check_invariants(&kv);
    }
    assert_eq!(kv.request(|t| m.lookup_helper(t, ctx(), 2, b"x")).0.unwrap().attr.ino, 4);
    check_invariants(&kv);
    let h = kv.request(|t| m.open(t, ctx(), 3, 2)).0.unwrap();
    check_invariants(&kv);
    assert_eq!(kv.request(|t| m.write_helper(t, 3, h as u64, 10, 90, 0, NOW)).0, Ok(90));
    check_invariants(&kv);
    let r = RenameParam { old_parent: 2, old_name: b"x".to_vec(), new_parent: 1, new_name: b"f".to_vec(), flags: 0 };
    assert_eq!(kv.request(|t| m.rename(t, ctx(), &r)).0, Ok(()));
    check_invariants(&kv);
    assert!(kv.node(3).is_deferred_deletion());
    assert_eq!(names(&kv, 1), vec![("d".to_string(), 2), ("f".to_string(), 4)]);
    let r = RenameParam {
        old_parent: 1,
        old_name: b"f".to_vec(),
        new_parent: 5,
        new_name: b"deep".to_vec(),
        flags: RENAME_EXCHANGE,
    };
    assert_eq!(kv.request(|t| m.rename(t, ctx(), &r)).0, Ok(()));
    check_invariants(&kv);
    assert_eq!(kv.request(|t| m.forget(t, 3, 1)).0, Ok(()));
    check_invariants(&kv);
    assert!(kv.records.contains_key(&3));
    assert_eq!(kv.request(|t| m.release(t, 3, h as u64, false)).0, Ok(()));
    check_invariants(&kv);
    assert!(!kv.records.contains_key(&3));
    assert_eq!(kv.request(|t| m.unlink(t, ctx(), 5, b"deep")).0, Ok(()));
    check_invariants(&kv);
    assert_eq!(kv.request(|t| m.rmdir(t, ctx(), 2, b"sub")).0, Ok(()));
    check_invariants(&kv);
    assert_eq!(kv.request(|t| m.rmdir(t, ctx(), 1, b"d")).0, Ok(()));
    check_invariants(&kv);
    for ino in [2, 4, 5, 6] {
        assert_eq!(kv.request(|t| m.forget(t, ino, 1)).0, Ok(()));
        check_invariants(&kv);
    }
    assert_eq!(names(&kv, 1), vec![("f".to_string(), 6)]);
    // inode 4 was looked up once more than it was forgotten
    assert!(kv.records.keys().copied().eq([1, 4, 6]));
    assert_eq!(kv.request(|t| m.forget(t, 4, 1)).0, Ok(()));
    check_invariants(&kv);
    assert!(kv.records.keys().copied().eq([1, 6]));
    // numbers are not handed out twice
    assert_eq!(kv.request(|t| m.mknod(t, &create(1, "again", NodeType::File), NOW)).0.unwrap().attr.ino, 7);
    check_invariants(&kv);
}

#[test]
fn concurrent_creations_of_different_names_both_succeed() {
    let (m, mut kv) = mounted();
    let (p1, p2) = (create(1, "n1", NodeType::File), create(1, "n2", NodeType::File));
    let mut a = kv.begin();
    let mut b = kv.begin();
    let ra = kv.drive(&mut a, &mut |t| m.mknod(t, &p1, NOW)).unwrap();
    let rb = kv.drive(&mut b, &mut |t| m.mknod(t, &p2, NOW)).unwrap();
    assert_eq!((ra.attr.ino, rb.attr.ino), (2, 3));
    assert_eq!(kv.commit(a), CommitOutcome::Committed);
    // the second transaction read the directory before the first changed it
    let mut runner = TxnRunner::new();
    assert!(runner.start_attempt());
    assert_eq!(runner.on_commit(kv.commit(b)), Verdict::Retry);
    assert_eq!(names(&kv, 1), vec![("n1".to_string(), 2)]);
    assert!(runner.start_attempt());
    let mut b = kv.begin();
    let rb = kv.drive(&mut b, &mut |t| m.mknod(t, &p2, NOW)).unwrap();
    assert_eq!(runner.on_commit(kv.commit(b)), Verdict::Success);
    assert_eq!(names(&kv, 1), vec![("n1".to_string(), 2), ("n2".to_string(), rb.attr.ino)]);
    check_invariants(&kv);
}

#[test]
fn concurrent_creations_of_one_name_give_one_success_and_one_eexist() {
    let (m, mut kv) = mounted();
    let p = create(1, "n", NodeType::File);
    let mut a = kv.begin();
    let mut b = kv.begin();
    assert!(kv.drive(&mut a, &mut |t| m.mknod(t, &p, NOW)).is_ok());
    assert!(kv.drive(&mut b, &mut |t| m.mknod(t, &p, NOW)).is_ok());
    assert_eq!(kv.commit(b), CommitOutcome::Committed);
    assert_eq!(kv.commit(a), CommitOutcome::Conflict);
    let mut a = kv.begin();
    assert_eq!(
        kv.drive(&mut a, &mut |t| m.mknod(t, &p, NOW)).err(),
        Some(MetaError::Posix(Errno::EEXIST))
    );
    assert_eq!(names(&kv, 1), vec![("n".to_string(), 3)]);
    check_invariants(&kv);
}

#[test]
fn requests_get_through_conflicts_at_every_other_commit() {
    let (m, mut kv) = mounted();
    kv.inject = (0..64).map(|i| i % 2 == 0).collect();
    kv.commits = 0;
    for i in 0..10 {
        let p = create(1, &format!("f{i}"), NodeType::File);
        let (r, attempts) = kv.request(|t| m.mknod(t, &p, NOW));
        assert!(r.is_ok());
        assert_eq!(attempts, 2);
        check_invariants(&kv);
    }
    assert_eq!(kv.node(1).entry_count(), 10);
    // every attempt that met a conflict took an inode number with it
    assert_eq!(kv.counter, Some(22));
}

#[test]
fn a_request_gives_up_after_five_conflicts() {
    let (m, mut kv) = mounted();
    let before = kv.records.clone();
    kv.inject = vec![true, true, true, true, true, false];
    kv.commits = 0;
    let p = create(1, "f", NodeType::File);
    let (r, attempts) = kv.request(|t| m.mknod(t, &p, NOW));
    assert_eq!((r.err(), attempts), (Some(MetaError::TxnRetryExceeded), 5));
    assert_eq!(MetaError::TxnRetryExceeded.errno(), Errno::EIO);
    assert_eq!(kv.records, before);
    kv.inject = vec![true, true, true, true, false];
    kv.commits = 0;
    let (r, attempts) = kv.request(|t| m.mknod(t, &p, NOW));
    assert_eq!((r.is_ok(), attempts), (true, 5));
    // a handler that fails is not attempted again
    let (r, attempts) = kv.request(|t| m.mknod(t, &p, NOW));
    assert_eq!((r.err(), attempts), (Some(MetaError::Posix(Errno::EEXIST)), 1));
}

#[test]
fn creation_and_removal_leave_the_bytes_of_the_store_as_they_were() {
    let (m, mut kv) = mounted();
    assert!(kv.request(|t| m.mknod(t, &create(1, "keep", NodeType::Dir), NOW)).0.is_ok());
    let before = kv.records.clone();
    let ino = kv.request(|t| m.mknod(t, &create(1, "tmp", NodeType::File), NOW)).0.unwrap().attr.ino;
    assert_eq!(kv.request(|t| m.unlink(t, ctx(), 1, b"tmp")).0, Ok(()));
    let mut without = kv.records.clone();
    assert!(without.remove(&ino).is_some());
    assert_eq!(without, before);
    assert_eq!(kv.request(|t| m.forget(t, ino, 1)).0, Ok(()));
    assert_eq!(kv.records, before);
}

#[test]
fn a_record_that_does_not_decode_is_an_inconsistency() {
    let (m, mut kv) = mounted();
    assert!(kv.request(|t| m.mknod(t, &create(1, "f", NodeType::File), NOW)).0.is_ok());
    let good = kv.records.get(&2).unwrap().clone();
    kv.records.insert(2, good[..good.len() - 1].to_vec());
    assert_eq!(kv.request(|t| m.getattr(t, 2)).0, Err(MetaError::InconsistentFS { ino: 2 }));
    assert_eq!(
        kv.request(|t| m.lookup_helper(t, ctx(), 1, b"f")).0,
        Err(MetaError::InconsistentFS { ino: 2 })
    );
    let mut txn = MetaTxn::new();
    assert_eq!(txn.load_bytes(2, Some(&good[..5])), Err(MetaError::InconsistentFS { ino: 2 }));
    assert!(!txn.knows(2));
    assert_eq!(txn.load_bytes(2, Some(&good)), Ok(()));
    assert_eq!(txn.load_bytes(9, None), Ok(()));
    assert!(txn.knows(2) && txn.knows(9));
    assert!(txn.encoded_writes().is_empty());
    txn.delete(9);
    txn.set(3, Node::decode(&good).unwrap());
    let w = txn.encoded_writes();
    assert_eq!(w.len(), 2);
    assert_eq!((w[0].key, &w[0].value), (9, &None));
    assert_eq!((w[1].key, &w[1].value), (3, &Some(good)));
}

#[test]
fn object_keys_are_sixteen_hexadecimal_digits() {
    assert_eq!(object_key(0), b"0000000000000000".to_vec());
    assert_eq!(object_key(0x2a), b"000000000000002a".to_vec());
    assert_eq!(object_key(0x0123_4567_89ab_cdef), b"0123456789abcdef".to_vec());
    assert_eq!(object_key(u64::MAX), b"ffffffffffffffff".to_vec());
    assert_eq!(object_key(10), format!("{:016x}", 10).into_bytes());
}
