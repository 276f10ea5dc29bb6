//! The parts of the metadata layer, each on its own.

use metacore::attr::{
    check_name_length, check_type_supported, convert_to_fuse_attr, parse_oflag, AccessMode, FileAttr,
    FileKind, NodeType, OpenFlags, ReqContext, Timestamp,
};
use metacore::dir::{DirData, DirEntry};
use metacore::error::{Errno, MetaError};
use metacore::inum::{INumAllocator, InumGrant};
use metacore::meta::S3MetaData;
use metacore::name::{name_eq, name_order, name_to_vec, NameOrder};
use metacore::node::{parse_mode_bits, CreateParam, Node, SetAttrParam};
use metacore::retry::{CommitOutcome, TxnRunner, Verdict};
use metacore::txn::{Effect, Fetched, MetaTxn, Step};

const T0: Timestamp = Timestamp { secs: 100, nanos: 200 };

fn attr(perm: u16, uid: u32, gid: u32) -> FileAttr {
    FileAttr {
        ino: 9,
        size: 3,
        atime: Timestamp { secs: 1, nanos: 2 },
        mtime: Timestamp { secs: 3, nanos: 4 },
        ctime: Timestamp { secs: 5, nanos: 6 },
        kind: FileKind::File,
        perm,
        nlink: 1,
        uid,
        gid,
        rdev: 11,
    }
}

fn eacces() -> Result<(), MetaError> {
    Err(MetaError::Posix(Errno::EACCES))
}

#[test]
fn names_order_by_bytes() {
    assert_eq!(name_order(b"a", b"b"), NameOrder::Less);
    assert_eq!(name_order(b"b", b"a"), NameOrder::Greater);
    assert_eq!(name_order(b"a", b"a"), NameOrder::Equal);
    assert_eq!(name_order(b"", b""), NameOrder::Equal);
    assert_eq!(name_order(b"", b"a"), NameOrder::Less);
    assert_eq!(name_order(b"a", b"ab"), NameOrder::Less);
    assert_eq!(name_order(b"ab", b"a"), NameOrder::Greater);
    assert_eq!(name_order(b"ab", b"b"), NameOrder::Less);
    assert_eq!(name_order(b"Z", b"a"), NameOrder::Less);
    assert_eq!(name_order(&[0xff], &[0x7f, 0xff]), NameOrder::Greater);
    assert!(name_eq(b"abc", b"abc"));
    assert!(!name_eq(b"abc", b"abd"));
    assert!(!name_eq(b"abc", b"ab"));
    assert_eq!(name_to_vec(b"xyz"), b"xyz".to_vec());
}

#[test]
fn name_order_agrees_with_the_order_of_strings() {
    let names = ["", "a", "ab", "abc", "b", "ba", "A", "zz", "z", "\u{e9}", "a\u{0}"];
    for a in names {
        for b in names {
            let expected = match a.cmp(b) {
                std::cmp::Ordering::Less => NameOrder::Less,
                std::cmp::Ordering::Equal => NameOrder::Equal,
                std::cmp::Ordering::Greater => NameOrder::Greater,
            };
            assert_eq!(name_order(a.as_bytes(), b.as_bytes()), expected);
        }
    }
}

fn names_of(d: &DirData) -> Vec<(Vec<u8>, u64)> {
    (0..d.len()).map(|i| (d.entry(i).entry_name().to_vec(), d.entry(i).ino())).collect()
}

#[test]
fn directory_keeps_its_entries_sorted_and_unique() {
    let mut d = DirData::new();
    assert!(d.is_empty());
    assert!(d.insert(DirEntry::new(b"m".to_vec(), 1, FileKind::File)).is_none());
    assert!(d.insert(DirEntry::new(b"a".to_vec(), 2, FileKind::Dir)).is_none());
    assert!(d.insert(DirEntry::new(b"z".to_vec(), 3, FileKind::Symlink)).is_none());
    assert!(d.insert(DirEntry::new(b"mm".to_vec(), 4, FileKind::File)).is_none());
    assert_eq!(
        names_of(&d),
        vec![(b"a".to_vec(), 2), (b"m".to_vec(), 1), (b"mm".to_vec(), 4), (b"z".to_vec(), 3)]
    );
    assert_eq!(d.len(), 4);
    let prev = d.insert(DirEntry::new(b"m".to_vec(), 5, FileKind::Dir)).unwrap();
    assert_eq!((prev.ino(), prev.entry_type()), (1, FileKind::File));
    assert_eq!(d.len(), 4);
    let e = d.get(b"m").unwrap();
    assert_eq!((e.entry_name(), e.ino(), e.entry_type()), (&b"m"[..], 5, FileKind::Dir));
    assert!(d.get(b"q").is_none());
    assert!(d.remove(b"q").is_none());
    assert_eq!(d.remove(b"a").unwrap().ino(), 2);
    assert_eq!(names_of(&d), vec![(b"m".to_vec(), 5), (b"mm".to_vec(), 4), (b"z".to_vec(), 3)]);
    let c = d.clone_dir();
    assert_eq!(names_of(&c), names_of(&d));
    assert_eq!(d.entry(2).clone_entry().entry_name(), b"z");
}

#[test]
fn check_perm_has_three_classes() {
    let a = attr(0o754, 10, 20);
    // the owner
    assert_eq!(a.check_perm(true, 10, 99, 7), Ok(()));
    assert_eq!(a.check_perm(true, 10, 99, 4), Ok(()));
    // the group
    assert_eq!(a.check_perm(true, 11, 20, 5), Ok(()));
    assert_eq!(a.check_perm(true, 11, 20, 4), Ok(()));
    assert_eq!(a.check_perm(true, 11, 20, 2), eacces());
    assert_eq!(a.check_perm(true, 11, 20, 7), eacces());
    // the others
    assert_eq!(a.check_perm(true, 11, 21, 4), Ok(()));
    assert_eq!(a.check_perm(true, 11, 21, 1), eacces());
    assert_eq!(a.check_perm(true, 11, 21, 5), eacces());
    // the owner's class counts for the owner even where the group has more
    let b = attr(0o070, 10, 20);
    assert_eq!(b.check_perm(true, 10, 20, 4), eacces());
    assert_eq!(b.check_perm(true, 11, 20, 7), Ok(()));
    // root is judged like any other user
    assert_eq!(b.check_perm(true, 0, 0, 1), eacces());
    assert_eq!(a.check_perm(true, 11, 21, 0), Ok(()));
    // with the checks switched off everything is granted
    assert_eq!(b.check_perm(false, 0, 0, 7), Ok(()));
}

#[test]
fn sticky_bit_rule() {
    let m = S3MetaData::new(1, 0, 0, true).unwrap();
    let mut parent = Node::open_root_node(50, 0, T0);
    let child_of = |uid: u32| {
        let mut dir = Node::open_root_node(0, 0, T0);
        let p = CreateParam {
            parent: 1,
            name: b"c".to_vec(),
            mode: 0o644,
            rdev: 0,
            uid,
            gid: 0,
            node_type: NodeType::File,
            link: None,
        };
        dir.create_child_node(&p, 2, T0).unwrap()
    };
    let ctx = |uid: u32| ReqContext { uid, gid: 0, pid: 0 };
    // no sticky bit: anybody
    assert_eq!(m.check_sticky_bit(&ctx(7), &parent, &child_of(8)), Ok(()));
    let mut a = parent.get_attr();
    a.perm = 0o1777;
    parent.set_attr(a);
    assert_eq!(m.check_sticky_bit(&ctx(7), &parent, &child_of(8)), eacces());
    assert_eq!(m.check_sticky_bit(&ctx(0), &parent, &child_of(8)), Ok(()));
    assert_eq!(m.check_sticky_bit(&ctx(50), &parent, &child_of(8)), Ok(()));
    assert_eq!(m.check_sticky_bit(&ctx(8), &parent, &child_of(8)), Ok(()));
    let lenient = S3MetaData::new(1, 0, 0, false).unwrap();
    assert_eq!(lenient.check_sticky_bit(&ctx(7), &parent, &child_of(8)), Ok(()));
}

#[test]
fn open_flags() {
    let f = |access, trunc, execute| OpenFlags { access, trunc, execute };
    assert_eq!(parse_oflag(0), f(AccessMode::ReadOnly, false, false));
    assert_eq!(parse_oflag(1), f(AccessMode::WriteOnly, false, false));
    assert_eq!(parse_oflag(2), f(AccessMode::ReadWrite, false, false));
    assert_eq!(parse_oflag(3), f(AccessMode::Invalid, false, false));
    assert_eq!(parse_oflag(0o1001), f(AccessMode::WriteOnly, true, false));
    assert_eq!(parse_oflag(0x20), f(AccessMode::ReadOnly, false, true));
    assert_eq!(parse_oflag(0o100 | 2), f(AccessMode::ReadWrite, false, false));
    let a = attr(0o510, 10, 20);
    assert_eq!(a.open_pre_check(true, parse_oflag(0), 10, 20), Ok(()));
    assert_eq!(a.open_pre_check(true, parse_oflag(0x20), 10, 20), Ok(()));
    assert_eq!(a.open_pre_check(true, parse_oflag(1), 10, 20), eacces());
    assert_eq!(a.open_pre_check(true, parse_oflag(2), 10, 20), eacces());
    assert_eq!(a.open_pre_check(true, parse_oflag(0), 11, 20), eacces());
    assert_eq!(a.open_pre_check(true, parse_oflag(0x20), 11, 20), Ok(()));
    assert_eq!(a.open_pre_check(true, parse_oflag(0o1000), 10, 20), eacces());
    assert_eq!(a.open_pre_check(false, parse_oflag(0o1000), 10, 20), eacces());
    assert_eq!(a.open_pre_check(false, parse_oflag(3), 10, 20), Err(MetaError::Posix(Errno::EINVAL)));
    assert_eq!(a.open_pre_check(false, parse_oflag(1), 11, 21), Ok(()));
}

#[test]
fn fuse_attr_layout() {
    let f = convert_to_fuse_attr(attr(0o4755, 10, 20));
    assert_eq!((f.ino, f.size, f.nlink, f.uid, f.gid, f.rdev), (9, 3, 1, 10, 20, 11));
    assert_eq!((f.atime, f.atimensec, f.mtime, f.mtimensec, f.ctime, f.ctimensec), (1, 2, 3, 4, 5, 6));
    assert_eq!(f.mode, 0o104755);
    let mut d = attr(0o755, 0, 0);
    d.kind = FileKind::Dir;
    assert_eq!(convert_to_fuse_attr(d).mode, 0o040755);
    d.kind = FileKind::Symlink;
    assert_eq!(convert_to_fuse_attr(d).mode, 0o120755);
    assert_eq!(parse_mode_bits(0o100644), 0o644);
    assert_eq!(parse_mode_bits(0o41777), 0o1777);
    assert_eq!(parse_mode_bits(u32::MAX), 0o7777);
}

#[test]
fn names_and_types_at_creation() {
    assert_eq!(check_name_length(&[b'a'; 255]), Ok(()));
    assert_eq!(check_name_length(&[b'a'; 256]), Err(MetaError::Posix(Errno::ENAMETOOLONG)));
    assert_eq!(check_name_length(b""), Ok(()));
    assert_eq!(check_type_supported(NodeType::File), Ok(FileKind::File));
    assert_eq!(check_type_supported(NodeType::Dir), Ok(FileKind::Dir));
    assert_eq!(check_type_supported(NodeType::Symlink), Ok(FileKind::Symlink));
    assert_eq!(check_type_supported(NodeType::Fifo), Err(MetaError::Unsupported));
    assert_eq!(MetaError::Unsupported.errno(), Errno::ENOSYS);
}

#[test]
fn errors_map_to_errno() {
    assert_eq!(MetaError::Posix(Errno::ENOENT).errno(), Errno::ENOENT);
    assert_eq!(MetaError::Posix(Errno::ENOTEMPTY).errno(), Errno::ENOTEMPTY);
    assert_eq!(MetaError::InconsistentFS { ino: 3 }.errno(), Errno::EIO);
    assert_eq!(MetaError::TxnRetryExceeded.errno(), Errno::EIO);
    assert_eq!(MetaError::Backend.errno(), Errno::EIO);
    assert_eq!(MetaError::Unsupported.errno(), Errno::ENOSYS);
    assert_eq!(MetaError::Config.errno(), Errno::EINVAL);
    assert_eq!(MetaError::Posix(Errno::ENOSPC).errno(), Errno::ENOSPC);
}

#[test]
fn allocator_hands_out_rising_numbers_from_two() {
    let a = INumAllocator::new();
    assert_eq!(a.alloc_inum_for_fnode(None), Ok(InumGrant { ino: 2, next: 3 }));
    assert_eq!(a.alloc_inum_for_fnode(Some(0)), Ok(InumGrant { ino: 2, next: 3 }));
    assert_eq!(a.alloc_inum_for_fnode(Some(1)), Ok(InumGrant { ino: 2, next: 3 }));
    assert_eq!(a.alloc_inum_for_fnode(Some(2)), Ok(InumGrant { ino: 2, next: 3 }));
    assert_eq!(a.alloc_inum_for_fnode(Some(3)), Ok(InumGrant { ino: 3, next: 4 }));
    assert_eq!(
        a.alloc_inum_for_fnode(Some(u64::MAX - 1)),
        Ok(InumGrant { ino: u64::MAX - 1, next: u64::MAX })
    );
    assert_eq!(a.alloc_inum_for_fnode(Some(u64::MAX)), Err(MetaError::Posix(Errno::ENOSPC)));
    let m = S3MetaData::new(1, 0, 0, true).unwrap();
    let mut stored = None;
    let mut last = 1;
    for _ in 0..100 {
        let g = m.alloc_inum(stored).unwrap();
        assert!(g.ino > last);
        last = g.ino;
        stored = Some(g.next);
    }
    assert_eq!(last, 101);
}

#[test]
fn runner_gives_five_attempts() {
    let (committed, conflict) = (CommitOutcome::Committed, CommitOutcome::Conflict);
    let failed = CommitOutcome::Failed(MetaError::Backend);
    assert_eq!(TxnRunner::run_recorded(&[committed]), Ok(1));
    assert_eq!(TxnRunner::run_recorded(&[conflict, committed]), Ok(2));
    assert_eq!(TxnRunner::run_recorded(&[conflict, conflict, conflict, conflict, committed]), Ok(5));
    assert_eq!(
        TxnRunner::run_recorded(&[conflict, conflict, conflict, conflict, conflict, committed]),
        Err(MetaError::TxnRetryExceeded)
    );
    assert_eq!(TxnRunner::run_recorded(&[]), Err(MetaError::TxnRetryExceeded));
    assert_eq!(TxnRunner::run_recorded(&[failed, committed]), Err(MetaError::Backend));
    assert_eq!(TxnRunner::run_recorded(&[conflict, failed, committed]), Err(MetaError::Backend));
    assert_eq!(MetaError::TxnRetryExceeded.errno(), Errno::EIO);
}

#[test]
fn runner_under_conflicts_at_every_other_commit() {
    // every pattern of conflicts over five commits: the request succeeds at
    // the first commit without one
    for pattern in 0u32..32 {
        let outcomes: Vec<CommitOutcome> = (0..5)
            .map(|i| if pattern & (1 << i) != 0 { CommitOutcome::Conflict } else { CommitOutcome::Committed })
            .collect();
        let first = (0..5).find(|i| pattern & (1 << i) == 0);
        let expected = match first {
            Some(i) => Ok(i + 1),
            None => Err(MetaError::TxnRetryExceeded),
        };
        assert_eq!(TxnRunner::run_recorded(&outcomes), expected);
    }
}

#[test]
fn runner_step_by_step() {
    let mut r = TxnRunner::new();
    assert_eq!(r.attempts_made(), 0);
    for i in 1..=4 {
        assert!(r.start_attempt());
        assert_eq!(r.attempts_made(), i);
        assert_eq!(r.on_commit(CommitOutcome::Conflict), Verdict::Retry);
    }
    assert!(r.start_attempt());
    assert_eq!(r.on_commit(CommitOutcome::Committed), Verdict::Success);
    assert_eq!(r.on_commit(CommitOutcome::Failed(MetaError::Backend)), Verdict::Failure(MetaError::Backend));
    assert_eq!(r.on_commit(CommitOutcome::Conflict), Verdict::Failure(MetaError::TxnRetryExceeded));
    assert!(!r.start_attempt());
    assert_eq!(r.attempts_made(), 5);
}

#[test]
fn metadata_layer_starts_at_handle_four() {
    let m = S3MetaData::new(10_485_760, 1, 2, true).unwrap();
    assert_eq!(m.cur_fd(), 4);
    assert_eq!(m.fuse_fd(), -1);
    assert_eq!(m.block_size(), 10_485_760);
    assert_eq!((m.root_uid(), m.root_gid()), (1, 2));
    assert!(m.need_check_perm());
    assert_eq!(S3MetaData::new(0, 0, 0, true).err(), Some(MetaError::Config));
    assert_eq!(S3MetaData::new(-1, 0, 0, true).err(), Some(MetaError::Config));
}

#[test]
fn node_counts_saturate() {
    let mut n = Node::open_root_node(0, 0, T0);
    assert_eq!(n.lookup_attr().ino, 1);
    assert_eq!(n.get_lookup_count(), 1);
    n.dec_lookup_count_by(u64::MAX);
    assert_eq!(n.get_lookup_count(), 0);
    n.dec_open_count();
    assert_eq!(n.get_open_count(), 0);
    n.inc_open_count();
    n.inc_open_count();
    n.dec_open_count();
    assert_eq!(n.get_open_count(), 1);
    let m = S3MetaData::new(1, 0, 0, true).unwrap();
    assert!(!m.delete_check(&n));
    n.dec_open_count();
    assert!(m.delete_check(&n));
    assert!(!n.is_deferred_deletion());
    n.mark_deferred_deletion();
    assert!(n.is_deferred_deletion());
    n.inc_open_count();
    let (deferred, parent, name) = S3MetaData::deferred_delete_pre_check(&n);
    assert_eq!((deferred, parent, name.as_slice()), (true, 1, &b"/"[..]));
}

#[test]
fn node_entries_and_moves() {
    let mut dir = Node::open_root_node(0, 0, T0);
    assert_eq!(dir.check_name_availability(b"a"), Ok(()));
    assert!(dir.insert_entry_for_rename(DirEntry::new(b"a".to_vec(), 5, FileKind::File)).is_none());
    assert_eq!(dir.check_name_availability(b"a"), Err(MetaError::Posix(Errno::EEXIST)));
    assert_eq!(dir.get_attr().size, 1);
    assert_eq!(dir.entry_count(), 1);
    assert_eq!(dir.entry_at(0).ino(), 5);
    assert!(!dir.is_node_data_empty());
    assert!(dir.unlink_entry(b"b").is_none());
    assert_eq!(dir.remove_entry_for_rename(b"a").unwrap().ino(), 5);
    assert_eq!(dir.get_attr().size, 0);
    dir.set_parent_ino(7);
    dir.set_name(b"moved");
    assert_eq!((dir.get_parent_ino(), dir.get_name()), (7, &b"moved"[..]));
    dir.record_write(10, Timestamp { secs: 1, nanos: 1 });
    assert_eq!(dir.get_attr().size, 10);
    dir.record_write(4, T0);
    assert_eq!((dir.get_attr().size, dir.get_attr().mtime), (10, T0));
    assert!(dir.get_symlink_target().is_empty());
    let none = SetAttrParam { mode: None, uid: None, gid: None, size: None, atime: None, mtime: None };
    assert_eq!(dir.setattr_precheck(true, &none, 3, 3, T0), Ok((false, dir.get_attr())));
}

#[test]
fn transaction_reads_its_own_writes() {
    let mut t = MetaTxn::new();
    assert!(matches!(t.get(1), Fetched::Unread));
    t.load(1, None);
    assert!(matches!(t.get(1), Fetched::Absent));
    assert!(t.writes().is_empty());
    t.set(1, Node::open_root_node(0, 0, T0));
    assert!(matches!(t.get(1), Fetched::Present(_)));
    t.delete(1);
    assert!(matches!(t.get(1), Fetched::Absent));
    t.emit(Effect::DeleteObject { ino: 4 });
    t.emit(Effect::NotifyDelete { fuse_fd: 3, parent: 1, ino: 2, name: b"n".to_vec() });
    let e = t.effects();
    assert!(matches!(e[0], Effect::DeleteObject { ino: 4 }));
    assert!(matches!(&e[1], Effect::NotifyDelete { fuse_fd: 3, parent: 1, ino: 2, name } if name == b"n"));
    assert_eq!(t.take_inum(), None);
    t.supply_inum(6);
    assert_eq!(t.take_inum(), Some(6));
    assert_eq!(t.inum(), None);
    let s: Step<u8> = Step::Done(Ok(3));
    assert_eq!(s.into_value::<u16>(), Ok(3));
    let s: Step<u8> = Step::Need(4);
    assert_eq!(s.into_value::<u16>(), Err(Step::Need(4)));
    let s: Step<u8> = Step::NeedInum;
    assert_eq!(s.into_value::<u16>(), Err(Step::NeedInum));
    let s: Step<u8> = Step::Done(Err(MetaError::Backend));
    assert_eq!(s.into_value::<u16>(), Err(Step::Done(Err(MetaError::Backend))));
}
