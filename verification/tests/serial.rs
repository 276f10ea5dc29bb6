//! The serial form of inode records.

use metacore::attr::{FileKind, NodeType, Timestamp};
use metacore::dir::DirEntry;
use metacore::node::{CreateParam, Node};

const T0: Timestamp = Timestamp { secs: 0x0102_0304_0506_0708, nanos: 999_999_999 };

fn le(x: u64) -> Vec<u8> {
    x.to_le_bytes().to_vec()
}

fn sample_dir() -> Node {
    let mut dir = Node::open_root_node(501, 20, T0);
    dir.insert_entry_for_rename(DirEntry::new(b"b".to_vec(), 7, FileKind::File));
    dir.insert_entry_for_rename(DirEntry::new(b"a".to_vec(), 8, FileKind::Dir));
    dir.insert_entry_for_rename(DirEntry::new(b"link".to_vec(), 9, FileKind::Symlink));
    dir.lookup_attr();
    dir.inc_open_count();
    dir.inc_open_count();
    dir
}

fn sample_symlink() -> Node {
    let mut dir = Node::open_root_node(0, 0, T0);
    let p = CreateParam {
        parent: 1,
        name: b"l".to_vec(),
        mode: 0o120777,
        rdev: 3,
        uid: 4,
        gid: 5,
        node_type: NodeType::Symlink,
        link: Some(b"../target".to_vec()),
    };
    let mut n = dir.create_child_node(&p, 77, T0).unwrap();
    n.mark_deferred_deletion();
    n
}

fn same(a: &Node, b: &Node) {
    assert_eq!(format!("{:?}", a), format!("{:?}", b));
}

#[test]
fn root_record_bytes() {
    let root = Node::open_root_node(501, 20, Timestamp { secs: 5, nanos: 6 });
    let bytes = root.encode();
    let mut expected = Vec::new();
    for w in [1u64, 1, 0, 5, 6, 5, 6, 5, 6, 1, 0o755, 2, 501, 20, 0, 1, 0, 0, 0] {
        expected.extend(le(w));
    }
    // the name "/"
    expected.extend(le(1));
    expected.push(b'/');
    // no target, no entries
    expected.extend(le(0));
    expected.extend(le(0));
    assert_eq!(bytes, expected);
    assert_eq!(bytes.len(), 19 * 8 + 9 + 8 + 8);
}

#[test]
fn entries_are_written_in_name_order() {
    let bytes = sample_dir().encode();
    let mut tail = Vec::new();
    tail.extend(le(3));
    for (name, ino, kind) in [("a", 8u64, 1u64), ("b", 7, 0), ("link", 9, 2)] {
        tail.extend(le(name.len() as u64));
        tail.extend(name.as_bytes());
        tail.extend(le(ino));
        tail.extend(le(kind));
    }
    assert!(bytes.ends_with(&tail));
    // the size of a directory is the number of its entries
    assert_eq!(&bytes[16..24], &le(3)[..]);
    // one lookup, two opens, not unlinked
    assert_eq!(&bytes[16 * 8..19 * 8], &[le(2), le(1), le(0)].concat()[..]);
}

#[test]
fn decode_inverts_encode() {
    for n in [Node::open_root_node(1, 2, T0), sample_dir(), sample_symlink()] {
        let bytes = n.encode();
        let back = Node::decode(&bytes).unwrap();
        same(&n, &back);
        assert_eq!(back.encode(), bytes);
    }
    let link = Node::decode(&sample_symlink().encode()).unwrap();
    assert_eq!(link.get_symlink_target(), b"../target");
    assert!(link.is_deferred_deletion());
    assert_eq!(link.get_attr().perm, 0o777);
    assert_eq!(link.get_attr().size, 9);
    assert_eq!(link.get_attr().atime, T0);
    assert_eq!((link.get_ino(), link.get_parent_ino(), link.get_lookup_count()), (77, 1, 1));
}

#[test]
fn decode_refuses_what_is_no_record() {
    let good = sample_dir().encode();
    assert!(Node::decode(&good).is_some());
    assert!(Node::decode(&[]).is_none());
    for cut in [1, 8, 19 * 8, good.len() - 1] {
        assert!(Node::decode(&good[..cut]).is_none());
    }
    let mut trailing = good.clone();
    trailing.push(0);
    assert!(Node::decode(&trailing).is_none());
    let patched = |word: usize, value: u64| {
        let mut b = good.clone();
        b[word * 8..word * 8 + 8].copy_from_slice(&value.to_le_bytes());
        b
    };
    // another version
    assert!(Node::decode(&patched(0, 2)).is_none());
    // nanoseconds, kind, permission bits, link count, and the unlinked flag out of range
    assert!(Node::decode(&patched(4, 1 << 32)).is_none());
    assert!(Node::decode(&patched(9, 3)).is_none());
    assert!(Node::decode(&patched(10, 1 << 16)).is_none());
    assert!(Node::decode(&patched(11, 1 << 32)).is_none());
    assert!(Node::decode(&patched(18, 2)).is_none());
    // a directory whose size is not the number of its entries
    assert!(Node::decode(&patched(2, 4)).is_none());
    // a file with entries
    assert!(Node::decode(&patched(9, 0)).is_none());
    // values that only change what the record says
    assert_eq!(Node::decode(&patched(1, 99)).unwrap().get_ino(), 99);
    assert!(Node::decode(&patched(18, 1)).unwrap().is_deferred_deletion());
}

#[test]
fn decode_refuses_entries_out_of_order() {
    let mut dir = Node::open_root_node(0, 0, T0);
    dir.insert_entry_for_rename(DirEntry::new(b"a".to_vec(), 2, FileKind::File));
    dir.insert_entry_for_rename(DirEntry::new(b"b".to_vec(), 3, FileKind::File));
    let good = dir.encode();
    let n = good.len();
    // each entry takes 8 + 1 + 8 + 8 bytes: swap the two names
    let mut swapped = good.clone();
    swapped[n - 50 + 8] = b'b';
    swapped[n - 25 + 8] = b'a';
    assert!(Node::decode(&good).is_some());
    assert!(Node::decode(&swapped).is_none());
    // the same name twice
    let mut twice = good.clone();
    twice[n - 25 + 8] = b'a';
    assert!(Node::decode(&twice).is_none());
    // an entry of a kind that does not exist
    let mut kind = good.clone();
    kind[n - 8] = 3;
    assert!(Node::decode(&kind).is_none());
    // fewer entries than announced
    let mut count = good.clone();
    count[n - 50 - 8] = 3;
    assert!(Node::decode(&count).is_none());
}
