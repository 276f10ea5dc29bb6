//! The serial form of an inode record: the bytes that the key-value store
//! holds under an inode number.
//!
//! A record is a header of nineteen numbers, the name, the target of a
//! symbolic link, the number of directory entries, and the entries in the
//! order of their names. Every number is written as eight bytes, low byte
//! first; a byte string is written as its length and its bytes; an entry is
//! its name, the inode number and the kind. The first number of the header is
//! the version of the form.

use vstd::prelude::*;
use vstd::bytes::{
    lemma_auto_spec_u64_to_from_le_bytes, spec_u64_from_le_bytes, spec_u64_to_le_bytes,
    u64_from_le_bytes, u64_to_le_bytes,
};
use vstd::slice::slice_subrange;
use crate::attr::{FileAttr, FileKind, Timestamp};
use crate::dir::{entries_view, DirData, DirEntry, DirEntryView};
use crate::name::name_to_vec;
use crate::node::{node_wf, Node, NodeView};

verus! {

/// The version of the serial form.
pub const SERIAL_VERSION: u64 = 1;

/// The number of numbers in the header of a record.
pub const HEADER_WORDS: usize = 19;

/// The bytes of a number.
pub open spec fn enc_u64(x: u64) -> Seq<u8> {
    spec_u64_to_le_bytes(x)
}

/// The number at the head of `s`, and what follows it.
pub open spec fn dec_u64(s: Seq<u8>) -> Option<(u64, Seq<u8>)> {
    if s.len() >= 8 {
        Some((spec_u64_from_le_bytes(s.take(8)), s.skip(8)))
    } else {
        None
    }
}

/// The bytes of a row of numbers.
pub open spec fn enc_words(ws: Seq<u64>) -> Seq<u8>
    decreases ws.len(),
{
    if ws.len() == 0 {
        Seq::empty()
    } else {
        enc_u64(ws[0]) + enc_words(ws.skip(1))
    }
}

/// The `k` numbers at the head of `s`, and what follows them.
pub open spec fn dec_words(s: Seq<u8>, k: nat) -> Option<(Seq<u64>, Seq<u8>)>
    decreases k,
{
    if k == 0 {
        Some((Seq::empty(), s))
    } else {
        match dec_u64(s) {
            None => None,
            Some((w, r)) => match dec_words(r, (k - 1) as nat) {
                None => None,
                Some((ws, r2)) => Some((seq![w] + ws, r2)),
            },
        }
    }
}

/// The bytes of a byte string: its length, then its bytes.
pub open spec fn enc_bytes(b: Seq<u8>) -> Seq<u8> {
    enc_u64(b.len() as u64) + b
}

/// The byte string at the head of `s`, and what follows it.
pub open spec fn dec_bytes(s: Seq<u8>) -> Option<(Seq<u8>, Seq<u8>)> {
    match dec_u64(s) {
        None => None,
        Some((n, r)) => if r.len() >= n {
            Some((r.take(n as int), r.skip(n as int)))
        } else {
            None
        },
    }
}

/// The number that stands for a kind of inode.
pub open spec fn kind_code(k: FileKind) -> u64 {
    match k {
        FileKind::File => 0,
        FileKind::Dir => 1,
        FileKind::Symlink => 2,
    }
}

/// The kind of inode that a number stands for.
pub open spec fn kind_of_code(c: u64) -> FileKind {
    if c == 0 {
        FileKind::File
    } else if c == 1 {
        FileKind::Dir
    } else {
        FileKind::Symlink
    }
}

/// The bytes of a directory entry.
pub open spec fn enc_entry(e: DirEntryView) -> Seq<u8> {
    enc_bytes(e.name) + (enc_u64(e.ino) + enc_u64(kind_code(e.kind)))
}

/// The directory entry at the head of `s`, and what follows it.
pub open spec fn dec_entry(s: Seq<u8>) -> Option<(DirEntryView, Seq<u8>)> {
    match dec_bytes(s) {
        None => None,
        Some((name, r1)) => match dec_u64(r1) {
            None => None,
            Some((ino, r2)) => match dec_u64(r2) {
                None => None,
                Some((code, r3)) => if code <= 2 {
                    Some((DirEntryView { name, ino, kind: kind_of_code(code) }, r3))
                } else {
                    None
                },
            },
        },
    }
}

/// The bytes of a row of directory entries.
pub open spec fn enc_entries(es: Seq<DirEntryView>) -> Seq<u8>
    decreases es.len(),
{
    if es.len() == 0 {
        Seq::empty()
    } else {
        enc_entry(es[0]) + enc_entries(es.skip(1))
    }
}

/// The `k` directory entries at the head of `s`, and what follows them.
pub open spec fn dec_entries(s: Seq<u8>, k: nat) -> Option<(Seq<DirEntryView>, Seq<u8>)>
    decreases k,
{
    if k == 0 {
        Some((Seq::empty(), s))
    } else {
        match dec_entry(s) {
            None => None,
            Some((e, r)) => match dec_entries(r, (k - 1) as nat) {
                None => None,
                Some((es, r2)) => Some((seq![e] + es, r2)),
            },
        }
    }
}

/// The header of a record: the version, the attributes, the parent, the two
/// reference counts, and whether the inode is unlinked.
pub open spec fn header_words(n: NodeView) -> Seq<u64> {
    seq![
        SERIAL_VERSION,
        n.attr.ino,
        n.attr.size,
        n.attr.atime.secs,
        n.attr.atime.nanos as u64,
        n.attr.mtime.secs,
        n.attr.mtime.nanos as u64,
        n.attr.ctime.secs,
        n.attr.ctime.nanos as u64,
        kind_code(n.attr.kind),
        n.attr.perm as u64,
        n.attr.nlink as u64,
        n.attr.uid as u64,
        n.attr.gid as u64,
        n.attr.rdev as u64,
        n.parent,
        n.open_count,
        n.lookup_count,
        if n.deferred_deletion {
            1u64
        } else {
            0u64
        },
    ]
}

/// The numbers are the header of a record of this version: each lies in the
/// range of its field.
pub open spec fn header_ok(ws: Seq<u64>) -> bool {
    &&& ws.len() == HEADER_WORDS
    &&& ws[0] == SERIAL_VERSION
    &&& ws[4] <= u32::MAX
    &&& ws[6] <= u32::MAX
    &&& ws[8] <= u32::MAX
    &&& ws[9] <= 2
    &&& ws[10] <= u16::MAX
    &&& ws[11] <= u32::MAX
    &&& ws[12] <= u32::MAX
    &&& ws[13] <= u32::MAX
    &&& ws[14] <= u32::MAX
    &&& ws[18] <= 1
}

/// The record with the header `ws`, the name, the target and the entries.
pub open spec fn node_of(ws: Seq<u64>, name: Seq<u8>, target: Seq<u8>, entries: Seq<DirEntryView>)
    -> NodeView {
    NodeView {
        attr: FileAttr {
            ino: ws[1],
            size: ws[2],
            atime: Timestamp { secs: ws[3], nanos: ws[4] as u32 },
            mtime: Timestamp { secs: ws[5], nanos: ws[6] as u32 },
            ctime: Timestamp { secs: ws[7], nanos: ws[8] as u32 },
            kind: kind_of_code(ws[9]),
            perm: ws[10] as u16,
            nlink: ws[11] as u32,
            uid: ws[12] as u32,
            gid: ws[13] as u32,
            rdev: ws[14] as u32,
        },
        parent: ws[15],
        name,
        open_count: ws[16],
        lookup_count: ws[17],
        deferred_deletion: ws[18] == 1,
        entries,
        target,
    }
}

/// The serial form of a record.
pub open spec fn encode_spec(n: NodeView) -> Seq<u8> {
    enc_words(header_words(n)) + (enc_bytes(n.name) + (enc_bytes(n.target) + (enc_u64(
        n.entries.len() as u64,
    ) + enc_entries(n.entries))))
}

/// The record that `s` is the serial form of: `s` must hold a header of this
/// version with every number in the range of its field, the name, the target,
/// and as many entries as it announces, and nothing more; and the record must
/// be sound in itself.
pub open spec fn decode_spec(s: Seq<u8>) -> Option<NodeView> {
    match dec_words(s, HEADER_WORDS as nat) {
        None => None,
        Some((ws, r1)) => if !header_ok(ws) {
            None
        } else {
            match dec_bytes(r1) {
                None => None,
                Some((name, r2)) => match dec_bytes(r2) {
                    None => None,
                    Some((target, r3)) => match dec_u64(r3) {
                        None => None,
                        Some((count, r4)) => match dec_entries(r4, count as nat) {
                            None => None,
                            Some((es, r5)) => if r5.len() == 0 && node_wf(node_of(ws, name, target, es)) {
                                Some(node_of(ws, name, target, es))
                            } else {
                                None
                            },
                        },
                    },
                },
            }
        },
    }
}

/// The lengths of the record can be written as numbers.
pub open spec fn fits(n: NodeView) -> bool {
    &&& n.name.len() <= u64::MAX
    &&& n.target.len() <= u64::MAX
    &&& n.entries.len() <= u64::MAX
    &&& forall|i: int| 0 <= i < n.entries.len() ==> (#[trigger] n.entries[i]).name.len() <= u64::MAX
}

/// A number is read back from its bytes, whatever follows them.
pub proof fn lemma_dec_u64(x: u64, rest: Seq<u8>)
    ensures
        dec_u64(enc_u64(x) + rest) == Some((x, rest)),
        enc_u64(x).len() == 8,
{
    lemma_auto_spec_u64_to_from_le_bytes();
    let s = enc_u64(x) + rest;
    assert(s.take(8) =~= enc_u64(x));
    assert(s.skip(8) =~= rest);
}

/// A row of numbers is read back from its bytes.
pub proof fn lemma_dec_words(ws: Seq<u64>, rest: Seq<u8>)
    ensures
        dec_words(enc_words(ws) + rest, ws.len()) == Some((ws, rest)),
    decreases ws.len(),
{
    if ws.len() == 0 {
        assert(enc_words(ws) + rest =~= rest);
        assert(ws =~= Seq::empty());
    } else {
        let tail = ws.skip(1);
        lemma_dec_u64(ws[0], enc_words(tail) + rest);
        assert(enc_words(ws) + rest =~= enc_u64(ws[0]) + (enc_words(tail) + rest));
        lemma_dec_words(tail, rest);
        assert(seq![ws[0]] + tail =~= ws);
    }
}

/// A byte string is read back from its bytes.
pub proof fn lemma_dec_bytes(b: Seq<u8>, rest: Seq<u8>)
    requires
        b.len() <= u64::MAX,
    ensures
        dec_bytes(enc_bytes(b) + rest) == Some((b, rest)),
{
    lemma_dec_u64(b.len() as u64, b + rest);
    assert(enc_bytes(b) + rest =~= enc_u64(b.len() as u64) + (b + rest));
    assert((b + rest).take(b.len() as int) =~= b);
    assert((b + rest).skip(b.len() as int) =~= rest);
}

/// A directory entry is read back from its bytes.
pub proof fn lemma_dec_entry(e: DirEntryView, rest: Seq<u8>)
    requires
        e.name.len() <= u64::MAX,
    ensures
        dec_entry(enc_entry(e) + rest) == Some((e, rest)),
{
    let r2 = enc_u64(kind_code(e.kind)) + rest;
    let r1 = enc_u64(e.ino) + r2;
    lemma_dec_bytes(e.name, r1);
    lemma_dec_u64(e.ino, r2);
    lemma_dec_u64(kind_code(e.kind), rest);
    assert(enc_entry(e) + rest =~= enc_bytes(e.name) + r1);
}

/// A row of directory entries is read back from its bytes.
pub proof fn lemma_dec_entries(es: Seq<DirEntryView>, rest: Seq<u8>)
    requires
        forall|i: int| 0 <= i < es.len() ==> (#[trigger] es[i]).name.len() <= u64::MAX,
    ensures
        dec_entries(enc_entries(es) + rest, es.len()) == Some((es, rest)),
    decreases es.len(),
{
    if es.len() == 0 {
        assert(enc_entries(es) + rest =~= rest);
        assert(es =~= Seq::empty());
    } else {
        let tail = es.skip(1);
        lemma_dec_entry(es[0], enc_entries(tail) + rest);
        assert(enc_entries(es) + rest =~= enc_entry(es[0]) + (enc_entries(tail) + rest));
        assert forall|i: int| 0 <= i < tail.len() implies (#[trigger] tail[i]).name.len() <= u64::MAX by {
            assert(tail[i] == es[i + 1]);
        }
        lemma_dec_entries(tail, rest);
        assert(seq![es[0]] + tail =~= es);
    }
}

/// Decoding is the inverse of encoding: the serial form of a record that is
/// sound in itself, and whose lengths can be written, decodes to the record.
pub proof fn lemma_decode_encode(n: NodeView)
    requires
        node_wf(n),
        fits(n),
    ensures
        decode_spec(encode_spec(n)) == Some(n),
{
    let ws = header_words(n);
    let r4 = enc_entries(n.entries);
    let r3 = enc_u64(n.entries.len() as u64) + r4;
    let r2 = enc_bytes(n.target) + r3;
    let r1 = enc_bytes(n.name) + r2;
    lemma_dec_words(ws, r1);
    lemma_dec_bytes(n.name, r2);
    lemma_dec_bytes(n.target, r3);
    lemma_dec_u64(n.entries.len() as u64, r4);
    lemma_dec_entries(n.entries, Seq::empty());
    assert(r4 + Seq::<u8>::empty() =~= r4);
    assert(header_ok(ws));
    assert(node_of(ws, n.name, n.target, n.entries) == n);
}

/// No two records have the same serial form.
pub proof fn lemma_encode_injective(a: NodeView, b: NodeView)
    requires
        node_wf(a),
        fits(a),
        node_wf(b),
        fits(b),
        encode_spec(a) == encode_spec(b),
    ensures
        a == b,
{
    lemma_decode_encode(a);
    lemma_decode_encode(b);
}

/// A row of numbers with one more at its end has the bytes of the row, then
/// those of the number.
pub proof fn lemma_enc_words_push(ws: Seq<u64>, w: u64)
    ensures
        enc_words(ws.push(w)) == enc_words(ws) + enc_u64(w),
    decreases ws.len(),
{
    if ws.len() == 0 {
        assert(ws.push(w).skip(1) =~= Seq::<u64>::empty());
        assert(enc_words(ws.push(w).skip(1)) =~= Seq::<u8>::empty());
        assert(enc_words(ws.push(w)) =~= enc_words(ws) + enc_u64(w));
    } else {
        lemma_enc_words_push(ws.skip(1), w);
        assert(ws.push(w).skip(1) =~= ws.skip(1).push(w));
        assert(enc_words(ws.push(w)) =~= enc_words(ws) + enc_u64(w));
    }
}

/// A row of entries with one more at its end has the bytes of the row, then
/// those of the entry.
pub proof fn lemma_enc_entries_push(es: Seq<DirEntryView>, e: DirEntryView)
    ensures
        enc_entries(es.push(e)) == enc_entries(es) + enc_entry(e),
    decreases es.len(),
{
    if es.len() == 0 {
        assert(es.push(e).skip(1) =~= Seq::<DirEntryView>::empty());
        assert(enc_entries(es.push(e).skip(1)) =~= Seq::<u8>::empty());
        assert(enc_entries(es.push(e)) =~= enc_entries(es) + enc_entry(e));
    } else {
        lemma_enc_entries_push(es.skip(1), e);
        assert(es.push(e).skip(1) =~= es.skip(1).push(e));
        assert(enc_entries(es.push(e)) =~= enc_entries(es) + enc_entry(e));
    }
}

fn put_raw(out: &mut Vec<u8>, src: &[u8])
    ensures
        final(out)@ == old(out)@ + src@,
{
    let mut i: usize = 0;
    while i < src.len()
        invariant
            i <= src.len(),
            out@ == old(out)@ + src@.take(i as int),
        decreases src.len() - i,
    {
        out.push(src[i]);
        assert(src@.take(i + 1) =~= src@.take(i as int).push(src@[i as int]));
        assert(out@ =~= old(out)@ + src@.take(i + 1));
        i = i + 1;
    }
    assert(src@.take(src.len() as int) =~= src@);
}

fn put_u64(out: &mut Vec<u8>, x: u64)
    ensures
        final(out)@ == old(out)@ + enc_u64(x),
{
    let b = u64_to_le_bytes(x);
    put_raw(out, b.as_slice());
}

fn put_bytes(out: &mut Vec<u8>, b: &[u8])
    ensures
        final(out)@ == old(out)@ + enc_bytes(b@),
{
    put_u64(out, b.len() as u64);
    put_raw(out, b);
    assert(out@ =~= old(out)@ + enc_bytes(b@));
}

fn get_u64(buf: &[u8], pos: usize) -> (r: Option<(u64, usize)>)
    requires
        pos <= buf@.len(),
    ensures
        match r {
            Some((v, p)) => pos <= p <= buf@.len() && dec_u64(buf@.skip(pos as int)) == Some(
                (v, buf@.skip(p as int)),
            ),
            None => dec_u64(buf@.skip(pos as int)) is None,
        },
{
    if buf.len() - pos < 8 {
        return None;
    }
    let v = u64_from_le_bytes(slice_subrange(buf, pos, pos + 8));
    assert(buf@.skip(pos as int).take(8) =~= buf@.subrange(pos as int, pos + 8));
    assert(buf@.skip(pos as int).skip(8) =~= buf@.skip(pos + 8));
    Some((v, pos + 8))
}

fn get_bytes(buf: &[u8], pos: usize) -> (r: Option<(Vec<u8>, usize)>)
    requires
        pos <= buf@.len(),
    ensures
        match r {
            Some((v, p)) => pos <= p <= buf@.len() && dec_bytes(buf@.skip(pos as int)) == Some(
                (v@, buf@.skip(p as int)),
            ),
            None => dec_bytes(buf@.skip(pos as int)) is None,
        },
{
    let (n, p) = match get_u64(buf, pos) {
        Some(x) => x,
        None => {
            return None;
        },
    };
    if n > (buf.len() - p) as u64 {
        return None;
    }
    let len: usize = n as usize;
    let v = name_to_vec(slice_subrange(buf, p, p + len));
    assert(buf@.skip(p as int).take(n as int) =~= buf@.subrange(p as int, p + len));
    assert(buf@.skip(p as int).skip(n as int) =~= buf@.skip(p + len));
    Some((v, p + len))
}

fn kind_from_code(c: u64) -> (k: FileKind)
    ensures
        k == kind_of_code(c),
{
    if c == 0 {
        FileKind::File
    } else if c == 1 {
        FileKind::Dir
    } else {
        FileKind::Symlink
    }
}

fn code_of_kind(k: FileKind) -> (c: u64)
    ensures
        c == kind_code(k),
{
    match k {
        FileKind::File => 0,
        FileKind::Dir => 1,
        FileKind::Symlink => 2,
    }
}

fn get_entry(buf: &[u8], pos: usize) -> (r: Option<(DirEntry, usize)>)
    requires
        pos <= buf@.len(),
    ensures
        match r {
            Some((e, p)) => pos <= p <= buf@.len() && dec_entry(buf@.skip(pos as int)) == Some(
                (e@, buf@.skip(p as int)),
            ),
            None => dec_entry(buf@.skip(pos as int)) is None,
        },
{
    let (name, p1) = match get_bytes(buf, pos) {
        Some(x) => x,
        None => {
            return None;
        },
    };
    let (ino, p2) = match get_u64(buf, p1) {
        Some(x) => x,
        None => {
            return None;
        },
    };
    let (code, p3) = match get_u64(buf, p2) {
        Some(x) => x,
        None => {
            return None;
        },
    };
    if code > 2 {
        return None;
    }
    Some((DirEntry::new(name, ino, kind_from_code(code)), p3))
}

impl Node {
    /// The serial form of the record.
    pub fn encode(&self) -> (out: Vec<u8>)
        ensures
            out@ == encode_spec(self@),
    {
        let a = self.get_attr();
        let words: Vec<u64> = vec![
            SERIAL_VERSION,
            a.ino,
            a.size,
            a.atime.secs,
            a.atime.nanos as u64,
            a.mtime.secs,
            a.mtime.nanos as u64,
            a.ctime.secs,
            a.ctime.nanos as u64,
            code_of_kind(a.kind),
            a.perm as u64,
            a.nlink as u64,
            a.uid as u64,
            a.gid as u64,
            a.rdev as u64,
            self.get_parent_ino(),
            self.get_open_count(),
            self.get_lookup_count(),
            if self.is_deferred_deletion() {
                1
            } else {
                0
            },
        ];
        assert(words@ =~= header_words(self@));
        let mut out: Vec<u8> = Vec::new();
        let mut i: usize = 0;
        while i < words.len()
            invariant
                i <= words.len(),
                out@ == enc_words(words@.take(i as int)),
            decreases words.len() - i,
        {
            put_u64(&mut out, words[i]);
            proof {
                lemma_enc_words_push(words@.take(i as int), words@[i as int]);
                assert(words@.take(i + 1) =~= words@.take(i as int).push(words@[i as int]));
            }
            i = i + 1;
        }
        assert(words@.take(words.len() as int) =~= words@);
        let ghost h = out@;
        put_bytes(&mut out, self.get_name());
        put_bytes(&mut out, self.get_symlink_target());
        let count: usize = self.entry_count();
        put_u64(&mut out, count as u64);
        let ghost base = out@;
        let mut j: usize = 0;
        while j < count
            invariant
                j <= count,
                count == self@.entries.len(),
                out@ == base + enc_entries(self@.entries.take(j as int)),
            decreases count - j,
        {
            let e = self.entry_at(j);
            let ghost before = out@;
            put_bytes(&mut out, e.entry_name());
            put_u64(&mut out, e.ino());
            put_u64(&mut out, code_of_kind(e.entry_type()));
            proof {
                assert(out@ =~= before + enc_entry(e@));
                lemma_enc_entries_push(self@.entries.take(j as int), e@);
                assert(self@.entries.take(j + 1) =~= self@.entries.take(j as int).push(e@));
                assert(out@ =~= base + enc_entries(self@.entries.take(j + 1)));
            }
            j = j + 1;
        }
        assert(self@.entries.take(count as int) =~= self@.entries);
        assert(out@ =~= encode_spec(self@));
        out
    }

    /// The record that `buf` is the serial form of, if it is one.
    pub fn decode(buf: &[u8]) -> (r: Option<Node>)
        ensures
            match r {
                Some(n) => n.wf() && decode_spec(buf@) == Some(n@),
                None => decode_spec(buf@) is None,
            },
    {
        let mut ws: Vec<u64> = Vec::new();
        let mut pos: usize = 0;
        assert(buf@.skip(0) =~= buf@);
        while ws.len() < HEADER_WORDS
            invariant
                ws.len() <= HEADER_WORDS,
                pos <= buf@.len(),
                dec_words(buf@, HEADER_WORDS as nat) == (match dec_words(
                    buf@.skip(pos as int),
                    (HEADER_WORDS - ws.len()) as nat,
                ) {
                    Some((tail, r)) => Some((ws@ + tail, r)),
                    None => None,
                }),
            decreases HEADER_WORDS - ws.len(),
        {
            let ghost before = ws@;
            match get_u64(buf, pos) {
                None => {
                    return None;
                },
                Some((w, p)) => {
                    ws.push(w);
                    pos = p;
                    proof {
                        match dec_words(buf@.skip(p as int), (HEADER_WORDS - ws.len()) as nat) {
                            Some((tail, r)) => {
                                assert(before + (seq![w] + tail) =~= ws@ + tail);
                            },
                            None => {},
                        }
                    }
                },
            }
        }
        assert(ws@ + Seq::<u64>::empty() =~= ws@);
        assert(dec_words(buf@, HEADER_WORDS as nat) == Some((ws@, buf@.skip(pos as int))));
        if ws[0] != SERIAL_VERSION || ws[4] > 0xffff_ffff || ws[6] > 0xffff_ffff || ws[8] > 0xffff_ffff
            || ws[9] > 2 || ws[10] > 0xffff || ws[11] > 0xffff_ffff || ws[12] > 0xffff_ffff || ws[13]
            > 0xffff_ffff || ws[14] > 0xffff_ffff || ws[18] > 1 {
            return None;
        }
        let (name, p2) = match get_bytes(buf, pos) {
            Some(x) => x,
            None => {
                return None;
            },
        };
        let (target, p3) = match get_bytes(buf, p2) {
            Some(x) => x,
            None => {
                return None;
            },
        };
        let (count, p4) = match get_u64(buf, p3) {
            Some(x) => x,
            None => {
                return None;
            },
        };
        let mut entries: Vec<DirEntry> = Vec::new();
        let mut cur: usize = p4;
        let mut i: u64 = 0;
        while i < count
            invariant
                i <= count,
                cur <= buf@.len(),
                entries@.len() == i,
                decode_spec(buf@) == (match dec_entries(buf@.skip(p4 as int), count as nat) {
                    None => None,
                    Some((es, r5)) => if r5.len() == 0 && node_wf(node_of(ws@, name@, target@, es)) {
                        Some(node_of(ws@, name@, target@, es))
                    } else {
                        None
                    },
                }),
                dec_entries(buf@.skip(p4 as int), count as nat) == (match dec_entries(
                    buf@.skip(cur as int),
                    (count - i) as nat,
                ) {
                    Some((tail, r)) => Some((entries_view(entries@) + tail, r)),
                    None => None,
                }),
            decreases count - i,
        {
            let ghost before = entries_view(entries@);
            match get_entry(buf, cur) {
                None => {
                    return None;
                },
                Some((e, p)) => {
                    let ghost ev = e@;
                    entries.push(e);
                    cur = p;
                    i = i + 1;
                    proof {
                        assert(entries_view(entries@) =~= before.push(ev));
                        match dec_entries(buf@.skip(p as int), (count - i) as nat) {
                            Some((tail, r)) => {
                                assert(before + (seq![ev] + tail) =~= entries_view(entries@) + tail);
                            },
                            None => {},
                        }
                    }
                },
            }
        }
        let ghost es = entries_view(entries@);
        assert(es + Seq::<DirEntryView>::empty() =~= es);
        assert(dec_entries(buf@.skip(p4 as int), count as nat) == Some((es, buf@.skip(cur as int))));
        if cur != buf.len() {
            return None;
        }
        let ghost v = node_of(ws@, name@, target@, es);
        let dir = match DirData::from_sorted(entries) {
            Some(d) => d,
            None => {
                assert(!node_wf(v));
                return None;
            },
        };
        let attr = FileAttr {
            ino: ws[1],
            size: ws[2],
            atime: Timestamp { secs: ws[3], nanos: ws[4] as u32 },
            mtime: Timestamp { secs: ws[5], nanos: ws[6] as u32 },
            ctime: Timestamp { secs: ws[7], nanos: ws[8] as u32 },
            kind: kind_from_code(ws[9]),
            perm: ws[10] as u16,
            nlink: ws[11] as u32,
            uid: ws[12] as u32,
            gid: ws[13] as u32,
            rdev: ws[14] as u32,
        };
        Node::from_parts(attr, ws[15], name, ws[16], ws[17], ws[18] == 1, dir, target)
    }
}

} // verus!
