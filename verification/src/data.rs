//! The metadata side of the data path: listing a directory, recording a
//! write, and the block range that a write makes stale on the other nodes.

use vstd::prelude::*;
use crate::arith::{
    cast_i64_to_u64, cast_i64_to_usize, cast_usize_to_i64, overflow_add_i64, overflow_div_i64,
    overflow_sub_i64,
};
use crate::attr::{check_perm_spec, FileKind, ReqContext, Timestamp};
use crate::dir::DirEntryView;
use crate::error::{Errno, MetaError};
use crate::meta::{get_inode_spec, MetaView, S3MetaData};
use crate::name::name_to_vec;
use crate::txn::{Effect, EffectView, MetaTxn, Step, TxnView};

verus! {

/// One item of a directory listing.
#[derive(Debug)]
pub struct DirItem {
    /// The inode that the entry names.
    pub ino: u64,
    /// The position after this entry, from which a later listing goes on.
    pub offset: i64,
    pub kind: FileKind,
    pub name: Vec<u8>,
}

/// The mathematical value of a [`DirItem`].
pub struct DirItemView {
    pub ino: u64,
    pub offset: i64,
    pub kind: FileKind,
    pub name: Seq<u8>,
}

impl View for DirItem {
    type V = DirItemView;

    open spec fn view(&self) -> DirItemView {
        DirItemView { ino: self.ino, offset: self.offset, kind: self.kind, name: self.name@ }
    }
}

/// The values of the items of a listing.
pub open spec fn items_view(v: Vec<DirItem>) -> Seq<DirItemView> {
    v@.map_values(|x: DirItem| x@)
}

/// The value of a step that carries a listing.
pub open spec fn items_step_view(s: Step<Vec<DirItem>>) -> Step<Seq<DirItemView>> {
    match s {
        Step::Need(k) => Step::Need(k),
        Step::NeedInum => Step::NeedInum,
        Step::Done(Err(e)) => Step::Done(Err(e)),
        Step::Done(Ok(v)) => Step::Done(Ok(items_view(v))),
    }
}

/// The listing of `entries` from position `offset` on: the entries in the
/// order of their names, without the first `offset`; each item carries the
/// entry's position in the directory, counted from one.
pub open spec fn readdir_items(entries: Seq<DirEntryView>, offset: int) -> Seq<DirItemView> {
    Seq::new(
        if offset < entries.len() {
            (entries.len() - offset) as nat
        } else {
            0
        },
        |i: int|
            DirItemView {
                ino: entries[offset + i].ino,
                offset: (offset + i + 1) as i64,
                kind: entries[offset + i].kind,
                name: entries[offset + i].name,
            },
    )
}

/// The outcome of a readdir of `ino` from position `offset` by `ctx`. The
/// inode must be a directory (`ENOTDIR`) that grants search permission
/// (`EACCES`); a negative offset is refused (`EINVAL`), and so is a directory
/// with more entries than an offset can count (`EIO`).
pub open spec fn readdir_outcome(m: MetaView, t: TxnView, ctx: ReqContext, ino: u64, offset: i64) -> Step<
    Seq<DirItemView>,
> {
    match get_inode_spec(t, ino) {
        Step::Done(Ok(n)) => if !n.is_dir() {
            Step::Done(Err(MetaError::Posix(Errno::ENOTDIR)))
        } else if check_perm_spec(m.need_check_perm, n.attr, ctx.uid, ctx.gid, 1) is Err {
            Step::Done(Err(MetaError::Posix(Errno::EACCES)))
        } else if offset < 0 {
            Step::Done(Err(MetaError::Posix(Errno::EINVAL)))
        } else if n.entries.len() > i64::MAX {
            Step::Done(Err(MetaError::Posix(Errno::EIO)))
        } else {
            Step::Done(Ok(readdir_items(n.entries, offset as int)))
        },
        other => other.forwarded(),
    }
}

/// Whether a range of `len` bytes at `offset` lies within what a file offset
/// can address.
pub open spec fn range_ok(offset: i64, len: usize) -> bool {
    offset >= 0 && offset + len <= i64::MAX
}

/// The transaction after the other nodes were asked to drop what they cache
/// of `len` bytes at `offset` of the file `ino`: the blocks from
/// `offset / align` to `(offset + len - 1) / align`, both included, where
/// `align` is the block size of the cache. An empty range asks for nothing.
pub open spec fn invalidate_remote_post(m: MetaView, t: TxnView, ino: u64, offset: i64, len: usize)
    -> TxnView {
    if len == 0 {
        t
    } else {
        t.emit(
            EffectView::InvalidateRemote {
                ino,
                block_start: (offset / m.block_size) as u64,
                block_end: ((offset + len - 1) / (m.block_size as int)) as u64,
            },
        )
    }
}

/// The outcome of recording a write of `len` bytes at `offset` of `ino`: the
/// number of bytes. A directory cannot be written (`EISDIR`), and the range
/// must be addressable (`EINVAL`).
pub open spec fn write_outcome(t: TxnView, ino: u64, offset: i64, len: usize) -> Step<usize> {
    match get_inode_spec(t, ino) {
        Step::Done(Ok(n)) => if n.is_dir() {
            Step::Done(Err(MetaError::Posix(Errno::EISDIR)))
        } else if !range_ok(offset, len) {
            Step::Done(Err(MetaError::Posix(Errno::EINVAL)))
        } else {
            Step::Done(Ok(len))
        },
        other => other.forwarded(),
    }
}

/// The transaction after a write of `len` bytes at `offset` of `ino` at time
/// `now`: the file reaches at least to the end of the range, its modification
/// and change times are `now`, and the other nodes are asked to drop the
/// blocks of the range.
pub open spec fn write_post(m: MetaView, t: TxnView, ino: u64, offset: i64, len: usize, now: Timestamp)
    -> TxnView {
    invalidate_remote_post(
        m,
        t.put(ino, t.node(ino).written((offset + len) as u64, now)),
        ino,
        offset,
        len,
    )
}

/// The digit of the number `d` below sixteen: `0` to `9`, then `a` to `f`.
pub open spec fn hex_digit(d: u64) -> u8 {
    if d < 10 {
        (48 + d) as u8
    } else {
        (87 + d) as u8
    }
}

/// The key of the object that holds the payload of the file `ino`: the
/// inode number as sixteen hexadecimal digits, the highest first.
pub open spec fn object_key_spec(ino: u64) -> Seq<u8> {
    Seq::new(16, |i: int| hex_digit((ino >> (((15 - i) * 4) as u64)) & 0xf))
}

/// The key of the object that holds the payload of the file `ino`.
pub fn object_key(ino: u64) -> (key: Vec<u8>)
    ensures
        key@ == object_key_spec(ino),
{
    let mut key: Vec<u8> = Vec::new();
    let mut i: u64 = 0;
    while i < 16
        invariant
            i <= 16,
            key@.len() == i,
            forall|k: int| 0 <= k < i ==> key@[k] == object_key_spec(ino)[k],
        decreases 16 - i,
    {
        let shift: u64 = (15 - i) * 4;
        let d: u64 = (ino >> shift) & 0xf;
        assert(d < 16) by (bit_vector)
            requires
                d == (ino >> shift) & 0xf,
        ;
        let digit: u8 = if d < 10 {
            (48 + d) as u8
        } else {
            (87 + d) as u8
        };
        key.push(digit);
        i = i + 1;
    }
    assert(key@ =~= object_key_spec(ino));
    key
}

impl S3MetaData {
    /// Lists the directory `ino` from position `offset` on for the process
    /// `context`.
    pub fn readdir(&self, txn: &MetaTxn, context: ReqContext, ino: u64, fh: u64, offset: i64) -> (r: Step<
        Vec<DirItem>,
    >)
        requires
            txn.wf(),
        ensures
            items_step_view(r) == readdir_outcome(self@, txn@, context, ino, offset),
    {
        let inode = match self.get_inode_from_txn(txn, ino).into_value() {
            Ok(n) => n,
            Err(s) => {
                return s;
            },
        };
        if inode.get_type() != FileKind::Dir {
            return Step::Done(Err(MetaError::Posix(Errno::ENOTDIR)));
        }
        if inode.get_attr().check_perm(self.need_check_perm(), context.uid, context.gid, 1).is_err() {
            return Step::Done(Err(MetaError::Posix(Errno::EACCES)));
        }
        if offset < 0 {
            return Step::Done(Err(MetaError::Posix(Errno::EINVAL)));
        }
        let count: usize = inode.entry_count();
        if count as u64 > 0x7fff_ffff_ffff_ffffu64 {
            return Step::Done(Err(MetaError::Posix(Errno::EIO)));
        }
        let total: i64 = cast_usize_to_i64(count);
        let mut items: Vec<DirItem> = Vec::new();
        if offset >= total {
            assert(items_view(items) =~= readdir_items(inode@.entries, offset as int));
            return Step::Done(Ok(items));
        }
        let start: usize = cast_i64_to_usize(offset);
        let mut j: usize = start;
        while j < count
            invariant
                start <= j <= count,
                start == offset,
                count == inode@.entries.len(),
                count <= i64::MAX,
                items@.len() == j - start,
                forall|k: int|
                    0 <= k < j - start ==> (#[trigger] items@[k])@ == readdir_items(
                        inode@.entries,
                        offset as int,
                    )[k],
            decreases count - j,
        {
            let child_entry = inode.entry_at(j);
            let i: i64 = cast_usize_to_i64(j - start);
            let next: i64 = overflow_add_i64(overflow_add_i64(offset, i), 1);
            items.push(
                DirItem {
                    ino: child_entry.ino(),
                    offset: next,
                    kind: child_entry.entry_type(),
                    name: name_to_vec(child_entry.entry_name()),
                },
            );
            j = j + 1;
        }
        assert(items_view(items) =~= readdir_items(inode@.entries, offset as int));
        Step::Done(Ok(items))
    }

    /// Asks the other nodes of the cluster to drop what they cache of `len`
    /// bytes at `offset` of the file `full_ino`. A range that cannot be
    /// addressed is refused with `EINVAL`.
    pub fn invalidate_remote(&self, txn: &mut MetaTxn, full_ino: u64, offset: i64, len: usize) -> (r:
        Result<(), MetaError>)
        requires
            self.wf(),
            old(txn).wf(),
        ensures
            final(txn).wf(),
            r == (if range_ok(offset, len) {
                Ok::<(), MetaError>(())
            } else {
                Err(MetaError::Posix(Errno::EINVAL))
            }),
            final(txn)@ == if r is Ok {
                invalidate_remote_post(self@, old(txn)@, full_ino, offset, len)
            } else {
                old(txn)@
            },
    {
        if offset < 0 || len as u64 > 0x7fff_ffff_ffff_ffffu64 {
            return Err(MetaError::Posix(Errno::EINVAL));
        }
        let size: i64 = cast_usize_to_i64(len);
        if size > overflow_sub_i64(i64::MAX, offset) {
            return Err(MetaError::Posix(Errno::EINVAL));
        }
        if len == 0 {
            return Ok(());
        }
        let align: i64 = self.block_size();
        let last: i64 = overflow_sub_i64(overflow_add_i64(offset, size), 1);
        let first_block: i64 = overflow_div_i64(offset, align);
        let last_block: i64 = overflow_div_i64(last, align);
        assert(0 <= first_block && 0 <= last_block) by (nonlinear_arith)
            requires
                first_block == offset / align,
                last_block == last / align,
                offset >= 0,
                last >= 0,
                align > 0,
        ;
        txn.emit(
            Effect::InvalidateRemote {
                ino: full_ino,
                block_start: cast_i64_to_u64(first_block),
                block_end: cast_i64_to_u64(last_block),
            },
        );
        Ok(())
    }

    /// Records in the catalog that `data_len` bytes were written at `offset`
    /// of the file `ino` at time `now`, and asks the other nodes to drop the
    /// blocks of the range.
    pub fn write_helper(
        &self,
        txn: &mut MetaTxn,
        ino: u64,
        fh: u64,
        offset: i64,
        data_len: usize,
        flags: u32,
        now: Timestamp,
    ) -> (r: Step<usize>)
        requires
            self.wf(),
            old(txn).wf(),
        ensures
            final(txn).wf(),
            r == write_outcome(old(txn)@, ino, offset, data_len),
            final(txn)@ == if r.is_ok() {
                write_post(self@, old(txn)@, ino, offset, data_len, now)
            } else {
                old(txn)@
            },
    {
        let mut inode = match self.get_inode_from_txn(txn, ino).into_value() {
            Ok(n) => n,
            Err(s) => {
                return s;
            },
        };
        if inode.get_type() == FileKind::Dir {
            return Step::Done(Err(MetaError::Posix(Errno::EISDIR)));
        }
        if offset < 0 || data_len as u64 > 0x7fff_ffff_ffff_ffffu64 {
            return Step::Done(Err(MetaError::Posix(Errno::EINVAL)));
        }
        let size: i64 = cast_usize_to_i64(data_len);
        if size > overflow_sub_i64(i64::MAX, offset) {
            return Step::Done(Err(MetaError::Posix(Errno::EINVAL)));
        }
        let end: u64 = cast_i64_to_u64(overflow_add_i64(offset, size));
        inode.record_write(end, now);
        txn.set(ino, inode);
        match self.invalidate_remote(txn, ino, offset, data_len) {
            Ok(_) => Step::Done(Ok(data_len)),
            Err(e) => Step::Done(Err(e)),
        }
    }
}

} // verus!
