//! A transaction's image of the inode catalog.
//!
//! A [`MetaTxn`] holds the records that one attempt of a request has read from
//! the key-value store, the writes it has staged, and the side effects that are
//! due once the writes are committed. Handlers read and write through it and
//! never reach the store themselves: a handler that meets a record the
//! transaction does not hold stops with [`Step::Need`], and is run again when
//! the record has been loaded.

use vstd::prelude::*;
use crate::error::MetaError;
use crate::name::name_to_vec;
use crate::node::{node_wf, Node, NodeView};
use crate::serial::{decode_spec, encode_spec};

verus! {

/// Work outside the key-value store that a request leaves behind.
#[derive(Debug)]
pub enum Effect {
    /// Drop the cached blocks of the file `ino`.
    RemoveFileCache { ino: u64 },
    /// Delete the object that holds the payload of the file `ino`.
    DeleteObject { ino: u64 },
    /// Create the empty object that will hold the payload of the file `ino`.
    CreateObject { ino: u64 },
    /// Cut the object of the file `ino` to `size` bytes, and drop the cached
    /// blocks beyond.
    TruncateObject { ino: u64, size: u64 },
    /// Write the pending data of the handle `fh` of file `ino` to the object
    /// store. This one is due before the commit.
    FlushFile { ino: u64, fh: u64 },
    /// Tell the other nodes to drop the cached blocks `block_start` to
    /// `block_end`, both included, of the file `ino`.
    InvalidateRemote { ino: u64, block_start: u64, block_end: u64 },
    /// Tell the kernel, through the device `fuse_fd`, that the entry `name`
    /// of the directory `parent`, which named the inode `ino`, is gone.
    NotifyDelete { fuse_fd: i32, parent: u64, ino: u64, name: Vec<u8> },
}

/// The mathematical value of an [`Effect`].
pub enum EffectView {
    RemoveFileCache { ino: u64 },
    DeleteObject { ino: u64 },
    CreateObject { ino: u64 },
    TruncateObject { ino: u64, size: u64 },
    FlushFile { ino: u64, fh: u64 },
    InvalidateRemote { ino: u64, block_start: u64, block_end: u64 },
    NotifyDelete { fuse_fd: i32, parent: u64, ino: u64, name: Seq<u8> },
}

impl View for Effect {
    type V = EffectView;

    open spec fn view(&self) -> EffectView {
        match *self {
            Effect::RemoveFileCache { ino } => EffectView::RemoveFileCache { ino },
            Effect::DeleteObject { ino } => EffectView::DeleteObject { ino },
            Effect::CreateObject { ino } => EffectView::CreateObject { ino },
            Effect::TruncateObject { ino, size } => EffectView::TruncateObject { ino, size },
            Effect::FlushFile { ino, fh } => EffectView::FlushFile { ino, fh },
            Effect::InvalidateRemote { ino, block_start, block_end } => EffectView::InvalidateRemote {
                ino,
                block_start,
                block_end,
            },
            Effect::NotifyDelete { fuse_fd, parent, ino, name } => EffectView::NotifyDelete {
                fuse_fd,
                parent,
                ino,
                name: name@,
            },
        }
    }
}

impl Effect {
    /// An owned copy of the effect.
    pub fn clone_effect(&self) -> (e: Effect)
        ensures
            e@ == self@,
    {
        match self {
            Effect::RemoveFileCache { ino } => Effect::RemoveFileCache { ino: *ino },
            Effect::DeleteObject { ino } => Effect::DeleteObject { ino: *ino },
            Effect::CreateObject { ino } => Effect::CreateObject { ino: *ino },
            Effect::TruncateObject { ino, size } => Effect::TruncateObject { ino: *ino, size: *size },
            Effect::FlushFile { ino, fh } => Effect::FlushFile { ino: *ino, fh: *fh },
            Effect::InvalidateRemote { ino, block_start, block_end } => Effect::InvalidateRemote {
                ino: *ino,
                block_start: *block_start,
                block_end: *block_end,
            },
            Effect::NotifyDelete { fuse_fd, parent, ino, name } => Effect::NotifyDelete {
                fuse_fd: *fuse_fd,
                parent: *parent,
                ino: *ino,
                name: name_to_vec(name.as_slice()),
            },
        }
    }
}

/// What a transaction knows of one inode number.
pub enum Fetch {
    /// The transaction has not read the key.
    Unread,
    /// The store holds no record under the key.
    Absent,
    /// The record under the key.
    Present(NodeView),
}

/// What a transaction hands out for one inode number.
#[derive(Debug)]
pub enum Fetched {
    /// The transaction has not read the key.
    Unread,
    /// The store holds no record under the key.
    Absent,
    /// A copy of the record under the key.
    Present(Node),
}

impl View for Fetched {
    type V = Fetch;

    open spec fn view(&self) -> Fetch {
        match self {
            Fetched::Unread => Fetch::Unread,
            Fetched::Absent => Fetch::Absent,
            Fetched::Present(n) => Fetch::Present(n@),
        }
    }
}

/// How far a handler got.
#[derive(Debug, PartialEq, Eq)]
pub enum Step<T> {
    /// The handler needs the record of this inode number, which the
    /// transaction has not read. It has staged nothing.
    Need(u64),
    /// The handler needs a fresh inode number. It has staged nothing.
    NeedInum,
    /// The handler is done. On `Ok` its writes and effects are staged in the
    /// transaction; on `Err` it has staged nothing.
    Done(Result<T, MetaError>),
}

impl<T> Step<T> {
    /// The handler is done and succeeded.
    pub open spec fn is_ok(self) -> bool {
        self matches Step::Done(Ok(_))
    }

    /// The value that the handler succeeded with.
    pub open spec fn value(self) -> T
        recommends
            self.is_ok(),
    {
        self->Done_0->Ok_0
    }

    /// The same stop or failure, as the step of a handler with another
    /// result.
    pub open spec fn forwarded<U>(self) -> Step<U>
        recommends
            !self.is_ok(),
    {
        match self {
            Step::Need(k) => Step::Need(k),
            Step::NeedInum => Step::NeedInum,
            Step::Done(Err(e)) => Step::Done(Err(e)),
            Step::Done(Ok(_)) => arbitrary(),
        }
    }

    /// Parts a success from the rest: the value of a handler that succeeded,
    /// or else its stop or failure as the step of the calling handler.
    pub fn into_value<U>(self) -> (r: Result<T, Step<U>>)
        ensures
            match r {
                Ok(v) => self.is_ok() && v == self.value(),
                Err(s) => !self.is_ok() && s == self.forwarded::<U>(),
            },
    {
        match self {
            Step::Need(k) => Err(Step::Need(k)),
            Step::NeedInum => Err(Step::NeedInum),
            Step::Done(Err(e)) => Err(Step::Done(Err(e))),
            Step::Done(Ok(v)) => Ok(v),
        }
    }
}

/// A write that a transaction has staged for its commit.
#[derive(Debug)]
pub enum KvWrite {
    /// Store the record under the inode number.
    Put(u64, Node),
    /// Delete the key of the inode number.
    Delete(u64),
}

impl KvWrite {
    /// The inode number that the write is for.
    pub open spec fn key(self) -> u64 {
        match self {
            KvWrite::Put(k, _) => k,
            KvWrite::Delete(k) => k,
        }
    }

    /// The value that the key has after the write.
    pub open spec fn value(self) -> Option<NodeView> {
        match self {
            KvWrite::Put(_, n) => Some(n@),
            KvWrite::Delete(_) => None,
        }
    }
}

/// A staged write in the serial form in which the store takes it: the key,
/// and the bytes of the record or `None` where the key is deleted.
#[derive(Debug)]
pub struct KvBytes {
    pub key: u64,
    pub value: Option<Vec<u8>>,
}

impl KvBytes {
    /// The bytes that the key is to hold.
    pub open spec fn bytes(self) -> Option<Seq<u8>> {
        match self.value {
            Some(b) => Some(b@),
            None => None,
        }
    }
}

/// The serial form of what a key holds.
pub open spec fn encoded(v: Option<NodeView>) -> Option<Seq<u8>> {
    match v {
        Some(n) => Some(encode_spec(n)),
        None => None,
    }
}

/// The mathematical value of a transaction.
pub struct TxnView {
    /// What the transaction knows of the catalog: for each key it has read or
    /// written, the record now under it, or `None` where there is none.
    pub image: Map<u64, Option<NodeView>>,
    /// The keys that the transaction has staged a write for.
    pub written: Set<u64>,
    /// The side effects that are due after the commit, oldest first.
    pub effects: Seq<EffectView>,
    /// A fresh inode number that the transaction may use, if it holds one.
    pub inum: Option<u64>,
}

impl TxnView {
    /// What the transaction knows of `ino`.
    pub open spec fn fetch(self, ino: u64) -> Fetch {
        if !self.image.dom().contains(ino) {
            Fetch::Unread
        } else {
            match self.image[ino] {
                None => Fetch::Absent,
                Some(n) => Fetch::Present(n),
            }
        }
    }

    /// The transaction holds a record under `ino`.
    pub open spec fn present(self, ino: u64) -> bool {
        self.image.dom().contains(ino) && self.image[ino] is Some
    }

    /// The record under `ino`, where the transaction holds one.
    pub open spec fn node(self, ino: u64) -> NodeView
        recommends
            self.present(ino),
    {
        self.image[ino]->0
    }

    /// The transaction after staging the record `n` under `ino`.
    pub open spec fn put(self, ino: u64, n: NodeView) -> TxnView {
        TxnView { image: self.image.insert(ino, Some(n)), written: self.written.insert(ino), ..self }
    }

    /// The transaction after staging the deletion of `ino`.
    pub open spec fn del(self, ino: u64) -> TxnView {
        TxnView { image: self.image.insert(ino, None), written: self.written.insert(ino), ..self }
    }

    /// The transaction after noting the effect `e`.
    pub open spec fn emit(self, e: EffectView) -> TxnView {
        TxnView { effects: self.effects.push(e), ..self }
    }

    /// The transaction after an inode number was given to it, or taken from
    /// it.
    pub open spec fn with_inum(self, inum: Option<u64>) -> TxnView {
        TxnView { inum, ..self }
    }

    /// The transaction after the store's value of `ino` was loaded: a key
    /// that it already holds keeps what it has.
    pub open spec fn loaded(self, ino: u64, n: Option<NodeView>) -> TxnView {
        if self.image.dom().contains(ino) {
            self
        } else {
            TxnView { image: self.image.insert(ino, n), ..self }
        }
    }

    /// Every record of the image is sound in itself, and only keys of the
    /// image are written.
    pub open spec fn wf(self) -> bool {
        &&& forall|k: u64| #[trigger] self.present(k) ==> node_wf(self.node(k))
        &&& forall|k: u64| #[trigger] self.written.contains(k) ==> self.image.dom().contains(k)
    }

    /// The empty transaction.
    pub open spec fn empty() -> TxnView {
        TxnView { image: Map::empty(), written: Set::empty(), effects: Seq::empty(), inum: None }
    }
}

struct Slot {
    ino: u64,
    node: Option<Node>,
    dirty: bool,
}

/// A transaction of the metadata layer, see the module's description.
pub struct MetaTxn {
    slots: Vec<Slot>,
    effects: Vec<Effect>,
    inum: Option<u64>,
}

spec fn has_slot(slots: Seq<Slot>, k: u64) -> bool {
    exists|i: int| 0 <= i < slots.len() && (#[trigger] slots[i]).ino == k
}

spec fn slot_index(slots: Seq<Slot>, k: u64) -> int {
    choose|i: int| 0 <= i < slots.len() && (#[trigger] slots[i]).ino == k
}

spec fn slot_value(s: Slot) -> Option<NodeView> {
    match s.node {
        Some(n) => Some(n@),
        None => None,
    }
}

spec fn slots_wf(slots: Seq<Slot>) -> bool {
    &&& forall|i: int, j: int|
        0 <= i < slots.len() && 0 <= j < slots.len() && i != j ==> (#[trigger] slots[i]).ino != (
        #[trigger] slots[j]).ino
    &&& forall|i: int| 0 <= i < slots.len() && (#[trigger] slots[i]).node is Some ==> slots[i].node->0.wf()
}

spec fn image_of(slots: Seq<Slot>) -> Map<u64, Option<NodeView>> {
    Map::new(|k: u64| has_slot(slots, k), |k: u64| slot_value(slots[slot_index(slots, k)]))
}

spec fn written_of(slots: Seq<Slot>) -> Set<u64> {
    Set::new(|k: u64| has_slot(slots, k) && slots[slot_index(slots, k)].dirty)
}

proof fn lemma_slot_index(slots: Seq<Slot>, i: int)
    requires
        slots_wf(slots),
        0 <= i < slots.len(),
    ensures
        has_slot(slots, slots[i].ino),
        slot_index(slots, slots[i].ino) == i,
{
}

proof fn lemma_slots_update(slots: Seq<Slot>, i: int, s: Slot)
    requires
        slots_wf(slots),
        0 <= i < slots.len(),
        s.ino == slots[i].ino,
        s.node is Some ==> s.node->0.wf(),
    ensures
        slots_wf(slots.update(i, s)),
        image_of(slots.update(i, s)) == image_of(slots).insert(s.ino, slot_value(s)),
        written_of(slots.update(i, s)) == if s.dirty {
            written_of(slots).insert(s.ino)
        } else {
            written_of(slots).remove(s.ino)
        },
{
    let t = slots.update(i, s);
    assert(slots_wf(t));
    assert forall|k: u64| has_slot(t, k) == has_slot(slots, k) by {
        if has_slot(slots, k) {
            let j = slot_index(slots, k);
            assert(t[j].ino == k);
        }
        if has_slot(t, k) {
            let j = slot_index(t, k);
            assert(slots[j].ino == k);
        }
    }
    assert forall|k: u64| has_slot(t, k) implies slot_index(t, k) == slot_index(slots, k) by {
        let j = slot_index(t, k);
        assert(slots[j].ino == k);
        lemma_slot_index(slots, j);
    }
    lemma_slot_index(slots, i);
    assert(image_of(t) =~= image_of(slots).insert(s.ino, slot_value(s)));
    if s.dirty {
        assert(written_of(t) =~= written_of(slots).insert(s.ino));
    } else {
        assert(written_of(t) =~= written_of(slots).remove(s.ino));
    }
}

proof fn lemma_slots_push(slots: Seq<Slot>, s: Slot)
    requires
        slots_wf(slots),
        !has_slot(slots, s.ino),
        s.node is Some ==> s.node->0.wf(),
    ensures
        slots_wf(slots.push(s)),
        image_of(slots.push(s)) == image_of(slots).insert(s.ino, slot_value(s)),
        written_of(slots.push(s)) == if s.dirty {
            written_of(slots).insert(s.ino)
        } else {
            written_of(slots)
        },
{
    let t = slots.push(s);
    assert(slots_wf(t)) by {
        assert forall|i: int, j: int| 0 <= i < t.len() && 0 <= j < t.len() && i != j implies (
        #[trigger] t[i]).ino != (#[trigger] t[j]).ino by {
            if i < slots.len() {
                assert(t[i] == slots[i]);
            }
            if j < slots.len() {
                assert(t[j] == slots[j]);
            }
        }
    }
    assert(t[slots.len() as int].ino == s.ino);
    assert forall|k: u64| has_slot(t, k) == (has_slot(slots, k) || k == s.ino) by {
        if has_slot(slots, k) {
            let j = slot_index(slots, k);
            assert(t[j].ino == k);
        }
        if has_slot(t, k) && k != s.ino {
            let j = slot_index(t, k);
            assert(slots[j].ino == k);
        }
    }
    assert forall|k: u64| has_slot(slots, k) implies slot_index(t, k) == slot_index(slots, k) by {
        let j = slot_index(slots, k);
        assert(t[j].ino == k);
        lemma_slot_index(t, j);
    }
    lemma_slot_index(t, slots.len() as int);
    assert(image_of(t) =~= image_of(slots).insert(s.ino, slot_value(s)));
    if s.dirty {
        assert(written_of(t) =~= written_of(slots).insert(s.ino));
    } else {
        assert(written_of(t) =~= written_of(slots));
    }
}

impl View for MetaTxn {
    type V = TxnView;

    closed spec fn view(&self) -> TxnView {
        TxnView {
            image: image_of(self.slots@),
            written: written_of(self.slots@),
            effects: self.effects@.map_values(|e: Effect| e@),
            inum: self.inum,
        }
    }
}

impl MetaTxn {
    /// The transaction holds each key once, and every record it holds is
    /// sound in itself.
    pub closed spec fn wf(&self) -> bool {
        slots_wf(self.slots@)
    }

    /// A well-formed transaction has a well-formed value.
    pub proof fn lemma_wf(&self)
        requires
            self.wf(),
        ensures
            self@.wf(),
    {
        let slots = self.slots@;
        assert forall|k: u64| #[trigger] self@.present(k) implies node_wf(self@.node(k)) by {
            let i = slot_index(slots, k);
            assert(slots[i].node is Some);
        }
    }

    /// A transaction that has read and written nothing.
    pub fn new() -> (t: MetaTxn)
        ensures
            t.wf(),
            t@ == TxnView::empty(),
    {
        let t = MetaTxn { slots: Vec::new(), effects: Vec::new(), inum: None };
        assert(t@.image =~= Map::empty());
        assert(t@.written =~= Set::empty());
        assert(t@.effects =~= Seq::empty());
        t
    }

    fn find(&self, ino: u64) -> (r: Option<usize>)
        requires
            self.wf(),
        ensures
            match r {
                Some(i) => i < self.slots@.len() && self.slots@[i as int].ino == ino && slot_index(
                    self.slots@,
                    ino,
                ) == i && has_slot(self.slots@, ino),
                None => !has_slot(self.slots@, ino),
            },
    {
        let mut i: usize = 0;
        while i < self.slots.len()
            invariant
                self.wf(),
                i <= self.slots.len(),
                forall|k: int| 0 <= k < i ==> (#[trigger] self.slots@[k]).ino != ino,
            decreases self.slots.len() - i,
        {
            if self.slots[i].ino == ino {
                proof {
                    lemma_slot_index(self.slots@, i as int);
                }
                return Some(i);
            }
            i = i + 1;
        }
        None
    }

    /// What the transaction knows of `ino`, with a copy of the record.
    pub fn get(&self, ino: u64) -> (r: Fetched)
        requires
            self.wf(),
        ensures
            r@ == self@.fetch(ino),
            r matches Fetched::Present(n) ==> n.wf(),
    {
        match self.find(ino) {
            None => Fetched::Unread,
            Some(i) => match &self.slots[i].node {
                None => Fetched::Absent,
                Some(n) => Fetched::Present(n.clone_node()),
            },
        }
    }

    /// Whether the transaction has read or written `ino`.
    pub fn knows(&self, ino: u64) -> (r: bool)
        requires
            self.wf(),
        ensures
            r == self@.image.dom().contains(ino),
    {
        self.find(ino).is_some()
    }

    /// Takes in what the store holds under `ino`. A key that the transaction
    /// has already read or written keeps its value.
    pub fn load(&mut self, ino: u64, node: Option<Node>)
        requires
            old(self).wf(),
            node matches Some(n) ==> n.wf(),
        ensures
            final(self).wf(),
            final(self)@ == old(self)@.loaded(
                ino,
                match node {
                    Some(n) => Some(n@),
                    None => None,
                },
            ),
    {
        if self.find(ino).is_none() {
            let s = Slot { ino, node, dirty: false };
            proof {
                lemma_slots_push(self.slots@, s);
            }
            self.slots.push(s);
        }
    }

    /// Stages the record `node` under `ino`.
    pub fn set(&mut self, ino: u64, node: Node)
        requires
            old(self).wf(),
            node.wf(),
        ensures
            final(self).wf(),
            final(self)@ == old(self)@.put(ino, node@),
    {
        let s = Slot { ino, node: Some(node), dirty: true };
        match self.find(ino) {
            Some(i) => {
                proof {
                    lemma_slots_update(self.slots@, i as int, s);
                }
                self.slots[i] = s;
            },
            None => {
                proof {
                    lemma_slots_push(self.slots@, s);
                }
                self.slots.push(s);
            },
        }
    }

    /// Stages the deletion of the key `ino`.
    pub fn delete(&mut self, ino: u64)
        requires
            old(self).wf(),
        ensures
            final(self).wf(),
            final(self)@ == old(self)@.del(ino),
    {
        let s = Slot { ino, node: None, dirty: true };
        match self.find(ino) {
            Some(i) => {
                proof {
                    lemma_slots_update(self.slots@, i as int, s);
                }
                self.slots[i] = s;
            },
            None => {
                proof {
                    lemma_slots_push(self.slots@, s);
                }
                self.slots.push(s);
            },
        }
    }

    /// Notes a side effect that is due once the transaction has committed.
    pub fn emit(&mut self, e: Effect)
        requires
            old(self).wf(),
        ensures
            final(self).wf(),
            final(self)@ == old(self)@.emit(e@),
    {
        self.effects.push(e);
        assert(self@.effects =~= old(self)@.effects.push(e@));
    }

    /// Gives the transaction a fresh inode number to create an inode with.
    pub fn supply_inum(&mut self, inum: u64)
        requires
            old(self).wf(),
        ensures
            final(self).wf(),
            final(self)@ == old(self)@.with_inum(Some(inum)),
    {
        self.inum = Some(inum);
    }

    /// The fresh inode number that the transaction holds.
    pub fn inum(&self) -> (r: Option<u64>)
        ensures
            r == self@.inum,
    {
        self.inum
    }

    /// Takes the fresh inode number out of the transaction.
    pub fn take_inum(&mut self) -> (r: Option<u64>)
        requires
            old(self).wf(),
        ensures
            final(self).wf(),
            r == old(self)@.inum,
            final(self)@ == old(self)@.with_inum(None),
    {
        let r = self.inum;
        self.inum = None;
        r
    }

    /// The writes that the transaction has staged, one for each key that it
    /// has written, with the value that the key is to have.
    pub fn writes(&self) -> (w: Vec<KvWrite>)
        requires
            self.wf(),
        ensures
            forall|j: int|
                0 <= j < w@.len() ==> self@.written.contains((#[trigger] w@[j]).key()) && self@.image[w@[j].key()]
                    == w@[j].value(),
            forall|k: u64|
                self@.written.contains(k) ==> exists|j: int| 0 <= j < w@.len() && (#[trigger] w@[j]).key() == k,
            forall|i: int, j: int|
                0 <= i < j < w@.len() ==> (#[trigger] w@[i]).key() != (#[trigger] w@[j]).key(),
    {
        let mut out: Vec<KvWrite> = Vec::new();
        let ghost mut src: Seq<int> = Seq::empty();
        let mut i: usize = 0;
        while i < self.slots.len()
            invariant
                self.wf(),
                i <= self.slots.len(),
                src.len() == out@.len(),
                forall|j: int|
                    0 <= j < out@.len() ==> 0 <= #[trigger] src[j] < i && self.slots@[src[j]].dirty
                        && self.slots@[src[j]].ino == out@[j].key() && slot_value(self.slots@[src[j]])
                        == out@[j].value(),
                forall|a: int, b: int| 0 <= a < b < src.len() ==> src[a] < src[b],
                forall|k: int|
                    0 <= k < i && (#[trigger] self.slots@[k]).dirty ==> exists|j: int|
                        0 <= j < out@.len() && #[trigger] src[j] == k,
            decreases self.slots.len() - i,
        {
            if self.slots[i].dirty {
                let ghost before = out@;
                let ghost src_before = src;
                match &self.slots[i].node {
                    Some(n) => {
                        out.push(KvWrite::Put(self.slots[i].ino, n.clone_node()));
                    },
                    None => {
                        out.push(KvWrite::Delete(self.slots[i].ino));
                    },
                }
                proof {
                    src = src.push(i as int);
                    assert forall|k: int|
                        0 <= k < i + 1 && (#[trigger] self.slots@[k]).dirty implies exists|j: int|
                        0 <= j < out@.len() && #[trigger] src[j] == k by {
                        if k < i {
                            let j = choose|j: int| 0 <= j < before.len() && #[trigger] src_before[j] == k;
                            assert(src[j] == k);
                        } else {
                            assert(src[out@.len() - 1] == k);
                        }
                    }
                }
            }
            i = i + 1;
        }
        proof {
            assert forall|j: int| 0 <= j < out@.len() implies self@.written.contains(
                (#[trigger] out@[j]).key(),
            ) && self@.image[out@[j].key()] == out@[j].value() by {
                lemma_slot_index(self.slots@, src[j]);
            }
            assert forall|k: u64| self@.written.contains(k) implies exists|j: int|
                0 <= j < out@.len() && (#[trigger] out@[j]).key() == k by {
                let si = slot_index(self.slots@, k);
                let j = choose|j: int| 0 <= j < out@.len() && #[trigger] src[j] == si;
                assert(out@[j].key() == k);
            }
            assert forall|a: int, b: int| 0 <= a < b < out@.len() implies (#[trigger] out@[a]).key() != (
            #[trigger] out@[b]).key() by {
                assert(src[a] < src[b]);
            }
        }
        out
    }

    /// The side effects that the transaction has noted, oldest first.
    pub fn effects(&self) -> (e: Vec<Effect>)
        ensures
            e@.map_values(|x: Effect| x@) == self@.effects,
    {
        let mut out: Vec<Effect> = Vec::new();
        let mut i: usize = 0;
        while i < self.effects.len()
            invariant
                i <= self.effects.len(),
                out@.len() == i,
                forall|k: int| 0 <= k < i ==> (#[trigger] out@[k])@ == self.effects@[k]@,
            decreases self.effects.len() - i,
        {
            out.push(self.effects[i].clone_effect());
            i = i + 1;
        }
        assert(out@.map_values(|x: Effect| x@) =~= self@.effects);
        out
    }

    /// Takes in the bytes that the store holds under `ino`, or `None` where
    /// it holds nothing. Bytes that are not the serial form of a record
    /// show that the catalog is inconsistent at `ino`; the transaction then
    /// stays as it is.
    pub fn load_bytes(&mut self, ino: u64, raw: Option<&[u8]>) -> (r: Result<(), MetaError>)
        requires
            old(self).wf(),
        ensures
            final(self).wf(),
            match raw {
                None => r is Ok && final(self)@ == old(self)@.loaded(ino, None),
                Some(b) => match decode_spec(b@) {
                    Some(n) => r is Ok && final(self)@ == old(self)@.loaded(ino, Some(n)),
                    None => r == Err::<(), MetaError>(MetaError::InconsistentFS { ino }) && final(self)@
                        == old(self)@,
                },
            },
    {
        match raw {
            None => {
                self.load(ino, None);
                Ok(())
            },
            Some(b) => match Node::decode(b) {
                Some(n) => {
                    self.load(ino, Some(n));
                    Ok(())
                },
                None => Err(MetaError::InconsistentFS { ino }),
            },
        }
    }

    /// The writes that the transaction has staged, each in the serial form
    /// in which the store takes it.
    pub fn encoded_writes(&self) -> (w: Vec<KvBytes>)
        requires
            self.wf(),
        ensures
            forall|j: int|
                0 <= j < w@.len() ==> self@.written.contains((#[trigger] w@[j]).key) && w@[j].bytes()
                    == encoded(self@.image[w@[j].key]),
            forall|k: u64|
                self@.written.contains(k) ==> exists|j: int| 0 <= j < w@.len() && (#[trigger] w@[j]).key == k,
            forall|i: int, j: int| 0 <= i < j < w@.len() ==> (#[trigger] w@[i]).key != (#[trigger] w@[j]).key,
    {
        let writes = self.writes();
        let mut out: Vec<KvBytes> = Vec::new();
        let mut i: usize = 0;
        while i < writes.len()
            invariant
                i <= writes.len(),
                out@.len() == i,
                forall|j: int|
                    0 <= j < i ==> (#[trigger] out@[j]).key == writes@[j].key() && out@[j].bytes() == encoded(
                        writes@[j].value(),
                    ),
            decreases writes.len() - i,
        {
            match &writes[i] {
                KvWrite::Put(k, n) => {
                    out.push(KvBytes { key: *k, value: Some(n.encode()) });
                },
                KvWrite::Delete(k) => {
                    out.push(KvBytes { key: *k, value: None });
                },
            }
            i = i + 1;
        }
        assert forall|k: u64| self@.written.contains(k) implies exists|j: int|
            0 <= j < out@.len() && (#[trigger] out@[j]).key == k by {
            let j = choose|j: int| 0 <= j < writes@.len() && (#[trigger] writes@[j]).key() == k;
            assert(out@[j].key == k);
        }
        assert forall|a: int, b: int| 0 <= a < b < out@.len() implies (#[trigger] out@[a]).key != (
        #[trigger] out@[b]).key by {
            assert(writes@[a].key() != writes@[b].key());
        }
        assert forall|j: int| 0 <= j < out@.len() implies self@.written.contains(
            (#[trigger] out@[j]).key,
        ) && out@[j].bytes() == encoded(self@.image[out@[j].key]) by {
            assert(self@.written.contains(writes@[j].key()));
        }
        out
    }
}

} // verus!
