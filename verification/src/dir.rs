//! Directory contents: entries kept in the order of their names, one per name.

use vstd::prelude::*;
use crate::attr::FileKind;
use crate::name::{
    lemma_name_lt_asymmetric, lemma_name_lt_irreflexive, lemma_name_lt_total,
    lemma_name_lt_transitive, name_lt, name_order, name_to_vec, NameOrder,
};

verus! {

/// One entry of a directory: a name, and the inode it names.
#[derive(Debug)]
pub struct DirEntry {
    pub name: Vec<u8>,
    pub ino: u64,
    pub kind: FileKind,
}

/// The mathematical value of a [`DirEntry`].
pub struct DirEntryView {
    pub name: Seq<u8>,
    pub ino: u64,
    pub kind: FileKind,
}

impl View for DirEntry {
    type V = DirEntryView;

    open spec fn view(&self) -> DirEntryView {
        DirEntryView { name: self.name@, ino: self.ino, kind: self.kind }
    }
}

impl DirEntry {
    /// An entry that gives `name` to the inode `ino` of the given kind.
    pub fn new(name: Vec<u8>, ino: u64, kind: FileKind) -> (e: DirEntry)
        ensures
            e@ == (DirEntryView { name: name@, ino, kind }),
    {
        DirEntry { name, ino, kind }
    }

    /// The entry's name.
    pub fn entry_name(&self) -> (r: &[u8])
        ensures
            r@ == self@.name,
    {
        self.name.as_slice()
    }

    /// The inode that the entry names.
    pub fn ino(&self) -> (r: u64)
        ensures
            r == self@.ino,
    {
        self.ino
    }

    /// The kind of the inode that the entry names.
    pub fn entry_type(&self) -> (r: FileKind)
        ensures
            r == self@.kind,
    {
        self.kind
    }

    /// An owned copy of the entry.
    pub fn clone_entry(&self) -> (e: DirEntry)
        ensures
            e@ == self@,
    {
        DirEntry { name: name_to_vec(self.name.as_slice()), ino: self.ino, kind: self.kind }
    }
}

/// The entries stand in strictly ascending order of their names.
pub open spec fn sorted(s: Seq<DirEntryView>) -> bool {
    forall|i: int, j: int| 0 <= i < j < s.len() ==> name_lt(#[trigger] s[i].name, #[trigger] s[j].name)
}

/// The position of `name` in `s`: the number of entries whose names sort
/// before it, when `s` is sorted.
pub open spec fn rank(s: Seq<DirEntryView>, name: Seq<u8>) -> int
    decreases s.len(),
{
    if s.len() == 0 {
        0
    } else if name_lt(s.last().name, name) {
        s.len() as int
    } else {
        rank(s.drop_last(), name)
    }
}

/// The entry of `s` that is called `name`, if there is one.
pub open spec fn dir_get(s: Seq<DirEntryView>, name: Seq<u8>) -> Option<DirEntryView> {
    let r = rank(s, name);
    if 0 <= r < s.len() && s[r].name == name {
        Some(s[r])
    } else {
        None
    }
}

/// `s` with `e` in the place of its name: added if the name was free, else
/// put where the entry of that name was.
pub open spec fn dir_insert(s: Seq<DirEntryView>, e: DirEntryView) -> Seq<DirEntryView> {
    let r = rank(s, e.name);
    if 0 <= r < s.len() && s[r].name == e.name {
        s.update(r, e)
    } else {
        s.insert(r, e)
    }
}

/// `s` without the entry called `name`.
pub open spec fn dir_remove(s: Seq<DirEntryView>, name: Seq<u8>) -> Seq<DirEntryView> {
    let r = rank(s, name);
    if 0 <= r < s.len() && s[r].name == name {
        s.remove(r)
    } else {
        s
    }
}

/// In a sorted directory the rank of a name parts the entries that sort before
/// it from the rest.
pub proof fn lemma_rank(s: Seq<DirEntryView>, name: Seq<u8>)
    requires
        sorted(s),
    ensures
        0 <= rank(s, name) <= s.len(),
        forall|k: int| 0 <= k < rank(s, name) ==> name_lt(#[trigger] s[k].name, name),
        forall|k: int| rank(s, name) <= k < s.len() ==> !name_lt(#[trigger] s[k].name, name),
    decreases s.len(),
{
    if s.len() == 0 {
    } else if name_lt(s.last().name, name) {
        assert forall|k: int| 0 <= k < s.len() implies name_lt(#[trigger] s[k].name, name) by {
            if k < s.len() - 1 {
                lemma_name_lt_transitive(s[k].name, s.last().name, name);
            }
        }
    } else {
        let t = s.drop_last();
        assert(sorted(t)) by {
            assert forall|i: int, j: int| 0 <= i < j < t.len() implies name_lt(
                #[trigger] t[i].name,
                #[trigger] t[j].name,
            ) by {
                assert(t[i] == s[i] && t[j] == s[j]);
            }
        }
        lemma_rank(t, name);
        assert forall|k: int| 0 <= k < rank(s, name) implies name_lt(#[trigger] s[k].name, name) by {
            assert(t[k] == s[k]);
        }
        assert forall|k: int| rank(s, name) <= k < s.len() implies !name_lt(
            #[trigger] s[k].name,
            name,
        ) by {
            if k < t.len() {
                assert(t[k] == s[k]);
            }
        }
    }
}

/// The index before which every name sorts before `name`, and at which the
/// name does not, is the rank of `name`.
pub proof fn lemma_rank_at(s: Seq<DirEntryView>, name: Seq<u8>, i: int)
    requires
        sorted(s),
        0 <= i <= s.len(),
        forall|k: int| 0 <= k < i ==> name_lt(#[trigger] s[k].name, name),
        i < s.len() ==> !name_lt(s[i].name, name),
    ensures
        rank(s, name) == i,
{
    lemma_rank(s, name);
    let r = rank(s, name);
    if r < i {
        assert(name_lt(s[r].name, name));
    } else if r > i {
        assert(name_lt(s[r - 1].name, name));
        if i < r - 1 {
            lemma_name_lt_transitive(s[i].name, s[r - 1].name, name);
        }
    }
}

/// Every entry of a sorted directory is found under its own name.
pub proof fn lemma_get_at(s: Seq<DirEntryView>, i: int)
    requires
        sorted(s),
        0 <= i < s.len(),
    ensures
        rank(s, s[i].name) == i,
        dir_get(s, s[i].name) == Some(s[i]),
{
    lemma_name_lt_irreflexive(s[i].name);
    lemma_rank_at(s, s[i].name, i);
}

/// What a lookup finds is an entry of the directory with the name asked for;
/// where it finds nothing, no entry has that name.
pub proof fn lemma_get(s: Seq<DirEntryView>, name: Seq<u8>)
    requires
        sorted(s),
    ensures
        dir_get(s, name) matches Some(e) ==> e.name == name && 0 <= rank(s, name) < s.len() && s[rank(
            s,
            name,
        )] == e,
        dir_get(s, name) is None ==> forall|i: int| 0 <= i < s.len() ==> (#[trigger] s[i]).name != name,
{
    lemma_rank(s, name);
    if dir_get(s, name) is None {
        assert forall|i: int| 0 <= i < s.len() implies (#[trigger] s[i]).name != name by {
            if s[i].name == name {
                lemma_get_at(s, i);
            }
        }
    }
}

/// Inserting keeps the order, and changes what is found under the inserted
/// name only.
pub proof fn lemma_insert(s: Seq<DirEntryView>, e: DirEntryView)
    requires
        sorted(s),
    ensures
        sorted(dir_insert(s, e)),
        dir_get(dir_insert(s, e), e.name) == Some(e),
        forall|n: Seq<u8>| n != e.name ==> #[trigger] dir_get(dir_insert(s, e), n) == dir_get(s, n),
        dir_insert(s, e).len() == if dir_get(s, e.name) is Some {
            s.len()
        } else {
            s.len() + 1
        },
{
    let r = rank(s, e.name);
    let t = dir_insert(s, e);
    lemma_rank(s, e.name);
    let replace = 0 <= r < s.len() && s[r].name == e.name;
    // the index in `t` of the entry at index `k` of `s`
    let to = |k: int| if replace || k < r { k } else { k + 1 };
    assert(sorted(t)) by {
        assert forall|i: int, j: int| 0 <= i < j < t.len() implies name_lt(
            #[trigger] t[i].name,
            #[trigger] t[j].name,
        ) by {
            if replace {
                assert(t[i].name == s[i].name && t[j].name == s[j].name);
            } else {
                if j < r {
                    assert(t[i] == s[i] && t[j] == s[j]);
                } else if j == r {
                    assert(t[i] == s[i]);
                    assert(name_lt(s[i].name, e.name));
                } else if i < r {
                    assert(t[i] == s[i] && t[j] == s[j - 1]);
                } else if i == r {
                    assert(t[j] == s[j - 1]);
                    assert(!name_lt(s[j - 1].name, e.name));
                    lemma_name_lt_total(s[j - 1].name, e.name);
                    lemma_get(s, e.name);
                } else {
                    assert(t[i] == s[i - 1] && t[j] == s[j - 1]);
                }
            }
        }
    }
    assert(t[r] == e);
    lemma_get_at(t, r);
    assert forall|n: Seq<u8>| n != e.name implies #[trigger] dir_get(t, n) == dir_get(s, n) by {
        lemma_get(s, n);
        lemma_get(t, n);
        match dir_get(s, n) {
            Some(x) => {
                let k = rank(s, n);
                assert(t[to(k)] == x);
                lemma_get_at(t, to(k));
            },
            None => {
                if dir_get(t, n) is Some {
                    let k2 = rank(t, n);
                    assert(t[k2].name == n);
                    if replace {
                        assert(t[k2] == s[k2]);
                    } else if k2 < r {
                        assert(t[k2] == s[k2]);
                    } else {
                        assert(t[k2] == s[k2 - 1]);
                    }
                }
            },
        }
    }
}

/// Removing keeps the order, and changes what is found under the removed name
/// only.
pub proof fn lemma_remove(s: Seq<DirEntryView>, name: Seq<u8>)
    requires
        sorted(s),
    ensures
        sorted(dir_remove(s, name)),
        dir_get(dir_remove(s, name), name) is None,
        forall|n: Seq<u8>| n != name ==> #[trigger] dir_get(dir_remove(s, name), n) == dir_get(s, n),
        dir_remove(s, name).len() == if dir_get(s, name) is Some {
            s.len() - 1
        } else {
            s.len() as int
        },
{
    let r = rank(s, name);
    let t = dir_remove(s, name);
    lemma_rank(s, name);
    lemma_get(s, name);
    if dir_get(s, name) is Some {
        assert(sorted(t)) by {
            assert forall|i: int, j: int| 0 <= i < j < t.len() implies name_lt(
                #[trigger] t[i].name,
                #[trigger] t[j].name,
            ) by {
                let si = if i < r { i } else { i + 1 };
                let sj = if j < r { j } else { j + 1 };
                assert(t[i] == s[si] && t[j] == s[sj]);
            }
        }
        assert forall|n: Seq<u8>| #[trigger] dir_get(t, n) == if n == name {
            None
        } else {
            dir_get(s, n)
        } by {
            lemma_get(s, n);
            lemma_get(t, n);
            if dir_get(t, n) is Some {
                let k2 = rank(t, n);
                let sk = if k2 < r { k2 } else { k2 + 1 };
                assert(t[k2] == s[sk]);
                lemma_get_at(s, sk);
                lemma_get_at(s, r);
            } else if n != name {
                if dir_get(s, n) is Some {
                    let k = rank(s, n);
                    let tk = if k < r { k } else { k - 1 };
                    assert(t[tk] == s[k]);
                }
            }
        }
    }
}

/// Adding an entry under a free name and removing that name again gives the
/// directory back.
pub proof fn lemma_insert_remove(s: Seq<DirEntryView>, e: DirEntryView)
    requires
        sorted(s),
        dir_get(s, e.name) is None,
    ensures
        dir_remove(dir_insert(s, e), e.name) == s,
{
    let r = rank(s, e.name);
    lemma_rank(s, e.name);
    lemma_insert(s, e);
    let t = dir_insert(s, e);
    assert(t[r] == e);
    lemma_get_at(t, r);
    assert(t.remove(r) =~= s);
}

/// Removing an entry and inserting it again gives the directory back.
pub proof fn lemma_remove_insert(s: Seq<DirEntryView>, name: Seq<u8>)
    requires
        sorted(s),
        dir_get(s, name) is Some,
    ensures
        dir_insert(dir_remove(s, name), dir_get(s, name)->0) == s,
{
    let r = rank(s, name);
    let e = s[r];
    lemma_rank(s, name);
    lemma_get(s, name);
    lemma_remove(s, name);
    let t = dir_remove(s, name);
    lemma_name_lt_irreflexive(name);
    assert(rank(t, name) == r) by {
        assert forall|k: int| 0 <= k < r implies name_lt(#[trigger] t[k].name, name) by {
            assert(t[k] == s[k]);
        }
        if r < t.len() {
            assert(t[r] == s[r + 1]);
            lemma_name_lt_asymmetric(s[r].name, s[r + 1].name);
        }
        lemma_rank_at(t, name, r);
    }
    lemma_get(t, name);
    assert(t.insert(r, e) =~= s);
}

/// Two sorted directories in which every name finds the same are the same.
pub proof fn lemma_dir_ext(s: Seq<DirEntryView>, t: Seq<DirEntryView>)
    requires
        sorted(s),
        sorted(t),
        forall|n: Seq<u8>| dir_get(s, n) == dir_get(t, n),
    ensures
        s == t,
    decreases s.len(),
{
    if s.len() == 0 {
        if t.len() > 0 {
            lemma_get_at(t, 0);
            assert(dir_get(s, t[0].name) is None);
        }
        assert(s =~= t);
    } else {
        let e = s.last();
        lemma_get_at(s, s.len() - 1);
        lemma_get(t, e.name);
        let j = rank(t, e.name);
        assert(t[j] == e);
        if j < t.len() - 1 {
            let f = t.last();
            lemma_get_at(t, t.len() - 1);
            lemma_get(s, f.name);
            let i = rank(s, f.name);
            assert(s[i] == f);
            assert(name_lt(e.name, f.name));
            if i < s.len() - 1 {
                lemma_name_lt_asymmetric(s[i].name, e.name);
            } else {
                lemma_name_lt_irreflexive(e.name);
            }
        }
        lemma_remove(s, e.name);
        lemma_remove(t, e.name);
        assert(dir_remove(s, e.name) =~= s.drop_last());
        assert(dir_remove(t, e.name) =~= t.drop_last());
        lemma_dir_ext(s.drop_last(), t.drop_last());
        assert(s =~= s.drop_last().push(e));
        assert(t =~= t.drop_last().push(e));
    }
}

/// Entries of which each sorts before the next are sorted.
pub proof fn lemma_sorted_from_adjacent(s: Seq<DirEntryView>)
    requires
        forall|i: int| 0 <= i < s.len() - 1 ==> name_lt(#[trigger] s[i].name, s[i + 1].name),
    ensures
        sorted(s),
{
    assert forall|i: int, j: int| 0 <= i < j < s.len() implies name_lt(
        #[trigger] s[i].name,
        #[trigger] s[j].name,
    ) by {
        lemma_adjacent_reach(s, i, j);
    }
}

proof fn lemma_adjacent_reach(s: Seq<DirEntryView>, i: int, j: int)
    requires
        forall|k: int| 0 <= k < s.len() - 1 ==> name_lt(#[trigger] s[k].name, s[k + 1].name),
        0 <= i < j < s.len(),
    ensures
        name_lt(s[i].name, s[j].name),
    decreases j - i,
{
    if j > i + 1 {
        lemma_adjacent_reach(s, i, j - 1);
        assert(name_lt(s[j - 1].name, s[j - 1 + 1].name));
        lemma_name_lt_transitive(s[i].name, s[j - 1].name, s[j].name);
    } else {
        assert(name_lt(s[i].name, s[i + 1].name));
    }
}

/// The values of a list of entries.
pub open spec fn entries_view(v: Seq<DirEntry>) -> Seq<DirEntryView> {
    v.map_values(|e: DirEntry| e@)
}

/// The entries of a directory, kept in the order of their names.
#[derive(Debug)]
pub struct DirData {
    entries: Vec<DirEntry>,
}

impl View for DirData {
    type V = Seq<DirEntryView>;

    closed spec fn view(&self) -> Seq<DirEntryView> {
        self.entries@.map_values(|e: DirEntry| e@)
    }
}

/// The value of an entry that may be missing.
pub open spec fn entry_view(e: Option<DirEntry>) -> Option<DirEntryView> {
    match e {
        Some(e) => Some(e@),
        None => None,
    }
}

/// The value of a borrowed entry that may be missing.
pub open spec fn entry_ref_view(e: Option<&DirEntry>) -> Option<DirEntryView> {
    match e {
        Some(e) => Some(e@),
        None => None,
    }
}

impl DirData {
    /// The entries are sorted by name, so that no name occurs twice.
    pub open spec fn wf(&self) -> bool {
        sorted(self@)
    }

    /// A directory without entries.
    pub fn new() -> (d: DirData)
        ensures
            d.wf(),
            d@ == Seq::<DirEntryView>::empty(),
    {
        let d = DirData { entries: Vec::new() };
        assert(d@ =~= Seq::<DirEntryView>::empty());
        d
    }

    /// The directory that holds `entries`, if they stand in the order of
    /// their names and no name occurs twice.
    pub fn from_sorted(entries: Vec<DirEntry>) -> (r: Option<DirData>)
        ensures
            match r {
                Some(d) => d.wf() && d@ == entries_view(entries@),
                None => !sorted(entries_view(entries@)),
            },
    {
        let ghost s = entries_view(entries@);
        let mut i: usize = 1;
        while i < entries.len()
            invariant
                1 <= i,
                s == entries_view(entries@),
                forall|k: int| 0 <= k < i - 1 && k < s.len() - 1 ==> name_lt(#[trigger] s[k].name, s[k + 1].name),
            decreases entries.len() - i,
        {
            match name_order(entries[i - 1].name.as_slice(), entries[i].name.as_slice()) {
                NameOrder::Less => {},
                _ => {
                    assert(s[i - 1].name == entries@[i - 1].name@ && s[i as int].name == entries@[i as int].name@);
                    assert(!name_lt(s[i - 1].name, s[i as int].name));
                    return None;
                },
            }
            assert(s[i - 1].name == entries@[i - 1].name@ && s[i as int].name == entries@[i as int].name@);
            i = i + 1;
        }
        proof {
            lemma_sorted_from_adjacent(s);
        }
        Some(DirData { entries })
    }

    /// The number of entries.
    pub fn len(&self) -> (n: usize)
        ensures
            n == self@.len(),
    {
        self.entries.len()
    }

    /// Whether the directory has no entry.
    pub fn is_empty(&self) -> (r: bool)
        ensures
            r == (self@.len() == 0),
    {
        self.entries.len() == 0
    }

    /// The entry at position `i` of the listing.
    pub fn entry(&self, i: usize) -> (e: &DirEntry)
        requires
            i < self@.len(),
        ensures
            e@ == self@[i as int],
    {
        &self.entries[i]
    }

    /// The rank of `name`, and whether an entry of that name stands there.
    fn locate(&self, name: &[u8]) -> (r: (usize, bool))
        requires
            self.wf(),
        ensures
            r.0 == rank(self@, name@),
            r.1 == dir_get(self@, name@).is_some(),
            r.0 <= self@.len(),
            r.1 ==> r.0 < self@.len(),
    {
        let mut i: usize = 0;
        while i < self.entries.len()
            invariant
                self.wf(),
                i <= self.entries.len(),
                forall|k: int| 0 <= k < i ==> name_lt(#[trigger] self@[k].name, name@),
            decreases self.entries.len() - i,
        {
            match name_order(self.entries[i].name.as_slice(), name) {
                NameOrder::Less => {
                    i = i + 1;
                },
                NameOrder::Equal => {
                    proof {
                        lemma_name_lt_irreflexive(name@);
                        lemma_rank_at(self@, name@, i as int);
                    }
                    return (i, true);
                },
                NameOrder::Greater => {
                    proof {
                        lemma_name_lt_asymmetric(name@, self@[i as int].name);
                        lemma_rank_at(self@, name@, i as int);
                    }
                    return (i, false);
                },
            }
        }
        proof {
            lemma_rank_at(self@, name@, i as int);
        }
        (i, false)
    }

    /// The entry called `name`.
    pub fn get(&self, name: &[u8]) -> (r: Option<&DirEntry>)
        requires
            self.wf(),
        ensures
            entry_ref_view(r) == dir_get(self@, name@),
    {
        let (i, found) = self.locate(name);
        if found {
            Some(&self.entries[i])
        } else {
            None
        }
    }

    /// Puts `e` under its name, and hands back the entry that had the name.
    pub fn insert(&mut self, e: DirEntry) -> (prev: Option<DirEntry>)
        requires
            old(self).wf(),
        ensures
            final(self).wf(),
            final(self)@ == dir_insert(old(self)@, e@),
            entry_view(prev) == dir_get(old(self)@, e@.name),
    {
        proof {
            lemma_insert(self@, e@);
        }
        let (i, found) = self.locate(e.name.as_slice());
        if found {
            let prev = self.entries.remove(i);
            self.entries.insert(i, e);
            assert(self@ =~= dir_insert(old(self)@, e@));
            Some(prev)
        } else {
            self.entries.insert(i, e);
            assert(self@ =~= dir_insert(old(self)@, e@));
            None
        }
    }

    /// Takes the entry called `name` out of the directory.
    pub fn remove(&mut self, name: &[u8]) -> (prev: Option<DirEntry>)
        requires
            old(self).wf(),
        ensures
            final(self).wf(),
            final(self)@ == dir_remove(old(self)@, name@),
            entry_view(prev) == dir_get(old(self)@, name@),
    {
        proof {
            lemma_remove(self@, name@);
        }
        let (i, found) = self.locate(name);
        if found {
            let prev = self.entries.remove(i);
            assert(self@ =~= dir_remove(old(self)@, name@));
            Some(prev)
        } else {
            None
        }
    }

    /// An owned copy of the directory.
    pub fn clone_dir(&self) -> (d: DirData)
        ensures
            d@ == self@,
    {
        let mut entries: Vec<DirEntry> = Vec::new();
        let mut i: usize = 0;
        while i < self.entries.len()
            invariant
                i <= self.entries.len(),
                entries@.len() == i,
                forall|k: int| 0 <= k < i ==> (#[trigger] entries@[k])@ == self.entries@[k]@,
            decreases self.entries.len() - i,
        {
            entries.push(self.entries[i].clone_entry());
            i = i + 1;
        }
        let d = DirData { entries };
        assert(d@ =~= self@);
        d
    }
}

} // verus!
