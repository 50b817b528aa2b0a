use vstd::prelude::*;

use crate::primitives::{
    Felt, FinalityStatus, Header, Receipt, SierraClass, StorageSlot, StoredBlockBodyIndices,
    Tx,
};

verus! {

/// A key of a table: a plain value whose equality can be decided.
pub trait TableKey: Sized + Copy {
    fn same(&self, other: &Self) -> (r: bool)
        ensures
            r == (*self == *other),
    ;
}

impl TableKey for u64 {
    fn same(&self, other: &u64) -> (r: bool) {
        *self == *other
    }
}

impl TableKey for Felt {
    fn same(&self, other: &Felt) -> (r: bool) {
        self.high == other.high && self.low == other.low
    }
}

impl TableKey for StorageSlot {
    fn same(&self, other: &StorageSlot) -> (r: bool) {
        self.address.same(&other.address) && self.key.same(&other.key)
    }
}

/// A value of a table, copied out on every read.
pub trait Record: Sized + View {
    fn duplicate(&self) -> (r: Self)
        ensures
            r@ == self@,
    ;
}

impl View for Felt {
    type V = Felt;

    open spec fn view(&self) -> Felt {
        *self
    }
}

impl View for Header {
    type V = Header;

    open spec fn view(&self) -> Header {
        *self
    }
}

impl View for FinalityStatus {
    type V = FinalityStatus;

    open spec fn view(&self) -> FinalityStatus {
        *self
    }
}

impl View for StoredBlockBodyIndices {
    type V = StoredBlockBodyIndices;

    open spec fn view(&self) -> StoredBlockBodyIndices {
        *self
    }
}

impl Record for u64 {
    fn duplicate(&self) -> (r: u64) {
        *self
    }
}

impl Record for Felt {
    fn duplicate(&self) -> (r: Felt) {
        *self
    }
}

impl Record for Header {
    fn duplicate(&self) -> (r: Header) {
        *self
    }
}

impl Record for FinalityStatus {
    fn duplicate(&self) -> (r: FinalityStatus) {
        *self
    }
}

impl Record for StoredBlockBodyIndices {
    fn duplicate(&self) -> (r: StoredBlockBodyIndices) {
        *self
    }
}

/// A copy of a sequence of field elements, element by element.
pub fn copy_felts(v: &Vec<Felt>) -> (r: Vec<Felt>)
    ensures
        r@ == v@,
{
    let mut r: Vec<Felt> = Vec::with_capacity(v.len());
    let mut i: usize = 0;
    while i < v.len()
        invariant
            i <= v.len(),
            r@ == v@.take(i as int),
        decreases v.len() - i,
    {
        r.push(v[i]);
        i = i + 1;
        assert(r@ =~= v@.take(i as int));
    }
    assert(v@.take(v.len() as int) =~= v@);
    r
}

impl Record for Tx {
    fn duplicate(&self) -> (r: Tx) {
        Tx {
            kind: self.kind,
            sender_address: self.sender_address,
            nonce: self.nonce,
            max_fee: self.max_fee,
            calldata: copy_felts(&self.calldata),
            signature: copy_felts(&self.signature),
        }
    }
}

impl Record for Receipt {
    fn duplicate(&self) -> (r: Receipt) {
        Receipt {
            kind: self.kind,
            actual_fee: self.actual_fee,
            reverted: self.reverted,
            events: copy_felts(&self.events),
        }
    }
}

impl Record for SierraClass {
    fn duplicate(&self) -> (r: SierraClass) {
        SierraClass { program: copy_felts(&self.program) }
    }
}

/// A key-value table: at most one entry per key, kept in insertion order.
#[verifier::reject_recursive_types(K)]
pub struct Table<K, V: View> {
    entries: Vec<(K, V)>,
    contents: Ghost<Map<K, V::V>>,
}

impl<K: TableKey, V: Record> View for Table<K, V> {
    type V = Map<K, V::V>;

    closed spec fn view(&self) -> Map<K, V::V> {
        self.contents@
    }
}

impl<K: TableKey, V: Record> Table<K, V> {
    /// The number of entries.
    pub closed spec fn entries(&self) -> nat {
        self.entries@.len()
    }

    pub closed spec fn wf(&self) -> bool {
        &&& forall|i: int, j: int|
            0 <= i < j < self.entries@.len() ==> #[trigger] self.entries@[i].0
                != #[trigger] self.entries@[j].0
        &&& forall|i: int|
            0 <= i < self.entries@.len() ==> self.contents@.contains_key(
                #[trigger] self.entries@[i].0,
            ) && self.contents@[self.entries@[i].0] == self.entries@[i].1@
        &&& forall|k: K|
            #[trigger] self.contents@.contains_key(k) ==> exists|i: int|
                0 <= i < self.entries@.len() && #[trigger] self.entries@[i].0 == k
    }

    pub fn new() -> (r: Self)
        ensures
            r.wf(),
            r@ == Map::<K, V::V>::empty(),
            r.entries() == 0,
    {
        Table { entries: Vec::new(), contents: Ghost(Map::empty()) }
    }

    pub fn len(&self) -> (r: usize)
        ensures
            r == self.entries(),
    {
        self.entries.len()
    }

    fn find(&self, k: &K) -> (r: Option<usize>)
        requires
            self.wf(),
        ensures
            r.is_some() == self@.contains_key(*k),
            r.is_some() ==> r.unwrap() < self.entries@.len() && self.entries@[r.unwrap() as int].0
                == *k,
    {
        let mut i: usize = 0;
        while i < self.entries.len()
            invariant
                self.wf(),
                i <= self.entries@.len(),
                forall|j: int| 0 <= j < i ==> #[trigger] self.entries@[j].0 != *k,
            decreases self.entries.len() - i,
        {
            if self.entries[i].0.same(k) {
                return Some(i);
            }
            i = i + 1;
        }
        None
    }

    /// A copy of the value stored under `k`, if any.
    pub fn get(&self, k: &K) -> (r: Option<V>)
        requires
            self.wf(),
        ensures
            r.is_some() == self@.contains_key(*k),
            r.is_some() ==> r.unwrap()@ == self@[*k],
    {
        match self.find(k) {
            Some(i) => Some(self.entries[i].1.duplicate()),
            None => None,
        }
    }

    /// Stores `v` under `k`, replacing what was there.
    pub fn put(&mut self, k: K, v: V)
        requires
            old(self).wf(),
        ensures
            final(self).wf(),
            final(self)@ == old(self)@.insert(k, v@),
            final(self).entries() == old(self).entries() + if old(self)@.contains_key(k) {
                0nat
            } else {
                1nat
            },
    {
        let ghost vv = v@;
        match self.find(&k) {
            Some(i) => {
                self.entries.set(i, (k, v));
                self.contents = Ghost(self.contents@.insert(k, vv));
                assert forall|kk: K| #[trigger] self.contents@.contains_key(kk) implies exists|
                    j: int,
                | 0 <= j < self.entries@.len() && #[trigger] self.entries@[j].0 == kk by {
                    if kk != k {
                        let j = choose|j: int|
                            0 <= j < old(self).entries@.len() && #[trigger] old(
                                self,
                            ).entries@[j].0 == kk;
                        assert(self.entries@[j].0 == kk);
                    } else {
                        assert(self.entries@[i as int].0 == kk);
                    }
                }
            },
            None => {
                self.entries.push((k, v));
                self.contents = Ghost(self.contents@.insert(k, vv));
                assert forall|kk: K| #[trigger] self.contents@.contains_key(kk) implies exists|
                    j: int,
                | 0 <= j < self.entries@.len() && #[trigger] self.entries@[j].0 == kk by {
                    if kk != k {
                        let j = choose|j: int|
                            0 <= j < old(self).entries@.len() && #[trigger] old(
                                self,
                            ).entries@[j].0 == kk;
                        assert(self.entries@[j].0 == kk);
                    } else {
                        assert(self.entries@[old(self).entries@.len() as int].0 == kk);
                    }
                }
            },
        }
    }
    /// A copy of the table, entry by entry.
    pub fn duplicate(&self) -> (r: Self)
        requires
            self.wf(),
        ensures
            r.wf(),
            r@ == self@,
            r.entries() == self.entries(),
    {
        let mut out: Vec<(K, V)> = Vec::with_capacity(self.entries.len());
        let mut i: usize = 0;
        while i < self.entries.len()
            invariant
                self.wf(),
                i <= self.entries@.len(),
                out@.len() == i,
                forall|j: int|
                    0 <= j < i ==> (#[trigger] out@[j]).0 == self.entries@[j].0 && out@[j].1@
                        == self.entries@[j].1@,
            decreases self.entries.len() - i,
        {
            out.push((self.entries[i].0, self.entries[i].1.duplicate()));
            i = i + 1;
        }
        let r = Table { entries: out, contents: Ghost(self.contents@) };
        assert forall|k: K| #[trigger] r.contents@.contains_key(k) implies exists|j: int|
            0 <= j < r.entries@.len() && #[trigger] r.entries@[j].0 == k by {
            let j = choose|j: int| 0 <= j < self.entries@.len() && #[trigger] self.entries@[j].0 == k;
            assert(r.entries@[j].0 == k);
        }
        assert forall|a: int, b: int| 0 <= a < b < r.entries@.len() implies #[trigger] r.entries@[a].0
            != #[trigger] r.entries@[b].0 by {
            assert(self.entries@[a].0 != self.entries@[b].0);
        }
        assert forall|a: int| 0 <= a < r.entries@.len() implies r.contents@.contains_key(
            #[trigger] r.entries@[a].0,
        ) && r.contents@[r.entries@[a].0] == r.entries@[a].1@ by {
            assert(out@[a].0 == self.entries@[a].0);
        }
        r
    }
}

} // verus!
