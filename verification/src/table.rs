//! A finite map held as a list of entries in which no key occurs twice.

use vstd::prelude::*;

verus! {

/// A type whose values serve as keys: two keys are the same key when their
/// identities are equal.
pub trait Key: Sized {
    /// The mathematical identity of a key.
    type Id;

    spec fn id(&self) -> Self::Id;

    fn same(&self, other: &Self) -> (b: bool)
        ensures
            b == (self.id() == other.id()),
    ;

    fn clone_key(&self) -> (copy: Self)
        ensures
            copy.id() == self.id(),
    ;
}

/// A type whose values are held in a table: what a value means is its model.
pub trait Stored: Sized {
    /// What a stored value means.
    type Model;

    spec fn model(&self) -> Self::Model;

    fn clone_value(&self) -> (copy: Self)
        ensures
            copy.model() == self.model(),
    ;
}

impl Key for String {
    type Id = Seq<char>;

    open spec fn id(&self) -> Seq<char> {
        self@
    }

    fn same(&self, other: &Self) -> (b: bool) {
        *self == *other
    }

    fn clone_key(&self) -> (copy: Self) {
        self.clone()
    }
}

impl Key for u16 {
    type Id = u16;

    open spec fn id(&self) -> u16 {
        *self
    }

    fn same(&self, other: &Self) -> (b: bool) {
        *self == *other
    }

    fn clone_key(&self) -> (copy: Self) {
        *self
    }
}

impl Stored for u32 {
    type Model = nat;

    open spec fn model(&self) -> nat {
        *self as nat
    }

    fn clone_value(&self) -> (copy: Self) {
        *self
    }
}

/// A finite map from keys to values.
pub struct Table<K: Key, V: Stored> {
    entries: Vec<(K, V)>,
}

impl<K: Key, V: Stored> View for Table<K, V> {
    type V = Map<K::Id, V::Model>;

    /// The map that the table stands for.
    closed spec fn view(&self) -> Map<K::Id, V::Model> {
        Map::new(
            |id: K::Id| self.ids().contains(id),
            |id: K::Id| self.entries@[self.ids().index_of(id)].1.model(),
        )
    }
}

impl<K: Key, V: Stored> Table<K, V> {
    #[verifier::type_invariant]
    spec fn distinct(&self) -> bool {
        forall|i: int, j: int|
            0 <= i < j < self.entries@.len() ==> self.entries@[i].0.id() != self.entries@[j].0.id()
    }

    /// The identities of the keys, in the order in which the entries are
    /// held.
    pub closed spec fn ids(&self) -> Seq<K::Id> {
        Seq::new(self.entries@.len(), |i: int| self.entries@[i].0.id())
    }

    /// The identities are those of the map, each once.
    pub open spec fn ids_fit(&self) -> bool {
        &&& self.ids().no_duplicates()
        &&& forall|id: K::Id| self@.contains_key(id) <==> self.ids().contains(id)
    }

    proof fn lemma_entry(&self, i: int)
        requires
            self.distinct(),
            0 <= i < self.entries@.len(),
        ensures
            self.ids().contains(self.entries@[i].0.id()),
            self.ids().index_of(self.entries@[i].0.id()) == i,
            self@.contains_key(self.entries@[i].0.id()),
            self@[self.entries@[i].0.id()] == self.entries@[i].1.model(),
    {
        let id = self.entries@[i].0.id();
        assert(self.ids()[i] == id);
        let at = self.ids().index_of(id);
        assert(0 <= at < self.ids().len() && self.ids()[at] == id);
        if at < i {
            assert(self.entries@[at].0.id() != self.entries@[i].0.id());
        } else if i < at {
            assert(self.entries@[i].0.id() != self.entries@[at].0.id());
        }
    }

    proof fn lemma_absent(&self, id: K::Id)
        requires
            forall|i: int| 0 <= i < self.entries@.len() ==> self.entries@[i].0.id() != id,
        ensures
            !self@.contains_key(id),
    {
        if self.ids().contains(id) {
            let at = choose|at: int| 0 <= at < self.ids().len() && self.ids()[at] == id;
            assert(self.entries@[at].0.id() == id);
        }
    }

    /// What the map holds for a key is the model of a stored value.
    pub proof fn lemma_value_stored(&self, id: K::Id)
        requires
            self@.contains_key(id),
        ensures
            exists|value: V| value.model() == self@[id],
    {
        let value = self.entries@[self.ids().index_of(id)].1;
        assert(value.model() == self@[id]);
    }

    /// The table without entries.
    pub fn new() -> (table: Self)
        ensures
            table@ == Map::<K::Id, V::Model>::empty(),
            table.ids() == Seq::<K::Id>::empty(),
    {
        let table = Table { entries: Vec::new() };
        assert(table@ =~= Map::<K::Id, V::Model>::empty());
        assert(table.ids() =~= Seq::<K::Id>::empty());
        table
    }

    /// The number of entries.
    pub fn len(&self) -> (n: usize)
        ensures
            n == self.ids().len(),
            self.ids_fit(),
    {
        proof {
            use_type_invariant(self);
            assert forall|i: int, j: int|
                0 <= i < self.ids().len() && 0 <= j < self.ids().len() && i != j implies self.ids()[i]
                != self.ids()[j] by {
                if i < j {
                    assert(self.entries@[i].0.id() != self.entries@[j].0.id());
                } else {
                    assert(self.entries@[j].0.id() != self.entries@[i].0.id());
                }
            }
        }
        self.entries.len()
    }

    /// The key of the entry at position `i`.
    pub fn key_at(&self, i: usize) -> (key: &K)
        requires
            i < self.ids().len(),
        ensures
            key.id() == self.ids()[i as int],
            self@.contains_key(key.id()),
    {
        proof {
            use_type_invariant(self);
            self.lemma_entry(i as int);
        }
        &self.entries[i].0
    }

    /// The value of the entry at position `i`.
    pub fn value_at(&self, i: usize) -> (value: &V)
        requires
            i < self.ids().len(),
        ensures
            self@.contains_key(self.ids()[i as int]),
            value.model() == self@[self.ids()[i as int]],
    {
        proof {
            use_type_invariant(self);
            self.lemma_entry(i as int);
        }
        &self.entries[i].1
    }

    /// The position of the entry for `key`.
    fn position(&self, key: &K) -> (at: Option<usize>)
        ensures
            match at {
                Some(i) => i < self.entries@.len() && self.entries@[i as int].0.id() == key.id(),
                None => forall|i: int|
                    0 <= i < self.entries@.len() ==> self.entries@[i].0.id() != key.id(),
            },
    {
        let mut i: usize = 0;
        while i < self.entries.len()
            invariant
                i <= self.entries@.len(),
                forall|j: int| 0 <= j < i ==> self.entries@[j].0.id() != key.id(),
            decreases self.entries@.len() - i,
        {
            if self.entries[i].0.same(key) {
                return Some(i);
            }
            i += 1;
        }
        None
    }

    /// Whether the table holds an entry for `key`.
    pub fn contains_key(&self, key: &K) -> (held: bool)
        ensures
            held == self@.contains_key(key.id()),
    {
        proof {
            use_type_invariant(self);
        }
        match self.position(key) {
            Some(i) => {
                proof {
                    self.lemma_entry(i as int);
                }
                true
            },
            None => {
                proof {
                    self.lemma_absent(key.id());
                }
                false
            },
        }
    }

    /// The value held for `key`.
    pub fn get(&self, key: &K) -> (value: Option<&V>)
        ensures
            match value {
                Some(v) => self@.contains_key(key.id()) && v.model() == self@[key.id()],
                None => !self@.contains_key(key.id()),
            },
    {
        proof {
            use_type_invariant(self);
        }
        match self.position(key) {
            Some(i) => {
                proof {
                    self.lemma_entry(i as int);
                }
                Some(&self.entries[i].1)
            },
            None => {
                proof {
                    self.lemma_absent(key.id());
                }
                None
            },
        }
    }

    /// Holds `value` for `key` from now on, in place of what was held for it.
    /// A key that is new comes last; the order of the others stays.
    pub fn insert(&mut self, key: K, value: V)
        ensures
            final(self)@ == old(self)@.insert(key.id(), value.model()),
            final(self).ids() == if old(self)@.contains_key(key.id()) {
                old(self).ids()
            } else {
                old(self).ids().push(key.id())
            },
    {
        proof {
            use_type_invariant(&*self);
        }
        let ghost before = *self;
        let ghost id = key.id();
        let ghost model = value.model();
        match self.position(&key) {
            Some(i) => {
                let ghost was = self.entries@;
                let mut entries: Vec<(K, V)> = Vec::new();
                core::mem::swap(&mut self.entries, &mut entries);
                entries.remove(i);
                entries.insert(i, (key, value));
                proof {
                    assert(entries@ =~= was.update(i as int, (key, value)));
                    assert forall|a: int, b: int| 0 <= a < b < entries@.len() implies entries@[a].0.id()
                        != entries@[b].0.id() by {
                        assert(was[a].0.id() != was[b].0.id());
                    }
                }
                core::mem::swap(&mut self.entries, &mut entries);
                proof {
                    assert(self.ids() =~= before.ids());
                    assert forall|k: K::Id| #[trigger]
                        self@.contains_key(k) == before@.insert(id, model).contains_key(k) by {
                        before.lemma_entry(i as int);
                    }
                    assert forall|k: K::Id| self@.contains_key(k) implies #[trigger] self@[k]
                        == before@.insert(id, model)[k] by {
                        let at = self.ids().index_of(k);
                        assert(0 <= at < self.ids().len() && self.ids()[at] == k);
                        before.lemma_entry(at);
                        before.lemma_entry(i as int);
                    }
                    assert(self@ =~= before@.insert(id, model));
                }
            },
            None => {
                let mut entries: Vec<(K, V)> = Vec::new();
                core::mem::swap(&mut self.entries, &mut entries);
                entries.push((key, value));
                core::mem::swap(&mut self.entries, &mut entries);
                proof {
                    let n = before.entries@.len() as int;
                    assert(self.ids() =~= before.ids().push(id));
                    before.lemma_absent(id);
                    assert forall|k: K::Id| #[trigger]
                        self@.contains_key(k) == before@.insert(id, model).contains_key(k) by {
                        if before.ids().contains(k) {
                            let at = before.ids().index_of(k);
                            assert(self.ids()[at] == k);
                        }
                        if self.ids().contains(k) && k != id {
                            let at = self.ids().index_of(k);
                            assert(0 <= at < self.ids().len() && self.ids()[at] == k);
                            assert(before.ids()[at] == k);
                        }
                        assert(self.ids()[n] == id);
                    }
                    assert forall|k: K::Id| self@.contains_key(k) implies #[trigger] self@[k]
                        == before@.insert(id, model)[k] by {
                        let at = self.ids().index_of(k);
                        assert(0 <= at < self.ids().len() && self.ids()[at] == k);
                        self.lemma_entry(at);
                        if at < n {
                            before.lemma_entry(at);
                        }
                    }
                    assert(self@ =~= before@.insert(id, model));
                }
            },
        }
    }

    /// Takes the entry for `key` out of the table and hands its value over.
    /// The order of the other entries stays.
    pub fn remove(&mut self, key: &K) -> (value: Option<V>)
        ensures
            final(self)@ == old(self)@.remove(key.id()),
            final(self).ids() == if old(self)@.contains_key(key.id()) {
                old(self).ids().remove(old(self).ids().index_of(key.id()))
            } else {
                old(self).ids()
            },
            match value {
                Some(v) => old(self)@.contains_key(key.id()) && v.model() == old(self)@[key.id()],
                None => !old(self)@.contains_key(key.id()),
            },
    {
        proof {
            use_type_invariant(&*self);
        }
        let ghost before = *self;
        let ghost id = key.id();
        match self.position(key) {
            Some(i) => {
                let mut entries: Vec<(K, V)> = Vec::new();
                core::mem::swap(&mut self.entries, &mut entries);
                let entry = entries.remove(i);
                proof {
                    assert forall|a: int, b: int| 0 <= a < b < entries@.len() implies entries@[a].0.id()
                        != entries@[b].0.id() by {
                        let a0 = if a < i { a } else { a + 1 };
                        let b0 = if b < i { b } else { b + 1 };
                        assert(before.entries@[a0].0.id() != before.entries@[b0].0.id());
                    }
                }
                core::mem::swap(&mut self.entries, &mut entries);
                proof {
                    before.lemma_entry(i as int);
                    assert(self.ids() =~= before.ids().remove(i as int));
                    assert forall|k: K::Id| #[trigger]
                        self@.contains_key(k) == before@.remove(id).contains_key(k) by {
                        if self.ids().contains(k) {
                            let at = self.ids().index_of(k);
                            assert(0 <= at < self.ids().len() && self.ids()[at] == k);
                            let at0 = if at < i { at } else { at + 1 };
                            assert(before.ids()[at0] == k);
                            assert(before.entries@[at0].0.id() != before.entries@[i as int].0.id()
                                || at0 == i);
                        }
                        if before.ids().contains(k) && k != id {
                            let at0 = before.ids().index_of(k);
                            assert(0 <= at0 < before.ids().len() && before.ids()[at0] == k);
                            let at = if at0 < i { at0 } else { at0 - 1 };
                            assert(self.ids()[at] == k);
                        }
                    }
                    assert forall|k: K::Id| self@.contains_key(k) implies #[trigger] self@[k]
                        == before@.remove(id)[k] by {
                        let at = self.ids().index_of(k);
                        assert(0 <= at < self.ids().len() && self.ids()[at] == k);
                        self.lemma_entry(at);
                        let at0 = if at < i { at } else { at + 1 };
                        before.lemma_entry(at0);
                    }
                    assert(self@ =~= before@.remove(id));
                }
                Some(entry.1)
            },
            None => {
                proof {
                    before.lemma_absent(id);
                    assert(self@ =~= before@.remove(id));
                }
                None
            },
        }
    }
}

impl<K: Key, V: Stored> Clone for Table<K, V> {
    /// A table that stands for the same map, with its entries in the same
    /// order.
    fn clone(&self) -> (copy: Self)
        ensures
            copy@ == self@,
            copy.ids() == self.ids(),
    {
        proof {
            use_type_invariant(self);
        }
        let mut entries: Vec<(K, V)> = Vec::new();
        let mut i: usize = 0;
        while i < self.entries.len()
            invariant
                i <= self.entries@.len(),
                entries@.len() == i,
                forall|j: int|
                    0 <= j < i ==> entries@[j].0.id() == self.entries@[j].0.id()
                        && entries@[j].1.model() == self.entries@[j].1.model(),
            decreases self.entries@.len() - i,
        {
            let key = self.entries[i].0.clone_key();
            let value = self.entries[i].1.clone_value();
            entries.push((key, value));
            i += 1;
        }
        let copy = Table { entries };
        proof {
            assert(copy.ids() =~= self.ids());
            assert forall|k: K::Id| copy@.contains_key(k) implies #[trigger] copy@[k]
                == self@[k] by {
                let at = copy.ids().index_of(k);
                assert(0 <= at < copy.ids().len() && copy.ids()[at] == k);
            }
            assert(copy@ =~= self@);
        }
        copy
    }
}

} // verus!
