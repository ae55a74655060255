//! A map kept in the order of its keys.

use crate::text::chars_of;
use vstd::prelude::*;

verus! {

/// Where a key stands relative to another.
#[derive(Debug, Clone, Copy, PartialEq, Eq, Structural)]
pub enum Place {
    Before,
    Same,
    After,
}

/// Keys with a strict total order on what they stand for.
pub trait Key: Sized {
    /// What a key stands for.
    type Model;

    /// What this key stands for.
    spec fn model(&self) -> Self::Model;

    /// Whether `a` comes before `b`.
    spec fn before(a: Self::Model, b: Self::Model) -> bool;

    proof fn irreflexive(a: Self::Model)
        ensures
            !Self::before(a, a),
    ;

    proof fn transitive(a: Self::Model, b: Self::Model, c: Self::Model)
        requires
            Self::before(a, b),
            Self::before(b, c),
        ensures
            Self::before(a, c),
    ;

    /// Where this key stands relative to `other`.
    fn place(&self, other: &Self) -> (p: Place)
        ensures
            match p {
                Place::Before => Self::before(self.model(), other.model()),
                Place::Same => self.model() == other.model(),
                Place::After => Self::before(other.model(), self.model()),
            },
    ;
}

impl Key for u8 {
    type Model = u8;

    open spec fn model(&self) -> u8 {
        *self
    }

    open spec fn before(a: u8, b: u8) -> bool {
        a < b
    }

    proof fn irreflexive(a: u8) {
    }

    proof fn transitive(a: u8, b: u8, c: u8) {
    }

    fn place(&self, other: &u8) -> (p: Place) {
        if *self < *other {
            Place::Before
        } else if *self == *other {
            Place::Same
        } else {
            Place::After
        }
    }
}

/// Lexicographic order of texts, character by character.
pub open spec fn text_before(a: Seq<char>, b: Seq<char>) -> bool
    decreases a.len(),
{
    if b.len() == 0 {
        false
    } else if a.len() == 0 {
        true
    } else if a[0] != b[0] {
        a[0] < b[0]
    } else {
        text_before(a.skip(1), b.skip(1))
    }
}

proof fn lemma_text_irreflexive(a: Seq<char>)
    ensures
        !text_before(a, a),
    decreases a.len(),
{
    if a.len() > 0 {
        lemma_text_irreflexive(a.skip(1));
    }
}

proof fn lemma_text_transitive(a: Seq<char>, b: Seq<char>, c: Seq<char>)
    requires
        text_before(a, b),
        text_before(b, c),
    ensures
        text_before(a, c),
    decreases a.len(),
{
    if a.len() > 0 && a[0] == b[0] && b[0] == c[0] {
        lemma_text_transitive(a.skip(1), b.skip(1), c.skip(1));
    }
}

impl Key for String {
    type Model = Seq<char>;

    open spec fn model(&self) -> Seq<char> {
        self@
    }

    open spec fn before(a: Seq<char>, b: Seq<char>) -> bool {
        text_before(a, b)
    }

    proof fn irreflexive(a: Seq<char>) {
        lemma_text_irreflexive(a);
    }

    proof fn transitive(a: Seq<char>, b: Seq<char>, c: Seq<char>) {
        lemma_text_transitive(a, b, c);
    }

    fn place(&self, other: &String) -> (p: Place) {
        let a: Vec<char> = chars_of(self.as_str());
        let b: Vec<char> = chars_of(other.as_str());
        let mut i: usize = 0;
        assert(a@.skip(0) =~= a@);
        assert(b@.skip(0) =~= b@);
        while i < a.len() && i < b.len() && a[i] == b[i]
            invariant
                i <= a@.len(),
                i <= b@.len(),
                a@.take(i as int) == b@.take(i as int),
                text_before(a@, b@) == text_before(a@.skip(i as int), b@.skip(i as int)),
                text_before(b@, a@) == text_before(b@.skip(i as int), a@.skip(i as int)),
            decreases a@.len() - i,
        {
            assert(a@.skip(i as int).skip(1) =~= a@.skip(i + 1));
            assert(b@.skip(i as int).skip(1) =~= b@.skip(i + 1));
            assert(a@.take(i + 1) =~= a@.take(i as int).push(a@[i as int]));
            assert(b@.take(i + 1) =~= b@.take(i as int).push(b@[i as int]));
            i = i + 1;
        }
        if i == a.len() {
            if i == b.len() {
                assert(a@.take(i as int) =~= a@);
                assert(b@.take(i as int) =~= b@);
                Place::Same
            } else {
                Place::Before
            }
        } else if i == b.len() || b[i] < a[i] {
            Place::After
        } else {
            Place::Before
        }
    }
}

/// A map from keys to values, each key once, in the order of the keys.
#[derive(Debug, Clone)]
#[verifier::reject_recursive_types(K)]
pub struct OrderedMap<K: Key, V> {
    keys: Vec<K>,
    values: Vec<V>,
}

impl<K: Key, V> OrderedMap<K, V> {
    /// The entries, in order.
    pub closed spec fn entries(self) -> Seq<(K::Model, V)> {
        Seq::new(self.keys@.len(), |i: int| (self.keys@[i].model(), self.values@[i]))
    }

    /// What holds of every map: the keys rise strictly.
    pub closed spec fn wf(self) -> bool {
        &&& self.keys@.len() == self.values@.len()
        &&& forall|i: int, j: int|
            0 <= i < j < self.keys@.len() ==> K::before(
                #[trigger] self.keys@[i].model(),
                #[trigger] self.keys@[j].model(),
            )
    }

    /// Whether the entry at `i` has the key `k`.
    pub open spec fn at(self, k: K::Model, i: int) -> bool {
        0 <= i < self.entries().len() && self.entries()[i].0 == k
    }

    /// The map without its order.
    pub open spec fn view(&self) -> Map<K::Model, V> {
        Map::new(
            |k: K::Model| exists|i: int| self.at(k, i),
            |k: K::Model| self.entries()[choose|i: int| self.at(k, i)].1,
        )
    }

    proof fn lemma_unique(self, i: int, j: int)
        requires
            self.wf(),
            0 <= i < self.keys@.len(),
            0 <= j < self.keys@.len(),
            self.keys@[i].model() == self.keys@[j].model(),
        ensures
            i == j,
    {
        K::irreflexive(self.keys@[i].model());
    }

    /// No key stands in two entries.
    pub proof fn lemma_distinct(self, i: int, j: int)
        requires
            self.wf(),
            0 <= i < self.entries().len(),
            0 <= j < self.entries().len(),
            self.entries()[i].0 == self.entries()[j].0,
        ensures
            i == j,
    {
        self.lemma_unique(i, j);
    }

    /// The keys rise strictly in the order of the entries.
    pub proof fn law_entries_are_sorted(self)
        requires
            self.wf(),
        ensures
            forall|i: int, j: int|
                0 <= i < j < self.entries().len() ==> K::before(
                    #[trigger] self.entries()[i].0,
                    #[trigger] self.entries()[j].0,
                ),
    {
        assert forall|i: int, j: int| 0 <= i < j < self.entries().len() implies K::before(
            #[trigger] self.entries()[i].0,
            #[trigger] self.entries()[j].0,
        ) by {
            assert(K::before(self.keys@[i].model(), self.keys@[j].model()));
        }
    }

    /// Each entry is in the map.
    pub proof fn lemma_entry(self, i: int)
        requires
            self.wf(),
            0 <= i < self.entries().len(),
        ensures
            self@.contains_key(self.entries()[i].0),
            self@[self.entries()[i].0] == self.entries()[i].1,
    {
        let k = self.entries()[i].0;
        assert(self.at(k, i));
        let j = choose|j: int| self.at(k, j);
        assert(self.at(k, j));
        self.lemma_unique(i, j);
    }

    /// An empty map.
    pub fn new() -> (m: Self)
        ensures
            m.wf(),
            m.entries() == Seq::<(K::Model, V)>::empty(),
            m@ == Map::<K::Model, V>::empty(),
    {
        let m = OrderedMap { keys: Vec::new(), values: Vec::new() };
        assert(m.entries() =~= Seq::<(K::Model, V)>::empty());
        assert(m@ =~= Map::<K::Model, V>::empty());
        m
    }

    /// The number of entries.
    pub fn len(&self) -> (n: usize)
        ensures
            n == self.entries().len(),
    {
        self.keys.len()
    }

    /// Whether there is no entry.
    pub fn is_empty(&self) -> (b: bool)
        ensures
            b == (self.entries().len() == 0),
    {
        self.keys.len() == 0
    }

    /// The key of the entry at `i`.
    pub fn key_at(&self, i: usize) -> (k: &K)
        requires
            i < self.entries().len(),
        ensures
            k.model() == self.entries()[i as int].0,
    {
        &self.keys[i]
    }

    /// The value of the entry at `i`.
    pub fn value_at(&self, i: usize) -> (v: &V)
        requires
            self.wf(),
            i < self.entries().len(),
        ensures
            *v == self.entries()[i as int].1,
    {
        &self.values[i]
    }

    /// The number of entries whose keys come before `key`, and whether the
    /// entry after them has that key.
    fn find(&self, key: &K) -> (r: (usize, bool))
        requires
            self.wf(),
        ensures
            r.0 <= self.keys@.len(),
            forall|j: int| 0 <= j < r.0 ==> K::before(#[trigger] self.keys@[j].model(), key.model()),
            r.1 ==> r.0 < self.keys@.len() && self.keys@[r.0 as int].model() == key.model(),
            !r.1 ==> forall|j: int|
                r.0 <= j < self.keys@.len() ==> K::before(key.model(), #[trigger] self.keys@[j].model()),
    {
        let mut i: usize = 0;
        while i < self.keys.len()
            invariant
                self.wf(),
                i <= self.keys@.len(),
                forall|j: int| 0 <= j < i ==> K::before(#[trigger] self.keys@[j].model(), key.model()),
            decreases self.keys@.len() - i,
        {
            match self.keys[i].place(key) {
                Place::Before => {
                    i = i + 1;
                },
                Place::Same => {
                    return (i, true);
                },
                Place::After => {
                    proof {
                        assert forall|j: int| i <= j < self.keys@.len() implies K::before(
                            key.model(),
                            #[trigger] self.keys@[j].model(),
                        ) by {
                            if j > i {
                                K::transitive(
                                    key.model(),
                                    self.keys@[i as int].model(),
                                    self.keys@[j].model(),
                                );
                            }
                        }
                    }
                    return (i, false);
                },
            }
        }
        (i, false)
    }

    /// The value of a key.
    pub fn get(&self, key: &K) -> (r: Option<&V>)
        requires
            self.wf(),
        ensures
            match r {
                Some(v) => self@.contains_key(key.model()) && *v == self@[key.model()],
                None => !self@.contains_key(key.model()),
            },
    {
        let (i, found) = self.find(key);
        if found {
            proof {
                self.lemma_entry(i as int);
            }
            Some(&self.values[i])
        } else {
            proof {
                if self@.contains_key(key.model()) {
                    let j = choose|j: int| self.at(key.model(), j);
                    assert(self.at(key.model(), j));
                    assert(self.keys@[j].model() == key.model());
                    K::irreflexive(key.model());
                }
            }
            None
        }
    }

    /// Gives `key` the value `value`, whether or not it had one.
    pub fn insert(&mut self, key: K, value: V)
        requires
            old(self).wf(),
        ensures
            final(self).wf(),
            final(self)@ == old(self)@.insert(key.model(), value),
    {
        let (i, found) = self.find(&key);
        let ghost before = *self;
        let ghost k = key.model();
        if found {
            self.values.set(i, value);
            proof {
                let after = *self;
                assert(after.entries() =~= before.entries().update(i as int, (k, value)));
                assert forall|m: K::Model| #[trigger] after@.contains_key(m) implies before@.insert(
                    k,
                    value,
                ).contains_key(m) && after@[m] == before@.insert(k, value)[m] by {
                    let j = choose|j: int| after.at(m, j);
                    assert(after.at(m, j));
                    assert(before.at(m, j));
                    after.lemma_entry(j);
                    before.lemma_entry(j);
                    if j != i && m == k {
                        before.lemma_unique(i as int, j);
                    }
                }
                assert forall|m: K::Model| #[trigger]
                    before@.insert(k, value).contains_key(m) implies after@.contains_key(m) by {
                    if m == k {
                        assert(after.at(m, i as int));
                    } else {
                        let j = choose|j: int| before.at(m, j);
                        assert(before.at(m, j));
                        assert(after.at(m, j));
                    }
                }
                assert(after@ =~= before@.insert(k, value));
            }
        } else {
            self.keys.insert(i, key);
            self.values.insert(i, value);
            proof {
                let after = *self;
                assert forall|a: int, b: int| 0 <= a < b < after.keys@.len() implies K::before(
                    #[trigger] after.keys@[a].model(),
                    #[trigger] after.keys@[b].model(),
                ) by {
                    let a0 = if a < i { a } else { a - 1 };
                    let b0 = if b < i { b } else { b - 1 };
                    if a != i {
                        assert(after.keys@[a] == before.keys@[a0]);
                    }
                    if b != i {
                        assert(after.keys@[b] == before.keys@[b0]);
                    }
                }
                assert(after.entries() =~= before.entries().insert(i as int, (k, value)));
                assert forall|m: K::Model| #[trigger] after@.contains_key(m) implies before@.insert(
                    k,
                    value,
                ).contains_key(m) && after@[m] == before@.insert(k, value)[m] by {
                    let j = choose|j: int| after.at(m, j);
                    assert(after.at(m, j));
                    after.lemma_entry(j);
                    let j0 = if j < i { j } else { j - 1 };
                    if j != i {
                        assert(before.at(m, j0));
                        before.lemma_entry(j0);
                        if m == k {
                            after.lemma_unique(i as int, j);
                        }
                    }
                }
                assert forall|m: K::Model| #[trigger]
                    before@.insert(k, value).contains_key(m) implies after@.contains_key(m) by {
                    if m == k {
                        assert(after.at(m, i as int));
                    } else {
                        let j = choose|j: int| before.at(m, j);
                        assert(before.at(m, j));
                        assert(after.at(m, if j < i { j } else { j + 1 }));
                    }
                }
                assert(after@ =~= before@.insert(k, value));
            }
        }
    }
}

} // verus!
