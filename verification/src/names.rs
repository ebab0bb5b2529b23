//! Maps and sets keyed by names.

use crate::text::{same, views};
use vstd::prelude::*;

verus! {

/// Whether no two names are equal.
pub open spec fn names_distinct(s: Seq<Seq<char>>) -> bool {
    forall|i: int, j: int| 0 <= i < j < s.len() ==> s[i] != s[j]
}

/// A map from names to values.
#[derive(Debug)]
pub struct NameMap<V> {
    entries: Vec<(String, V)>,
}

impl<V: View> View for NameMap<V> {
    type V = Map<Seq<char>, V::V>;

    closed spec fn view(&self) -> Map<Seq<char>, V::V> {
        Map::new(
            |k: Seq<char>| self.keys().contains(k),
            |k: Seq<char>| self.entries@[self.keys().index_of(k)].1@,
        )
    }
}

impl<V> NameMap<V> {
    spec fn keys(&self) -> Seq<Seq<char>> {
        Seq::new(self.entries@.len(), |i: int| self.entries@[i].0@)
    }

    /// No key occurs twice.
    #[verifier::type_invariant]
    spec fn wf(self) -> bool {
        names_distinct(self.keys())
    }
}

impl<V: View> NameMap<V> {
    pub fn new() -> (r: NameMap<V>)
        ensures
            r@ == Map::<Seq<char>, V::V>::empty(),
    {
        let r = NameMap { entries: Vec::new() };
        assert(r@ =~= Map::<Seq<char>, V::V>::empty());
        r
    }

    /// The number of keys.
    pub fn len(&self) -> (r: usize)
        ensures
            r == self@.dom().len(),
            self@.dom().finite(),
    {
        proof {
            use_type_invariant(self);
            let k = self.keys();
            assert(k.no_duplicates());
            k.unique_seq_to_set();
            assert(self@.dom() =~= k.to_set());
        }
        self.entries.len()
    }

    /// The position of a name, or the number of entries.
    fn position(&self, name: &str) -> (r: usize)
        ensures
            r <= self.entries@.len(),
            r < self.entries@.len() ==> self.keys()[r as int] == name@ && self.keys().index_of(name@)
                == r,
            r == self.entries@.len() ==> !self.keys().contains(name@),
            r < self.entries@.len() <==> self@.contains_key(name@),
    {
        let mut i: usize = 0;
        while i < self.entries.len()
            invariant
                i <= self.entries@.len(),
                forall|j: int| 0 <= j < i ==> self.keys()[j] != name@,
            decreases self.entries@.len() - i,
        {
            if same(&self.entries[i].0, name) {
                proof {
                    use_type_invariant(self);
                    let k = self.keys();
                    assert(k[i as int] == name@);
                    let j = k.index_of(name@);
                    assert(k[j] == name@);
                }
                return i;
            }
            i = i + 1;
        }
        i
    }

    pub fn contains_key(&self, name: &str) -> (r: bool)
        ensures
            r == self@.contains_key(name@),
    {
        self.position(name) < self.entries.len()
    }

    pub fn get(&self, name: &str) -> (r: Option<&V>)
        ensures
            match r {
                Some(v) => self@.contains_key(name@) && self@[name@] == v@,
                None => !self@.contains_key(name@),
            },
    {
        let i = self.position(name);
        if i < self.entries.len() {
            Some(&self.entries[i].1)
        } else {
            None
        }
    }

    /// Sets the value of a key, whether or not the key has one already.
    pub fn insert(&mut self, name: String, value: V)
        ensures
            final(self)@ == old(self)@.insert(name@, value@),
    {
        proof {
            use_type_invariant(&*self);
        }
        let i = self.position(&name);
        let ghost before = *self;
        let ghost k0 = self.keys();
        let ghost expected = self@.insert(name@, value@);
        let mut entries: Vec<(String, V)> = Vec::new();
        std::mem::swap(&mut entries, &mut self.entries);
        if i < entries.len() {
            let ghost old_entries = entries@;
            let key = entries[i].0.clone();
            entries.set(i, (key, value));
            proof {
                let k = Seq::new(entries@.len(), |i: int| entries@[i].0@);
                assert(k =~= k0);
                assert(names_distinct(k));
            }
            self.entries = entries;
            proof {
                assert(self.keys() =~= k0);
                assert(self@.dom() =~= expected.dom());
                assert forall|x: Seq<char>| self@.contains_key(x) implies #[trigger] self@[x]
                    == expected[x] by {
                    let j = k0.index_of(x);
                    assert(k0[j] == x);
                }
                assert(self@ =~= expected);
            }
        } else {
            let ghost old_entries = entries@;
            entries.push((name, value));
            proof {
                let k = Seq::new(entries@.len(), |i: int| entries@[i].0@);
                assert(k =~= k0.push(name@));
                assert(names_distinct(k)) by {
                    assert forall|a: int, b: int| 0 <= a < b < k.len() implies k[a] != k[b] by {
                        assert(k[a] == k0[a]);
                        if b == k0.len() {
                            assert(k0.contains(k0[a]));
                        }
                    }
                }
            }
            self.entries = entries;
            proof {
                let k = self.keys();
                assert(k =~= k0.push(name@));
                assert(k[k0.len() as int] == name@);
                lemma_pushed(k0, name@);
                assert(self@.dom() =~= expected.dom());
                assert forall|x: Seq<char>| self@.contains_key(x) implies #[trigger] self@[x]
                    == expected[x] by {
                    let j = k.index_of(x);
                    assert(k[j] == x);
                    if x == name@ {
                        assert(j == k0.len());
                    } else {
                        let j0 = k0.index_of(x);
                        assert(k0[j0] == x);
                        assert(k[j0] == x);
                        assert(j == j0);
                    }
                }
                assert(self@ =~= expected);
            }
        }
    }
}

proof fn lemma_pushed(k0: Seq<Seq<char>>, name: Seq<char>)
    ensures
        forall|x: Seq<char>| #[trigger]
            k0.push(name).contains(x) <==> (k0.contains(x) || x == name),
{
    let k = k0.push(name);
    assert(k[k0.len() as int] == name);
    assert forall|x: Seq<char>| #[trigger] k.contains(x) <==> (k0.contains(x) || x == name) by {
        if k0.contains(x) {
            let j = choose|j: int| 0 <= j < k0.len() && k0[j] == x;
            assert(k[j] == x);
        }
        if k.contains(x) && x != name {
            let j = choose|j: int| 0 <= j < k.len() && k[j] == x;
            assert(k0[j] == x);
        }
    }
}

/// A set of names.
#[derive(Debug)]
pub struct NameSet {
    names: Vec<String>,
}

impl View for NameSet {
    type V = Set<Seq<char>>;

    closed spec fn view(&self) -> Set<Seq<char>> {
        views(self.names@).to_set()
    }
}

impl NameSet {
    pub fn new() -> (r: NameSet)
        ensures
            r@ == Set::<Seq<char>>::empty(),
    {
        let r = NameSet { names: Vec::new() };
        assert(r@ =~= Set::<Seq<char>>::empty());
        r
    }

    pub fn contains(&self, name: &str) -> (r: bool)
        ensures
            r == self@.contains(name@),
    {
        let mut i: usize = 0;
        while i < self.names.len()
            invariant
                i <= self.names@.len(),
                forall|j: int| 0 <= j < i ==> views(self.names@)[j] != name@,
            decreases self.names@.len() - i,
        {
            if same(&self.names[i], name) {
                assert(views(self.names@)[i as int] == name@);
                return true;
            }
            i = i + 1;
        }
        false
    }

    pub fn insert(&mut self, name: String)
        ensures
            final(self)@ == old(self)@.insert(name@),
    {
        let ghost before = *self;
        if self.contains(&name) {
            assert(self@ =~= before@.insert(name@));
        } else {
            self.names.push(name);
            proof {
                let k0 = views(before.names@);
                assert(views(self.names@) =~= k0.push(name@));
                lemma_pushed(k0, name@);
                assert(self@ =~= before@.insert(name@));
            }
        }
    }
}

} // verus!
