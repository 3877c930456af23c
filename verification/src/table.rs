//! Tables from texts to values whose keys can be listed.

use vstd::hash_map::StringHashMap;
use vstd::prelude::*;

use crate::text::{same_text, texts};

verus! {

/// A hash map and the list of its keys.
#[verifier::reject_recursive_types(V)]
struct Rows<V> {
    map: StringHashMap<V>,
    keys: Vec<String>,
}

impl<V> Rows<V> {
    spec fn wf(self) -> bool {
        &&& texts(self.keys@).no_duplicates()
        &&& forall|k: Seq<char>| #[trigger] self.map@.contains_key(k) <==> texts(self.keys@).contains(k)
    }

    fn empty() -> (r: Self)
        ensures
            r.wf(),
            r.map@ == Map::<Seq<char>, V>::empty(),
    {
        Rows { map: StringHashMap::new(), keys: Vec::new() }
    }

    fn insert(&mut self, key: String, value: V)
        requires
            old(self).wf(),
        ensures
            final(self).wf(),
            final(self).map@ == old(self).map@.insert(key@, value),
    {
        let ghost before = texts(self.keys@);
        if !self.map.contains_key(key.as_str()) {
            self.keys.push(key.clone());
            proof {
                let after = texts(self.keys@);
                assert(after =~= before.push(key@));
                assert(!before.contains(key@));
                assert(after[before.len() as int] == key@);
                assert forall|k: Seq<char>| after.contains(k) <==> (before.contains(k) || k
                    == key@) by {
                    if before.contains(k) {
                        let i = before.index_of(k);
                        assert(after[i] == k);
                    }
                }
                assert forall|i: int, j: int|
                    0 <= i < after.len() && 0 <= j < after.len() && i != j implies after[i]
                    != after[j] by {
                    if i == before.len() {
                        assert(before.contains(before[j]));
                    }
                    if j == before.len() {
                        assert(before.contains(before[i]));
                    }
                }
            }
        }
        self.map.insert(key, value);
    }

    fn remove(&mut self, key: &str)
        requires
            old(self).wf(),
        ensures
            final(self).wf(),
            final(self).map@ == old(self).map@.remove(key@),
    {
        let ghost before = texts(self.keys@);
        let mut i: usize = 0;
        while i < self.keys.len()
            invariant
                self == old(self),
                before == texts(self.keys@),
                i <= before.len(),
                forall|j: int| 0 <= j < i ==> before[j] != key@,
                i < before.len() ==> before[i as int] == self.keys@[i as int]@,
            ensures
                self == old(self),
                i <= before.len(),
                forall|j: int| 0 <= j < i ==> before[j] != key@,
                i < before.len() ==> before[i as int] == key@,
            decreases before.len() - i,
        {
            if same_text(self.keys[i].as_str(), key) {
                break;
            }
            i = i + 1;
        }
        if i < self.keys.len() {
            self.keys.remove(i);
        }
        self.map.remove(key);
        proof {
            let after = texts(self.keys@);
            if i < before.len() {
                assert(after =~= before.remove(i as int));
                assert forall|k: Seq<char>| after.contains(k) <==> (before.contains(k) && k
                    != key@) by {
                    if after.contains(k) {
                        let j = after.index_of(k);
                        if j < i {
                            assert(before[j] == k);
                        } else {
                            assert(before[j + 1] == k);
                        }
                    }
                    if before.contains(k) && k != key@ {
                        let j = before.index_of(k);
                        if j < i {
                            assert(after[j] == k);
                        } else {
                            assert(after[j - 1] == k);
                        }
                    }
                }
            } else {
                assert(!before.contains(key@));
            }
        }
    }
}

/// A table from texts to values.
#[verifier::reject_recursive_types(V)]
pub struct Table<V> {
    rows: Rows<V>,
}

impl<V> View for Table<V> {
    type V = Map<Seq<char>, V>;

    closed spec fn view(&self) -> Map<Seq<char>, V> {
        self.rows.map@
    }
}

impl<V> Table<V> {
    #[verifier::type_invariant]
    spec fn inv(self) -> bool {
        self.rows.wf()
    }

    /// A table without rows.
    pub fn new() -> (r: Self)
        ensures
            r@ == Map::<Seq<char>, V>::empty(),
    {
        Table { rows: Rows::empty() }
    }

    /// The value of `key`, where the table has one.
    pub fn get(&self, key: &str) -> (r: Option<&V>)
        ensures
            match r {
                Some(v) => self@.contains_key(key@) && *v == self@[key@],
                None => !self@.contains_key(key@),
            },
    {
        self.rows.map.get(key)
    }

    /// Gives `key` the value `value`, in place of the one it had.
    pub fn insert(&mut self, key: String, value: V)
        ensures
            final(self)@ == old(self)@.insert(key@, value),
    {
        proof {
            use_type_invariant(&*self);
        }
        let mut rows = Rows::empty();
        std::mem::swap(&mut rows, &mut self.rows);
        rows.insert(key, value);
        self.rows = rows;
    }

    /// Takes `key` out of the table.
    pub fn remove(&mut self, key: &str)
        ensures
            final(self)@ == old(self)@.remove(key@),
    {
        proof {
            use_type_invariant(&*self);
        }
        let mut rows = Rows::empty();
        std::mem::swap(&mut rows, &mut self.rows);
        rows.remove(key);
        self.rows = rows;
    }

    /// The keys of the table, each once.
    pub fn keys(&self) -> (r: &Vec<String>)
        ensures
            texts(r@).no_duplicates(),
            forall|k: Seq<char>| #[trigger] self@.contains_key(k) <==> texts(r@).contains(k),
    {
        proof {
            use_type_invariant(self);
        }
        &self.rows.keys
    }
}

} // verus!
