use vstd::prelude::*;
use crate::value::{Val, Value};

verus! {

/// One key of the store with its value.
pub struct Entry {
    pub key: String,
    pub value: Value,
}

/// The mapping from keys to values. Keys are unique; the order of the
/// entries carries no meaning.
pub struct Store {
    entries: Vec<Entry>,
    model: Ghost<Map<Seq<char>, Val>>,
}

impl View for Store {
    type V = Map<Seq<char>, Val>;

    closed spec fn view(&self) -> Map<Seq<char>, Val> {
        self.model@
    }
}

impl Store {
    /// The entries hold each key once, and hold exactly the model's pairs.
    pub closed spec fn wf(&self) -> bool {
        &&& self.model@.dom().finite()
        &&& forall|i: int, j: int|
            0 <= i < j < self.entries@.len() ==> self.entries@[i].key@ != self.entries@[j].key@
        &&& forall|i: int|
            0 <= i < self.entries@.len() ==> #[trigger] self.model@.contains_key(self.entries@[i].key@)
                && self.model@[self.entries@[i].key@] == self.entries@[i].value@
        &&& forall|k: Seq<char>|
            #[trigger] self.model@.contains_key(k) ==> exists|i: int|
                0 <= i < self.entries@.len() && self.entries@[i].key@ == k
    }

    /// A well-formed store holds finitely many keys.
    pub proof fn lemma_dom_finite(&self)
        requires
            self.wf(),
        ensures
            self@.dom().finite(),
    {
    }

    /// An empty store.
    pub fn new() -> (r: Store)
        ensures
            r.wf(),
            r@ == Map::<Seq<char>, Val>::empty(),
    {
        Store { entries: Vec::new(), model: Ghost(Map::empty()) }
    }

    /// The position of `key` among the entries, if it is there.
    fn find(&self, key: &String) -> (r: Option<usize>)
        requires
            self.wf(),
        ensures
            match r {
                Some(i) => i < self.entries@.len() && self.entries@[i as int].key@ == key@,
                None => !self@.contains_key(key@),
            },
    {
        let mut i: usize = 0;
        while i < self.entries.len()
            invariant
                self.wf(),
                i <= self.entries@.len(),
                forall|j: int| 0 <= j < i ==> self.entries@[j].key@ != key@,
            decreases self.entries@.len() - i,
        {
            if self.entries[i].key == *key {
                return Some(i);
            }
            i = i + 1;
        }
        None
    }

    /// Whether `key` is present.
    pub fn contains_key(&self, key: &String) -> (r: bool)
        requires
            self.wf(),
        ensures
            r == self@.contains_key(key@),
    {
        self.find(key).is_some()
    }

    /// The value stored at `key`, if any.
    pub fn get(&self, key: &String) -> (r: Option<&Value>)
        requires
            self.wf(),
        ensures
            match r {
                Some(v) => self@.contains_key(key@) && v@ == self@[key@],
                None => !self@.contains_key(key@),
            },
    {
        match self.find(key) {
            Some(i) => {
                assert(self.model@.contains_key(self.entries@[i as int].key@));
                Some(&self.entries[i].value)
            },
            None => None,
        }
    }

    /// Stores `value` at `key`, replacing what was there.
    pub fn insert(&mut self, key: String, value: Value)
        requires
            old(self).wf(),
        ensures
            final(self).wf(),
            final(self)@ == old(self)@.insert(key@, value@),
    {
        let ghost k = key@;
        let ghost v = value@;
        let ghost pos: int;
        match self.find(&key) {
            Some(i) => {
                self.entries.set(i, Entry { key, value });
                proof { pos = i as int; }
            },
            None => {
                self.entries.push(Entry { key, value });
                proof { pos = self.entries@.len() - 1; }
            },
        }
        self.model = Ghost(self.model@.insert(k, v));
        assert(self.entries@[pos].key@ == k);
        assert forall|k2: Seq<char>| #[trigger] self.model@.contains_key(k2) implies exists|i: int|
            0 <= i < self.entries@.len() && self.entries@[i].key@ == k2 by {
            if k2 != k {
                let i = choose|i: int| 0 <= i < old(self).entries@.len() && old(self).entries@[i].key@ == k2;
                assert(self.entries@[i].key@ == k2);
            } else {
                assert(self.entries@[pos].key@ == k2);
            }
        }
        assert forall|i: int|
            0 <= i < self.entries@.len() implies #[trigger] self.model@.contains_key(self.entries@[i].key@)
                && self.model@[self.entries@[i].key@] == self.entries@[i].value@ by {
            if i != pos {
                assert(old(self).entries@[i] == self.entries@[i]);
            }
        }
    }

    /// Removes `key`, handing back its value if it was there.
    pub fn remove(&mut self, key: &String) -> (r: Option<Value>)
        requires
            old(self).wf(),
        ensures
            final(self).wf(),
            final(self)@ == old(self)@.remove(key@),
            match r {
                Some(v) => old(self)@.contains_key(key@) && v@ == old(self)@[key@],
                None => !old(self)@.contains_key(key@),
            },
    {
        match self.find(key) {
            Some(i) => {
                assert(old(self).model@.contains_key(old(self).entries@[i as int].key@));
                let e = self.entries.remove(i);
                self.model = Ghost(self.model@.remove(key@));
                assert forall|k2: Seq<char>| #[trigger] self.model@.contains_key(k2) implies exists|j: int|
                    0 <= j < self.entries@.len() && self.entries@[j].key@ == k2 by {
                    let j = choose|j: int| 0 <= j < old(self).entries@.len() && old(self).entries@[j].key@ == k2;
                    if j < i {
                        assert(self.entries@[j].key@ == k2);
                    } else {
                        assert(self.entries@[j - 1].key@ == k2);
                    }
                }
                Some(e.value)
            },
            None => {
                assert(self.model@.remove(key@) =~= self.model@);
                None
            },
        }
    }
}

} // verus!
