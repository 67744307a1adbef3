//! A table keyed by address, in which each address occurs once.

use vstd::prelude::*;

verus! {

/// A table from addresses to values. Each address has at most one entry.
/// The entries are kept in two vectors, side by side, so that what the table
/// holds can be stated as a map from the text of an address to the view of
/// its value.
pub struct AddressMap<T> {
    keys: Vec<String>,
    values: Vec<T>,
}

/// The address at a position of the table.
pub closed spec fn key_at(keys: Seq<String>, i: int) -> Seq<char> {
    keys[i]@
}

/// Whether an address occurs among the keys.
pub closed spec fn has_key(keys: Seq<String>, k: Seq<char>) -> bool {
    exists|i: int| 0 <= i < keys.len() && #[trigger] key_at(keys, i) == k
}

/// A position at which an address occurs.
pub closed spec fn slot_of(keys: Seq<String>, k: Seq<char>) -> int {
    choose|i: int| 0 <= i < keys.len() && #[trigger] key_at(keys, i) == k
}

/// Whether no address occurs twice among the keys.
pub closed spec fn distinct_keys(keys: Seq<String>) -> bool {
    forall|i: int, j: int|
        0 <= i < j < keys.len() ==> #[trigger] key_at(keys, i) != #[trigger] key_at(keys, j)
}

proof fn lemma_slot(keys: Seq<String>, i: int)
    requires
        distinct_keys(keys),
        0 <= i < keys.len(),
    ensures
        has_key(keys, key_at(keys, i)),
        slot_of(keys, key_at(keys, i)) == i,
{
    let k = key_at(keys, i);
    assert(has_key(keys, k));
    let s = slot_of(keys, k);
    assert(0 <= s < keys.len() && key_at(keys, s) == k);
    if s < i {
        assert(key_at(keys, s) != key_at(keys, i));
    }
    if i < s {
        assert(key_at(keys, i) != key_at(keys, s));
    }
}

impl<T: View> View for AddressMap<T> {
    type V = Map<Seq<char>, T::V>;

    closed spec fn view(&self) -> Map<Seq<char>, T::V> {
        Map::new(
            |k: Seq<char>| has_key(self.keys@, k),
            |k: Seq<char>| self.values@[slot_of(self.keys@, k)]@,
        )
    }
}

impl<T: View> AddressMap<T> {
    /// Whether the table is well formed: one value for each key, and no
    /// address twice.
    pub closed spec fn wf(&self) -> bool {
        self.keys@.len() == self.values@.len() && distinct_keys(self.keys@)
    }

    /// The empty table.
    pub fn new() -> (table: Self)
        ensures
            table.wf(),
            table@ == Map::<Seq<char>, T::V>::empty(),
    {
        let table = AddressMap { keys: Vec::new(), values: Vec::new() };
        assert(table@ =~= Map::<Seq<char>, T::V>::empty());
        table
    }

    fn find(&self, key: &String) -> (found: Option<usize>)
        requires
            self.wf(),
        ensures
            match found {
                Some(i) => i < self.keys@.len() && key_at(self.keys@, i as int) == key@
                    && has_key(self.keys@, key@) && slot_of(self.keys@, key@) == i,
                None => !has_key(self.keys@, key@),
            },
    {
        let mut i: usize = 0;
        while i < self.keys.len()
            invariant
                self.wf(),
                i <= self.keys@.len(),
                forall|j: int| 0 <= j < i ==> #[trigger] key_at(self.keys@, j) != key@,
            decreases self.keys@.len() - i,
        {
            if self.keys[i] == *key {
                proof {
                    lemma_slot(self.keys@, i as int);
                }
                return Some(i);
            }
            i = i + 1;
        }
        None
    }

    /// Whether the table has an entry for the address.
    pub fn contains_key(&self, key: &String) -> (present: bool)
        requires
            self.wf(),
        ensures
            present == self@.contains_key(key@),
    {
        self.find(key).is_some()
    }

    /// The value stored for the address, if there is one.
    pub fn get(&self, key: &String) -> (value: Option<&T>)
        requires
            self.wf(),
        ensures
            match value {
                Some(v) => self@.contains_key(key@) && self@[key@] == v@,
                None => !self@.contains_key(key@),
            },
    {
        match self.find(key) {
            Some(i) => Some(&self.values[i]),
            None => None,
        }
    }

    /// Stores a value for the address, in place of the one it had if it had
    /// one.
    pub fn insert(&mut self, key: String, value: T)
        requires
            old(self).wf(),
        ensures
            final(self).wf(),
            final(self)@ == old(self)@.insert(key@, value@),
    {
        let ghost old_keys = self.keys@;
        let ghost old_values = self.values@;
        match self.find(&key) {
            Some(i) => {
                self.values[i] = value;
                proof {
                    assert forall|k: Seq<char>| has_key(old_keys, k) && k != key@ implies slot_of(
                        old_keys,
                        k,
                    ) != i by {
                        let s = slot_of(old_keys, k);
                        assert(key_at(old_keys, s) == k);
                    }
                    assert(self@ =~= old(self)@.insert(key@, value@));
                }
            },
            None => {
                self.keys.push(key);
                self.values.push(value);
                proof {
                    let new_keys = self.keys@;
                    let n = old_keys.len() as int;
                    assert forall|i: int| 0 <= i < new_keys.len() implies #[trigger] key_at(
                        new_keys,
                        i,
                    ) == (if i < n {
                        key_at(old_keys, i)
                    } else {
                        key@
                    }) by {}
                    assert(distinct_keys(new_keys)) by {
                        assert forall|i: int, j: int| 0 <= i < j < new_keys.len() implies key_at(
                            new_keys,
                            i,
                        ) != key_at(new_keys, j) by {
                            if j < n {
                                assert(key_at(old_keys, i) != key_at(old_keys, j));
                            } else {
                                assert(key_at(old_keys, i) != key@);
                            }
                        }
                    }
                    lemma_slot(new_keys, n);
                    assert forall|k: Seq<char>| has_key(old_keys, k) implies has_key(new_keys, k)
                        && slot_of(new_keys, k) == slot_of(old_keys, k) by {
                        let s = slot_of(old_keys, k);
                        assert(key_at(new_keys, s) == k);
                        lemma_slot(new_keys, s);
                    }
                    assert forall|k: Seq<char>| has_key(new_keys, k) && k != key@ implies has_key(
                        old_keys,
                        k,
                    ) by {
                        let s = slot_of(new_keys, k);
                        assert(key_at(new_keys, s) == k);
                        assert(s < n);
                        assert(key_at(old_keys, s) == k);
                    }
                    assert(self@ =~= old(self)@.insert(key@, value@));
                }
            },
        }
    }
}

} // verus!
