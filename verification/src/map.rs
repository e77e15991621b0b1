//! A small map keyed by names, which remembers the order in which its keys
//! came.

use vstd::prelude::*;

verus! {

/// The first index at which `keys` holds `name`.
pub open spec fn index_of(keys: Seq<Seq<char>>, name: Seq<char>) -> Option<int>
    decreases keys.len(),
{
    if keys.len() == 0 {
        None
    } else {
        match index_of(keys.drop_last(), name) {
            Some(i) => Some(i),
            None => if keys.last() == name {
                Some(keys.len() - 1)
            } else {
                None
            },
        }
    }
}

/// `index_of` finds `name` where it occurs, and nothing where it does not.
pub proof fn lemma_index_of(keys: Seq<Seq<char>>, name: Seq<char>)
    ensures
        match index_of(keys, name) {
            Some(i) => 0 <= i < keys.len() && keys[i] == name,
            None => forall|j: int| 0 <= j < keys.len() ==> keys[j] != name,
        },
    decreases keys.len(),
{
    if keys.len() > 0 {
        let front = keys.drop_last();
        lemma_index_of(front, name);
        assert forall|j: int| 0 <= j < front.len() implies front[j] == keys[j] by {}
    }
}

/// No key occurs twice.
pub open spec fn distinct(keys: Seq<Seq<char>>) -> bool {
    forall|i: int, j: int| 0 <= i < j < keys.len() ==> keys[i] != keys[j]
}

/// The texts of a list of names.
pub open spec fn key_texts(names: Seq<String>) -> Seq<Seq<char>> {
    Seq::new(names.len(), |i: int| names[i]@)
}

/// A map from names to values. Each name is bound once; the names keep the
/// order in which they were first bound.
#[derive(Debug)]
pub struct NameMap<V> {
    names: Vec<String>,
    values: Vec<V>,
}

impl<V> NameMap<V> {
    /// Each name has a value, and no name is bound twice. Every map that the
    /// functions of this type hand out is well formed.
    pub closed spec fn wf(&self) -> bool {
        self.names.len() == self.values.len() && distinct(key_texts(self.names@))
    }

    /// What a well-formed map promises of its names and values.
    pub proof fn lemma_wf(&self)
        requires
            self.wf(),
        ensures
            self.keys().len() == self.values().len(),
            distinct(self.keys()),
    {
    }

    /// The names, in the order in which they were first bound.
    pub closed spec fn keys(&self) -> Seq<Seq<char>> {
        key_texts(self.names@)
    }

    /// The values, each at the index of its name.
    pub closed spec fn values(&self) -> Seq<V> {
        self.values@
    }

    /// The value that `name` is bound to.
    pub open spec fn value_of(&self, name: Seq<char>) -> Option<V> {
        match index_of(self.keys(), name) {
            Some(i) => Some(self.values()[i]),
            None => None,
        }
    }

    /// Whether `name` is bound.
    pub open spec fn has(&self, name: Seq<char>) -> bool {
        index_of(self.keys(), name) is Some
    }

    /// A map that binds nothing.
    pub fn new() -> (map: Self)
        ensures
            map.wf(),
            map.keys() == Seq::<Seq<char>>::empty(),
            map.values() == Seq::<V>::empty(),
    {
        let map = NameMap { names: Vec::new(), values: Vec::new() };
        map
    }

    /// The number of names that are bound.
    pub fn len(&self) -> (len: usize)
        requires
            self.wf(),
        ensures
            len == self.keys().len(),
            len == self.values().len(),
    {
        self.names.len()
    }

    /// The names, in the order in which they were first bound.
    pub fn names(&self) -> (names: &Vec<String>)
        requires
            self.wf(),
        ensures
            key_texts(names@) == self.keys(),
    {
        &self.names
    }

    /// The name at index `i` of the order.
    pub fn name_at(&self, i: usize) -> (name: &String)
        requires
            self.wf(),
            i < self.keys().len(),
        ensures
            name@ == self.keys()[i as int],
    {
        &self.names[i]
    }

    /// The value at index `i` of the order.
    pub fn value_at(&self, i: usize) -> (value: &V)
        requires
            self.wf(),
            i < self.values().len(),
        ensures
            *value == self.values()[i as int],
    {
        &self.values[i]
    }

    /// Where `name` stands in the order.
    pub fn position(&self, name: &str) -> (found: Option<usize>)
        requires
            self.wf(),
        ensures
            match index_of(self.keys(), name@) {
                Some(i) => found == Some(i as usize) && 0 <= i < self.keys().len() && i
                    < self.values().len() && self.keys()[i] == name@,
                None => found is None,
            },
    {
        let wanted = name.to_owned();
        let ghost keys = key_texts(self.names@);
        let mut i: usize = 0;
        while i < self.names.len()
            invariant
                self.wf(),
                i <= self.names.len(),
                wanted@ == name@,
                keys == key_texts(self.names@),
                index_of(keys.take(i as int), name@) is None,
            decreases self.names.len() - i,
        {
            assert(keys.take(i + 1).drop_last() =~= keys.take(i as int));
            if self.names[i] == wanted {
                proof {
                    lemma_index_of_prefix(keys, name@, i + 1);
                }
                return Some(i);
            }
            i = i + 1;
        }
        assert(keys.take(i as int) =~= keys);
        None
    }

    /// Whether `name` is bound.
    pub fn contains_key(&self, name: &str) -> (found: bool)
        requires
            self.wf(),
        ensures
            found == self.has(name@),
    {
        self.position(name).is_some()
    }

    /// The value that `name` is bound to.
    pub fn get(&self, name: &str) -> (found: Option<&V>)
        requires
            self.wf(),
        ensures
            found == match self.value_of(name@) {
                Some(value) => Some(&value),
                None => None,
            },
    {
        match self.position(name) {
            Some(i) => Some(&self.values[i]),
            None => None,
        }
    }

    /// Binds `name` to `value`. A name that is bound already keeps its place
    /// and gets the new value.
    pub fn insert(&mut self, name: String, value: V)
        requires
            old(self).wf(),
        ensures
            final(self).wf(),
            final(self).value_of(name@) == Some(value),
            forall|other: Seq<char>|
                other != name@ ==> final(self).value_of(other) == old(self).value_of(other),
            match index_of(old(self).keys(), name@) {
                Some(i) => final(self).keys() == old(self).keys() && final(self).values() == old(
                    self,
                ).values().update(i, value),
                None => final(self).keys() == old(self).keys().push(name@) && final(self).values()
                    == old(self).values().push(value),
            },
    {
        let ghost old_keys = self.keys();
        let ghost old_values = self.values();
        match self.position(name.as_str()) {
            Some(i) => {
                self.values.set(i, value);
                proof {
                    assert forall|other: Seq<char>| other != name@ implies self.value_of(other)
                        == match index_of(old_keys, other) {
                        Some(k) => Some(old_values[k]),
                        None => None,
                    } by {
                        lemma_index_of(old_keys, other);
                    }
                }
            },
            None => {
                self.names.push(name);
                self.values.push(value);
                proof {
                    let keys = key_texts(self.names@);
                    assert(keys =~= old_keys.push(name@));
                    assert(keys.drop_last() =~= old_keys);
                    lemma_index_of(old_keys, name@);
                    assert forall|other: Seq<char>| other != name@ implies self.value_of(other)
                        == match index_of(old_keys, other) {
                        Some(k) => Some(old_values[k]),
                        None => None,
                    } by {
                        lemma_index_of(old_keys, other);
                    }
                }
            },
        }
    }
}

/// What `index_of` finds in a prefix, it finds in the whole.
pub proof fn lemma_index_of_prefix(keys: Seq<Seq<char>>, name: Seq<char>, n: int)
    requires
        0 <= n <= keys.len(),
        index_of(keys.take(n), name) is Some,
    ensures
        index_of(keys, name) == index_of(keys.take(n), name),
    decreases keys.len() - n,
{
    if n < keys.len() {
        assert(keys.take(n + 1).drop_last() =~= keys.take(n));
        lemma_index_of_prefix(keys, name, n + 1);
    } else {
        assert(keys.take(n) =~= keys);
    }
}

/// The texts of a list of lists of names.
pub open spec fn list_texts(lists: Seq<Vec<String>>) -> Seq<Seq<Seq<char>>> {
    Seq::new(lists.len(), |i: int| key_texts(lists[i]@))
}

/// A copy of a list of names.
pub fn duplicate_names(names: &Vec<String>) -> (copy: Vec<String>)
    ensures
        key_texts(copy@) == key_texts(names@),
{
    let mut copy: Vec<String> = Vec::new();
    let mut i: usize = 0;
    while i < names.len()
        invariant
            i <= names.len(),
            copy.len() == i,
            forall|k: int| 0 <= k < i ==> copy[k]@ == names[k]@,
        decreases names.len() - i,
    {
        copy.push(names[i].clone());
        i = i + 1;
    }
    copy
}

impl NameMap<Vec<String>> {
    /// A copy of a map from names to lists of names.
    pub fn duplicate(&self) -> (copy: Self)
        requires
            self.wf(),
        ensures
            copy.wf(),
            copy.keys() == self.keys(),
            list_texts(copy.values()) == list_texts(self.values()),
    {
        let names = duplicate_names(&self.names);
        let mut values: Vec<Vec<String>> = Vec::new();
        let mut i: usize = 0;
        while i < self.values.len()
            invariant
                i <= self.values.len(),
                values.len() == i,
                forall|k: int| 0 <= k < i ==> key_texts(values[k]@) == key_texts(self.values[k]@),
            decreases self.values.len() - i,
        {
            values.push(duplicate_names(&self.values[i]));
            i = i + 1;
        }
        let copy = NameMap { names, values };
        assert(key_texts(self.names@).len() == self.names.len());
        copy
    }
}

} // verus!
