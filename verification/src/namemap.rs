//! A map from names to values, kept as a list in order of first insertion.

use vstd::prelude::*;

verus! {

/// A map keyed by name. Entries stand in the order in which their names
/// were first inserted; where a name stands twice, the first entry counts.
pub struct NameMap<V> {
    pub entries: Vec<(String, V)>,
}

/// The index of the first entry of `entries` named `name`.
pub open spec fn position<V>(entries: Seq<(String, V)>, name: Seq<char>) -> Option<int> {
    if exists|i: int| is_position(entries, name, i) {
        Some(choose|i: int| is_position(entries, name, i))
    } else {
        None
    }
}

/// `i` is the index of the first entry of `entries` named `name`.
pub open spec fn is_position<V>(entries: Seq<(String, V)>, name: Seq<char>, i: int) -> bool {
    &&& 0 <= i < entries.len()
    &&& entries[i].0@ == name
    &&& forall|j: int| 0 <= j < i ==> entries[j].0@ != name
}

/// The first entry with a name is the only one that `position` can name.
pub proof fn lemma_position_is<V>(entries: Seq<(String, V)>, name: Seq<char>, i: int)
    requires
        is_position(entries, name, i),
    ensures
        position(entries, name) == Some(i),
{
    let k = choose|k: int| is_position(entries, name, k);
    if k < i {
        assert(entries[k].0@ != name);
    } else if i < k {
        assert(entries[i].0@ != name);
    }
}

/// A name that no entry has is at no position.
pub proof fn lemma_position_none<V>(entries: Seq<(String, V)>, name: Seq<char>)
    requires
        forall|j: int| 0 <= j < entries.len() ==> entries[j].0@ != name,
    ensures
        position(entries, name) is None,
{
}

impl<V> View for NameMap<V> {
    type V = Map<Seq<char>, V>;

    /// The map from each name to the value of its first entry.
    open spec fn view(&self) -> Map<Seq<char>, V> {
        Map::new(
            |name: Seq<char>| position(self.entries@, name) is Some,
            |name: Seq<char>| self.entries@[position(self.entries@, name)->0].1,
        )
    }
}

impl<V> NameMap<V> {
    /// The empty map.
    pub fn new() -> (r: NameMap<V>)
        ensures
            r@ == Map::<Seq<char>, V>::empty(),
            r.entries@.len() == 0,
    {
        let r = NameMap { entries: Vec::new() };
        assert(r@ =~= Map::<Seq<char>, V>::empty());
        r
    }

    /// The index of the first entry named `name`.
    pub fn index_of(&self, name: &str) -> (r: Option<usize>)
        ensures
            match r {
                Some(i) => position(self.entries@, name@) == Some(i as int) && i
                    < self.entries.len(),
                None => position(self.entries@, name@) is None && forall|j: int|
                    0 <= j < self.entries.len() ==> self.entries@[j].0@ != name@,
            },
    {
        let key = name.to_owned();
        let mut i: usize = 0;
        while i < self.entries.len()
            invariant
                i <= self.entries.len(),
                key@ == name@,
                forall|j: int| 0 <= j < i ==> self.entries@[j].0@ != name@,
            decreases self.entries.len() - i,
        {
            if self.entries[i].0 == key {
                proof {
                    lemma_position_is(self.entries@, name@, i as int);
                }
                return Some(i);
            }
            i += 1;
        }
        proof {
            lemma_position_none(self.entries@, name@);
        }
        None
    }

    /// The value under `name`, if the map has the name.
    pub fn get(&self, name: &str) -> (r: Option<&V>)
        ensures
            match r {
                Some(v) => self@.contains_key(name@) && *v == self@[name@],
                None => !self@.contains_key(name@),
            },
    {
        match self.index_of(name) {
            Some(i) => Some(&self.entries[i].1),
            None => None,
        }
    }

    /// Whether the map has `name`.
    pub fn contains(&self, name: &str) -> (b: bool)
        ensures
            b == self@.contains_key(name@),
    {
        self.index_of(name).is_some()
    }

    /// Puts `value` under `name`, in place of the value that the name had.
    pub fn insert(&mut self, name: &str, value: V)
        ensures
            final(self)@ == old(self)@.insert(name@, value),
    {
        let ghost before = self.entries@;
        match self.index_of(name) {
            Some(i) => {
                let key = name.to_owned();
                self.entries.set(i, (key, value));
                proof {
                    let after = self.entries@;
                    assert forall|other: Seq<char>| #[trigger]
                        position(after, other) == position(before, other) by {
                        lemma_same_names(before, after, other);
                    }
                    lemma_position_is(after, name@, i as int);
                    assert(self@ =~= old(self)@.insert(name@, value));
                }
            },
            None => {
                self.entries.push((name.to_owned(), value));
                proof {
                    let after = self.entries@;
                    let n = before.len() as int;
                    lemma_position_is(after, name@, n);
                    assert forall|other: Seq<char>| other != name@ implies #[trigger]
                        position(after, other) == position(before, other) by {
                        lemma_pushed_name(before, after, other);
                    }
                    assert(self@ =~= old(self)@.insert(name@, value));
                }
            },
        }
    }

    /// The number of entries.
    pub fn len(&self) -> (n: usize)
        ensures
            n == self.entries@.len(),
    {
        self.entries.len()
    }
}

/// Two lists with the same names in the same places give each name the
/// same position.
pub proof fn lemma_same_names<V>(
    a: Seq<(String, V)>,
    b: Seq<(String, V)>,
    name: Seq<char>,
)
    requires
        a.len() == b.len(),
        forall|j: int| 0 <= j < a.len() ==> a[j].0@ == b[j].0@,
    ensures
        position(a, name) == position(b, name),
{
    if position(a, name) is Some {
        let i = position(a, name)->0;
        assert(is_position(b, name, i));
        lemma_position_is(b, name, i);
    } else if position(b, name) is Some {
        let i = position(b, name)->0;
        assert(is_position(a, name, i));
        lemma_position_is(a, name, i);
    }
}

/// An entry added at the end leaves every other name where it was.
pub proof fn lemma_pushed_name<V>(a: Seq<(String, V)>, b: Seq<(String, V)>, name: Seq<char>)
    requires
        b.len() == a.len() + 1,
        forall|j: int| 0 <= j < a.len() ==> a[j] == b[j],
        b[a.len() as int].0@ != name,
    ensures
        position(a, name) == position(b, name),
{
    if position(a, name) is Some {
        let i = position(a, name)->0;
        assert(is_position(b, name, i));
        lemma_position_is(b, name, i);
    } else if position(b, name) is Some {
        let i = position(b, name)->0;
        assert(is_position(a, name, i));
        lemma_position_is(a, name, i);
    }
}

} // verus!
