//! A map from names to values that keeps its names in order.
use vstd::prelude::*;

use crate::text::{precedes, precedes_irreflexive, precedes_total, precedes_transitive, push_text, same_text, text_precedes, texts};

verus! {

/// Values under distinct names, held in the order of the names.
#[derive(Debug)]
pub struct NameMap<V> {
    entries: Vec<(String, V)>,
}

/// Whether every name of the list comes before all the later ones.
pub open spec fn in_order(names: Seq<Seq<char>>) -> bool {
    forall|i: int, j: int| 0 <= i < j < names.len() ==> precedes(names[i], names[j])
}

impl<V> NameMap<V> {
    /// The names, in order.
    pub closed spec fn names(self) -> Seq<Seq<char>> {
        self.entries@.map_values(|e: (String, V)| e.0@)
    }

    /// The value under the `i`-th name.
    pub closed spec fn value(self, i: int) -> V {
        self.entries@[i].1
    }

    /// Each name occurs once, and the names are in order.
    #[verifier::type_invariant]
    pub closed spec fn wf(self) -> bool {
        in_order(self.names())
    }

    /// Whether there is a value under `name`.
    pub open spec fn has(self, name: Seq<char>) -> bool {
        self.names().contains(name)
    }

    /// The value under `name`.
    pub open spec fn at(self, name: Seq<char>) -> V
        recommends
            self.has(name),
    {
        self.value(self.names().index_of(name))
    }

    /// The map from the names to the values.
    pub open spec fn map(self) -> Map<Seq<char>, V> {
        Map::new(|name: Seq<char>| self.has(name), |name: Seq<char>| self.at(name))
    }

    /// A name stands in one place only.
    pub proof fn name_is_unique(self, i: int)
        requires
            self.wf(),
            0 <= i < self.names().len(),
        ensures
            self.has(self.names()[i]),
            self.names().index_of(self.names()[i]) == i,
            self.at(self.names()[i]) == self.value(i),
    {
        let name = self.names()[i];
        let j = self.names().index_of(name);
        assert(self.names().contains(name));
        if i < j {
            precedes_irreflexive(name);
        } else if j < i {
            precedes_irreflexive(name);
        }
    }

    /// The names of a map are in order.
    pub proof fn names_in_order(self)
        requires
            self.wf(),
        ensures
            in_order(self.names()),
    {
    }

    /// The map without entries.
    pub fn new() -> (r: Self)
        ensures
            r.wf(),
            r.names().len() == 0,
    {
        let r = NameMap { entries: Vec::new() };
        proof {
            assert(r.names().len() == 0);
        }
        r
    }

    /// How many names there are.
    pub fn len(&self) -> (r: usize)
        ensures
            r == self.names().len(),
            self.wf(),
    {
        proof {
            use_type_invariant(self);
        }
        self.entries.len()
    }

    /// Whether there is no name.
    pub fn is_empty(&self) -> (r: bool)
        ensures
            r == (self.names().len() == 0),
    {
        self.entries.len() == 0
    }

    /// The `i`-th name.
    pub fn name_at(&self, i: usize) -> (r: &String)
        requires
            i < self.names().len(),
        ensures
            r@ == self.names()[i as int],
    {
        &self.entries[i].0
    }

    /// The value under the `i`-th name.
    pub fn value_at(&self, i: usize) -> (r: &V)
        requires
            i < self.names().len(),
        ensures
            *r == self.value(i as int),
            *r == self.at(self.names()[i as int]),
            self.has(self.names()[i as int]),
    {
        proof {
            use_type_invariant(self);
            self.name_is_unique(i as int);
        }
        &self.entries[i].1
    }

    /// All names, in order.
    pub fn name_list(&self) -> (r: Vec<String>)
        ensures
            texts(r@) == self.names(),
    {
        let mut r: Vec<String> = Vec::new();
        let mut i: usize = 0;
        proof {
            assert(texts(r@) =~= self.names().take(0));
        }
        while i < self.entries.len()
            invariant
                i <= self.names().len(),
                self.names().len() == self.entries@.len(),
                texts(r@) == self.names().take(i as int),
            decreases self.entries.len() - i,
        {
            push_text(&mut r, self.entries[i].0.clone());
            proof {
                assert(self.names().take(i + 1) =~= self.names().take(i as int).push(
                    self.names()[i as int],
                ));
            }
            i += 1;
        }
        proof {
            assert(self.names().take(i as int) =~= self.names());
        }
        r
    }

    /// Where `name` stands, or where it would have to stand.
    fn position(&self, name: &str) -> (r: (bool, usize))
        ensures
            r.1 <= self.names().len(),
            r.0 == self.has(name@),
            r.0 ==> r.1 < self.names().len() && self.names()[r.1 as int] == name@,
            forall|i: int| 0 <= i < r.1 ==> precedes(#[trigger] self.names()[i], name@),
            !r.0 ==> forall|i: int|
                r.1 <= i < self.names().len() ==> precedes(name@, #[trigger] self.names()[i]),
    {
        proof {
            use_type_invariant(self);
        }
        let mut i: usize = 0;
        while i < self.entries.len() && text_precedes(self.entries[i].0.as_str(), name)
            invariant
                self.wf(),
                i <= self.names().len(),
                self.names().len() == self.entries@.len(),
                forall|j: int| 0 <= j < i ==> precedes(#[trigger] self.names()[j], name@),
            decreases self.entries.len() - i,
        {
            i += 1;
        }
        if i < self.entries.len() && same_text(self.entries[i].0.as_str(), name) {
            proof {
                assert(self.names()[i as int] == name@);
            }
            return (true, i);
        }
        proof {
            if i < self.names().len() {
                precedes_total(self.names()[i as int], name@);
            }
            assert forall|j: int| i <= j < self.names().len() implies precedes(
                name@,
                #[trigger] self.names()[j],
            ) by {
                if j > i {
                    precedes_transitive(name@, self.names()[i as int], self.names()[j]);
                }
            }
            if self.has(name@) {
                let j = self.names().index_of(name@);
                precedes_irreflexive(name@);
            }
        }
        (false, i)
    }

    /// Whether there is a value under `name`.
    pub fn contains_key(&self, name: &str) -> (r: bool)
        ensures
            r == self.has(name@),
    {
        self.position(name).0
    }

    /// The value under `name`, if there is one.
    pub fn get(&self, name: &str) -> (r: Option<&V>)
        ensures
            r is Some == self.has(name@),
            r matches Some(v) ==> *v == self.at(name@),
    {
        let (found, i) = self.position(name);
        if found {
            proof {
                use_type_invariant(self);
                self.name_is_unique(i as int);
            }
            Some(&self.entries[i].1)
        } else {
            None
        }
    }

    /// Puts `value` under `name`, in place of a value that stands there.
    pub fn insert(&mut self, name: String, value: V)
        ensures
            final(self).wf(),
            final(self).map() == old(self).map().insert(name@, value),
    {
        let (found, i) = self.position(name.as_str());
        proof {
            use_type_invariant(&*self);
        }
        let ghost before = *self;
        let ghost old_names = self.names();
        let ghost key = name@;
        let mut entries: Vec<(String, V)> = Vec::new();
        std::mem::swap(&mut entries, &mut self.entries);
        if found {
            entries.set(i, (name, value));
        } else {
            entries.insert(i, (name, value));
        }
        let ghost after = NameMap { entries };
        proof {
            if found {
                assert(after.names() =~= old_names);
            } else {
                assert(after.names() =~= old_names.insert(i as int, key));
                assert(in_order(after.names()));
            }
            assert(after.wf());
            assert forall|n: Seq<char>| after.has(n) == (before.has(n) || n == key) by {
                if before.has(n) {
                    let j = before.names().index_of(n);
                    let k = if found || j < i {
                        j
                    } else {
                        j + 1
                    };
                    assert(after.names()[k] == n);
                }
                if n == key {
                    assert(after.names()[i as int] == n);
                }
                if after.has(n) {
                    let k = after.names().index_of(n);
                    if !found && k > i {
                        assert(before.names()[k - 1] == n);
                    } else if k != i {
                        assert(before.names()[k] == n);
                    }
                }
            }
            assert forall|n: Seq<char>| after.has(n) implies after.at(n) == (if n == key {
                value
            } else {
                before.at(n)
            }) by {
                let k = after.names().index_of(n);
                if n == key {
                    after.name_is_unique(i as int);
                } else {
                    let j = before.names().index_of(n);
                    let k = if found || j < i {
                        j
                    } else {
                        j + 1
                    };
                    assert(after.names()[k] == n);
                    after.name_is_unique(k);
                }
            }
            assert(after.map() =~= before.map().insert(key, value));
        }
        self.entries = entries;
    }
}

impl<V: Clone> Clone for NameMap<V> {
    /// A map with the same names, and a clone of the value under each.
    fn clone(&self) -> (r: Self)
        ensures
            r.wf(),
            r.names() == self.names(),
            forall|i: int|
                0 <= i < self.names().len() ==> cloned(self.value(i), #[trigger] r.value(i)),
    {
        proof {
            use_type_invariant(self);
        }
        let mut entries: Vec<(String, V)> = Vec::new();
        let mut i: usize = 0;
        while i < self.entries.len()
            invariant
                i <= self.entries@.len(),
                entries@.len() == i,
                forall|j: int|
                    0 <= j < i ==> (#[trigger] entries@[j]).0@ == self.entries@[j].0@ && cloned(
                        self.entries@[j].1,
                        entries@[j].1,
                    ),
            decreases self.entries.len() - i,
        {
            let name = self.entries[i].0.clone();
            let value = self.entries[i].1.clone();
            entries.push((name, value));
            i += 1;
        }
        let ghost names = entries@.map_values(|e: (String, V)| e.0@);
        proof {
            assert(names =~= self.names());
        }
        NameMap { entries }
    }
}

impl NameMap<String> {
    /// The map from the names to the texts.
    pub open spec fn text_map(self) -> Map<Seq<char>, Seq<char>> {
        Map::new(|name: Seq<char>| self.has(name), |name: Seq<char>| self.at(name)@)
    }

    /// Puts `value` under `name`, in place of a text that stands there.
    pub fn insert_text(&mut self, name: &str, value: &str)
        ensures
            final(self).wf(),
            final(self).text_map() == old(self).text_map().insert(name@, value@),
    {
        let ghost before = *self;
        let text = value.to_owned();
        let ghost stored = text;
        self.insert(name.to_owned(), text);
        proof {
            let grown = before.text_map().insert(name@, value@);
            let changed = before.map().insert(name@, stored);
            assert forall|n: Seq<char>| #[trigger]
                self.text_map().dom().contains(n) == grown.dom().contains(n) by {
                assert(self.map().dom().contains(n) == changed.dom().contains(n));
            }
            assert forall|n: Seq<char>| #[trigger]
                self.text_map().dom().contains(n) implies self.text_map()[n] == grown[n] by {
                assert(self.map()[n] == changed[n]);
            }
            assert(self.text_map() =~= grown);
        }
    }

    /// Puts every entry of `other` into the map, in place of what stands under
    /// the same name.
    pub fn extend(&mut self, other: &NameMap<String>)
        ensures
            final(self).wf(),
            final(self).text_map() == old(self).text_map().union_prefer_right(other.text_map()),
    {
        proof {
            use_type_invariant(&*self);
            use_type_invariant(other);
        }
        let ghost first = self.text_map();
        let ghost done = Map::<Seq<char>, Seq<char>>::empty();
        let mut i: usize = 0;
        proof {
            assert(first.union_prefer_right(done) =~= first);
        }
        while i < other.len()
            invariant
                self.wf(),
                other.wf(),
                i <= other.names().len(),
                done =~= other.text_map().restrict(
                    Set::new(|n: Seq<char>| other.names().take(i as int).contains(n)),
                ),
                self.text_map() == first.union_prefer_right(done),
            decreases other.names().len() - i,
        {
            let name = other.name_at(i);
            let value = other.value_at(i);
            let ghost key = name@;
            let ghost text = value@;
            self.insert_text(name.as_str(), value.as_str());
            proof {
                let next = done.insert(key, text);
                let seen = other.names().take(i + 1);
                assert(seen =~= other.names().take(i as int).push(key));
                assert forall|n: Seq<char>| seen.contains(n) == (other.names().take(
                    i as int,
                ).contains(n) || n == key) by {
                    if other.names().take(i as int).contains(n) {
                        let j = other.names().take(i as int).index_of(n);
                        assert(seen[j] == n);
                    }
                    if n == key {
                        assert(seen[i as int] == n);
                    }
                }
                other.name_is_unique(i as int);
                done = next;
                assert(self.text_map() =~= first.union_prefer_right(done));
            }
            i += 1;
        }
        proof {
            assert(other.names().take(i as int) =~= other.names());
            assert(done =~= other.text_map());
        }
    }

    /// A map with the same entries.
    pub fn duplicate(&self) -> (r: NameMap<String>)
        ensures
            r.wf(),
            r.text_map() == self.text_map(),
    {
        let mut r = NameMap::<String>::new();
        proof {
            assert(r.text_map() =~= Map::empty());
        }
        r.extend(self);
        proof {
            assert(Map::<Seq<char>, Seq<char>>::empty().union_prefer_right(self.text_map())
                =~= self.text_map());
        }
        r
    }
}

/// The map of a list of names holds exactly these names, each with its value.
pub proof fn map_holds_the_names<V>(names: NameMap<V>, i: int, other: Seq<char>)
    requires
        names.wf(),
        0 <= i < names.names().len(),
    ensures
        names.map().contains_key(names.names()[i]),
        names.map()[names.names()[i]] == names.value(i),
        names.map().contains_key(other) <==> names.names().contains(other),
{
    names.name_is_unique(i);
}

/// The texts of a map are those of its values, under the same names.
pub proof fn texts_are_those_of_the_values(map: NameMap<String>, i: int, other: Seq<char>)
    requires
        map.wf(),
        0 <= i < map.names().len(),
    ensures
        map.text_map().contains_key(map.names()[i]),
        map.text_map()[map.names()[i]] == map.value(i)@,
        map.text_map().contains_key(other) <==> map.names().contains(other),
{
    map.name_is_unique(i);
}

} // verus!
