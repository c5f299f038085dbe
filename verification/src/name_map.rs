//! A map from names to values that keeps its entries in the order in
//! which their names first came.

use vstd::prelude::*;

verus! {

/// Whether no two of `entries` carry the same name.
pub open spec fn distinct_names<V>(entries: Seq<(String, V)>) -> bool {
    forall|i: int, j: int|
        0 <= i < j < entries.len() ==> (#[trigger] entries[i]).0@ != (#[trigger] entries[j]).0@
}

/// The map that `entries` spell out, a later entry overriding an earlier
/// one of the same name.
pub open spec fn map_of<V>(entries: Seq<(String, V)>) -> Map<Seq<char>, V>
    decreases entries.len(),
{
    if entries.len() == 0 {
        Map::empty()
    } else {
        map_of(entries.drop_last()).insert(entries.last().0@, entries.last().1)
    }
}

/// Whether one of `entries` carries the name `name`.
pub open spec fn has_name<V>(entries: Seq<(String, V)>, name: Seq<char>) -> bool {
    exists|i: int| 0 <= i < entries.len() && (#[trigger] entries[i]).0@ == name
}

/// The names of `map_of` are those of the entries.
pub proof fn lemma_map_of_names<V>(entries: Seq<(String, V)>, name: Seq<char>)
    ensures
        map_of(entries).contains_key(name) <==> has_name(entries, name),
    decreases entries.len(),
{
    if entries.len() > 0 {
        let front = entries.drop_last();
        lemma_map_of_names(front, name);
        if has_name(entries, name) {
            let i = choose|i: int| 0 <= i < entries.len() && (#[trigger] entries[i]).0@ == name;
            if i < entries.len() - 1 {
                assert(front[i] == entries[i]);
            }
        }
        if has_name(front, name) {
            let i = choose|i: int| 0 <= i < front.len() && (#[trigger] front[i]).0@ == name;
            assert(entries[i] == front[i]);
        }
        if entries.last().0@ == name {
            assert(entries[entries.len() - 1].0@ == name);
        }
    }
}

/// Where no name stands twice, `map_of` gives each name the value that
/// stands with it.
pub proof fn lemma_map_of_value<V>(entries: Seq<(String, V)>, i: int)
    requires
        distinct_names(entries),
        0 <= i < entries.len(),
    ensures
        map_of(entries).contains_key(entries[i].0@),
        map_of(entries)[entries[i].0@] == entries[i].1,
    decreases entries.len(),
{
    let front = entries.drop_last();
    if i < entries.len() - 1 {
        assert(front[i] == entries[i]);
        assert forall|a: int, b: int| 0 <= a < b < front.len() implies (#[trigger] front[a]).0@
            != (#[trigger] front[b]).0@ by {
            assert(front[a] == entries[a]);
            assert(front[b] == entries[b]);
        }
        lemma_map_of_value(front, i);
        assert(entries[i].0@ != entries[entries.len() - 1].0@);
    }
}

/// Where no name stands twice, `map_of` has as many names as there are
/// entries.
pub proof fn lemma_map_of_len<V>(entries: Seq<(String, V)>)
    requires
        distinct_names(entries),
    ensures
        map_of(entries).dom().finite(),
        map_of(entries).dom().len() == entries.len(),
    decreases entries.len(),
{
    if entries.len() > 0 {
        let front = entries.drop_last();
        assert forall|a: int, b: int| 0 <= a < b < front.len() implies (#[trigger] front[a]).0@
            != (#[trigger] front[b]).0@ by {
            assert(front[a] == entries[a]);
            assert(front[b] == entries[b]);
        }
        lemma_map_of_len(front);
        let name = entries.last().0@;
        lemma_map_of_names(front, name);
        if has_name(front, name) {
            let i = choose|i: int| 0 <= i < front.len() && (#[trigger] front[i]).0@ == name;
            assert(front[i] == entries[i]);
            assert(entries[i].0@ != entries[entries.len() - 1].0@);
        }
        assert(map_of(entries).dom() =~= map_of(front).dom().insert(name));
    }
}

/// A map from names to values.
pub struct NameMap<V> {
    entries: Vec<(String, V)>,
}

impl<V> View for NameMap<V> {
    type V = Map<Seq<char>, V>;

    closed spec fn view(&self) -> Map<Seq<char>, V> {
        map_of(self.entries@)
    }
}

impl<V> NameMap<V> {
    /// The entries, each name once, in the order in which the names first
    /// came.
    pub closed spec fn listed(&self) -> Seq<(String, V)> {
        self.entries@
    }
}

impl<V> NameMap<V> {
    #[verifier::type_invariant]
    spec fn no_name_twice(&self) -> bool {
        distinct_names(self.entries@)
    }

    /// The map without entries.
    pub fn new() -> (m: NameMap<V>)
        ensures
            m@ == Map::<Seq<char>, V>::empty(),
    {
        NameMap { entries: Vec::new() }
    }

    /// The position of the entry named `name`.
    fn position(&self, name: &str) -> (r: Option<usize>)
        ensures
            match r {
                Some(i) => i < self.entries.len() && self.entries[i as int].0@ == name@,
                None => !has_name(self.entries@, name@),
            },
    {
        let key = name.to_string();
        let mut i: usize = 0;
        while i < self.entries.len()
            invariant
                i <= self.entries.len(),
                key@ == name@,
                forall|k: int| 0 <= k < i ==> (#[trigger] self.entries[k]).0@ != name@,
            decreases self.entries.len() - i,
        {
            if self.entries[i].0 == key {
                return Some(i);
            }
            i += 1;
        }
        None
    }

    /// Gives `name` the value `value`, in place of the one it had, if any.
    pub fn insert(&mut self, name: String, value: V)
        ensures
            final(self)@ == old(self)@.insert(name@, value),
    {
        proof {
            use_type_invariant(&*self);
        }
        let ghost before = self.entries@;
        let found = self.position(name.as_str());
        let mut entries: Vec<(String, V)> = Vec::new();
        core::mem::swap(&mut self.entries, &mut entries);
        match found {
            Some(i) => {
                entries.set(i, (name, value));
                proof {
                    let after = entries@;
                    assert(after == before.update(i as int, (name, value)));
                    assert forall|a: int, b: int| 0 <= a < b < after.len() implies (
                    #[trigger] after[a]).0@ != (#[trigger] after[b]).0@ by {
                        assert(after[a].0@ == before[a].0@);
                        assert(after[b].0@ == before[b].0@);
                    }
                    assert forall|k: Seq<char>|
                        map_of(after).contains_key(k) <==> #[trigger] map_of(before).insert(
                            name@,
                            value,
                        ).contains_key(k) by {
                        lemma_map_of_names(after, k);
                        lemma_map_of_names(before, k);
                        if has_name(after, k) {
                            let j = choose|j: int|
                                0 <= j < after.len() && (#[trigger] after[j]).0@ == k;
                            assert(before[j].0@ == k);
                        }
                        if has_name(before, k) {
                            let j = choose|j: int|
                                0 <= j < before.len() && (#[trigger] before[j]).0@ == k;
                            assert(after[j].0@ == k);
                        }
                        if k == name@ {
                            assert(after[i as int].0@ == k);
                        }
                    }
                    assert forall|k: Seq<char>| #[trigger]
                        map_of(after).contains_key(k) implies map_of(after)[k] == map_of(
                        before,
                    ).insert(name@, value)[k] by {
                        lemma_map_of_names(after, k);
                        let j = choose|j: int|
                            0 <= j < after.len() && (#[trigger] after[j]).0@ == k;
                        lemma_map_of_value(after, j);
                        lemma_map_of_value(before, j);
                        if j != i {
                            assert(after[j] == before[j]);
                            assert(before[j].0@ != before[i as int].0@);
                        }
                    }
                    assert(map_of(after) =~= map_of(before).insert(name@, value));
                }
            },
            None => {
                entries.push((name, value));
                proof {
                    let after = entries@;
                    assert(after.drop_last() == before);
                    assert forall|a: int, b: int| 0 <= a < b < after.len() implies (
                    #[trigger] after[a]).0@ != (#[trigger] after[b]).0@ by {
                        assert(after[a] == before[a]);
                        if b < before.len() {
                            assert(after[b] == before[b]);
                        }
                    }
                }
            },
        }
        core::mem::swap(&mut self.entries, &mut entries);
    }

    /// The value that stands with `name`.
    pub fn get(&self, name: &str) -> (r: Option<&V>)
        ensures
            match r {
                Some(v) => self@.contains_key(name@) && self@[name@] == *v,
                None => !self@.contains_key(name@),
            },
    {
        proof {
            use_type_invariant(self);
            lemma_map_of_names(self.entries@, name@);
        }
        match self.position(name) {
            Some(i) => {
                proof {
                    lemma_map_of_value(self.entries@, i as int);
                }
                Some(&self.entries[i].1)
            },
            None => None,
        }
    }

    /// Whether `name` has a value.
    pub fn contains_key(&self, name: &str) -> (b: bool)
        ensures
            b == self@.contains_key(name@),
    {
        self.get(name).is_some()
    }

    /// How many names have a value.
    pub fn len(&self) -> (n: usize)
        ensures
            self@.dom().finite(),
            n == self@.dom().len(),
    {
        proof {
            use_type_invariant(self);
            lemma_map_of_len(self.entries@);
        }
        self.entries.len()
    }

    /// The entries, each name once, in the order in which the names first
    /// came.
    pub fn entries(&self) -> (r: &Vec<(String, V)>)
        ensures
            r@ == self.listed(),
            distinct_names(r@),
            map_of(r@) == self@,
    {
        proof {
            use_type_invariant(self);
        }
        &self.entries
    }
}

} // verus!
