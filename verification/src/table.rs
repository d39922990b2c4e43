//! Tables and sets keyed by name, in the order in which names were added.
use vstd::prelude::*;

use crate::text::same;

verus! {

// ---------------------------------------------------------------------------
// Table
// ---------------------------------------------------------------------------

/// A map from names to values.
pub struct Table<V> {
    entries: Vec<(String, V)>,
}

/// Entry `i` is called `name`.
pub open spec fn entry_has<V>(entries: Seq<(String, V)>, name: Seq<char>, i: int) -> bool {
    0 <= i < entries.len() && entries[i].0@ == name
}

/// The map that the entries state.
pub open spec fn entries_map<V>(entries: Seq<(String, V)>) -> Map<Seq<char>, V> {
    Map::new(
        |name: Seq<char>| exists|i: int| entry_has(entries, name, i),
        |name: Seq<char>| entries[choose|i: int| entry_has(entries, name, i)].1,
    )
}

/// No two entries share a name.
pub open spec fn entries_distinct<V>(entries: Seq<(String, V)>) -> bool {
    forall|i: int, j: int|
        0 <= i < j < entries.len() ==> (#[trigger] entries[i]).0@ != (#[trigger] entries[j]).0@
}

proof fn lemma_entry<V>(entries: Seq<(String, V)>, i: int)
    requires
        entries_distinct(entries),
        0 <= i < entries.len(),
    ensures
        entries_map(entries).contains_key(entries[i].0@),
        entries_map(entries)[entries[i].0@] == entries[i].1,
{
    let name = entries[i].0@;
    assert(entry_has(entries, name, i));
    let j = choose|j: int| entry_has(entries, name, j);
    assert(entries[i].0@ == entries[j].0@);
}

impl<V> View for Table<V> {
    type V = Map<Seq<char>, V>;

    closed spec fn view(&self) -> Map<Seq<char>, V> {
        entries_map(self.entries@)
    }
}

impl<V> Table<V> {
    /// No two entries share a name.
    pub closed spec fn wf(&self) -> bool {
        entries_distinct(self.entries@)
    }

    /// The names, in order.
    pub closed spec fn order(&self) -> Seq<Seq<char>> {
        Seq::new(self.entries@.len(), |i: int| self.entries@[i].0@)
    }

    /// A table without entries.
    pub fn new() -> (r: Table<V>)
        ensures
            r.wf(),
            r@ == Map::<Seq<char>, V>::empty(),
            r.order() == Seq::<Seq<char>>::empty(),
    {
        let r = Table { entries: Vec::new() };
        assert(r@ =~= Map::<Seq<char>, V>::empty());
        assert(r.order() =~= Seq::<Seq<char>>::empty());
        r
    }

    fn position(&self, name: &str) -> (r: Option<usize>)
        requires
            self.wf(),
        ensures
            match r {
                Some(i) => entry_has(self.entries@, name@, i as int) && self@.contains_key(name@) && self@[name@]
                    == self.entries@[i as int].1,
                None => !self@.contains_key(name@) && forall|i: int|
                    0 <= i < self.entries@.len() ==> (#[trigger] self.entries@[i]).0@ != name@,
            },
    {
        let mut i: usize = 0;
        while i < self.entries.len()
            invariant
                self.wf(),
                i <= self.entries@.len(),
                forall|j: int| 0 <= j < i ==> (#[trigger] self.entries@[j]).0@ != name@,
            decreases self.entries@.len() - i,
        {
            if same(self.entries[i].0.as_str(), name) {
                proof {
                    lemma_entry(self.entries@, i as int);
                }
                return Some(i);
            }
            i += 1;
        }
        None
    }

    /// The value under `name`.
    pub fn get(&self, name: &str) -> (r: Option<&V>)
        requires
            self.wf(),
        ensures
            match r {
                Some(v) => self@.contains_key(name@) && *v == self@[name@],
                None => !self@.contains_key(name@),
            },
    {
        match self.position(name) {
            Some(i) => Some(&self.entries[i].1),
            None => None,
        }
    }

    /// Whether there is a value under `name`.
    pub fn contains(&self, name: &str) -> (r: bool)
        requires
            self.wf(),
        ensures
            r == self@.contains_key(name@),
    {
        self.position(name).is_some()
    }

    /// How many entries there are.
    pub fn len(&self) -> (r: usize)
        requires
            self.wf(),
        ensures
            r == self.order().len(),
    {
        self.entries.len()
    }

    /// Entry number `i`.
    pub fn at(&self, i: usize) -> (r: (&str, &V))
        requires
            self.wf(),
            i < self.order().len(),
        ensures
            r.0@ == self.order()[i as int],
            self@.contains_key(r.0@),
            *r.1 == self@[r.0@],
    {
        proof {
            lemma_entry(self.entries@, i as int);
        }
        (self.entries[i].0.as_str(), &self.entries[i].1)
    }

    /// Puts `value` under `name`: in place of the value that is there, or
    /// else at the end.
    pub fn insert(&mut self, name: &str, value: V)
        requires
            old(self).wf(),
        ensures
            final(self).wf(),
            final(self)@ == old(self)@.insert(name@, value),
            final(self).order() == (if old(self)@.contains_key(name@) {
                old(self).order()
            } else {
                old(self).order().push(name@)
            }),
    {
        let ghost before = self.entries@;
        match self.position(name) {
            Some(i) => {
                self.entries.set(i, (name.to_owned(), value));
                proof {
                    let after = self.entries@;
                    assert forall|a: int, b: int| 0 <= a < b < after.len() implies (#[trigger] after[a]).0@ != (
                    #[trigger] after[b]).0@ by {
                        assert(after[a].0@ == before[a].0@);
                        assert(after[b].0@ == before[b].0@);
                    }
                    assert forall|n: Seq<char>| self@.contains_key(n) == old(self)@.insert(
                        name@,
                        value,
                    ).contains_key(n) by {
                        if self@.contains_key(n) {
                            let j = choose|j: int| entry_has(after, n, j);
                            assert(entry_has(before, n, j));
                        }
                        if old(self)@.contains_key(n) {
                            let j = choose|j: int| entry_has(before, n, j);
                            assert(entry_has(after, n, j));
                        }
                        assert(entry_has(after, name@, i as int));
                    }
                    assert forall|n: Seq<char>| self@.contains_key(n) implies self@[n] == old(self)@.insert(
                        name@,
                        value,
                    )[n] by {
                        let j = choose|j: int| entry_has(after, n, j);
                        lemma_entry(after, j);
                        if n != name@ {
                            lemma_entry(before, j);
                        } else {
                            lemma_entry(after, i as int);
                        }
                    }
                    assert(self@ =~= old(self)@.insert(name@, value));
                    assert(self.order() =~= old(self).order());
                }
            },
            None => {
                self.entries.push((name.to_owned(), value));
                proof {
                    let after = self.entries@;
                    let end = before.len() as int;
                    assert forall|n: Seq<char>| self@.contains_key(n) == old(self)@.insert(
                        name@,
                        value,
                    ).contains_key(n) by {
                        if self@.contains_key(n) && n != name@ {
                            let j = choose|j: int| entry_has(after, n, j);
                            assert(entry_has(before, n, j));
                        }
                        if old(self)@.contains_key(n) {
                            let j = choose|j: int| entry_has(before, n, j);
                            assert(entry_has(after, n, j));
                        }
                        assert(entry_has(after, name@, end));
                    }
                    assert forall|n: Seq<char>| self@.contains_key(n) implies self@[n] == old(self)@.insert(
                        name@,
                        value,
                    )[n] by {
                        let j = choose|j: int| entry_has(after, n, j);
                        lemma_entry(after, j);
                        if n != name@ {
                            lemma_entry(before, j);
                        } else {
                            lemma_entry(after, end);
                        }
                    }
                    assert(self@ =~= old(self)@.insert(name@, value));
                    assert(self.order() =~= old(self).order().push(name@));
                }
            },
        }
    }

    /// Takes the value under `name` out.
    pub fn remove(&mut self, name: &str) -> (r: Option<V>)
        requires
            old(self).wf(),
        ensures
            final(self).wf(),
            final(self)@ == old(self)@.remove(name@),
            match r {
                Some(v) => old(self)@.contains_key(name@) && v == old(self)@[name@],
                None => !old(self)@.contains_key(name@),
            },
            final(self).order().len() + (if r is Some { 1int } else { 0 }) == old(self).order().len(),
    {
        let ghost before = self.entries@;
        match self.position(name) {
            Some(i) => {
                let gone = self.entries.remove(i);
                proof {
                    let after = self.entries@;
                    assert forall|a: int, b: int| 0 <= a < b < after.len() implies (#[trigger] after[a]).0@ != (
                    #[trigger] after[b]).0@ by {
                        let pa = if a < i { a } else { a + 1 };
                        let pb = if b < i { b } else { b + 1 };
                        assert(after[a] == before[pa]);
                        assert(after[b] == before[pb]);
                    }
                    assert forall|n: Seq<char>| self@.contains_key(n) == old(self)@.remove(name@).contains_key(n) by {
                        if self@.contains_key(n) {
                            let j = choose|j: int| entry_has(after, n, j);
                            let p = if j < i { j } else { j + 1 };
                            assert(entry_has(before, n, p));
                            assert(before[p].0@ != before[i as int].0@);
                        }
                        if old(self)@.remove(name@).contains_key(n) {
                            let j = choose|j: int| entry_has(before, n, j);
                            let p = if j < i { j } else { j - 1 };
                            assert(entry_has(after, n, p));
                        }
                    }
                    assert forall|n: Seq<char>| self@.contains_key(n) implies self@[n] == old(self)@.remove(
                        name@,
                    )[n] by {
                        let j = choose|j: int| entry_has(after, n, j);
                        lemma_entry(after, j);
                        let p = if j < i { j } else { j + 1 };
                        lemma_entry(before, p);
                    }
                    assert(self@ =~= old(self)@.remove(name@));
                }
                Some(gone.1)
            },
            None => {
                assert(self@ =~= old(self)@.remove(name@));
                None
            },
        }
    }
}

/// The names of a table are the keys of its map, each once.
pub proof fn lemma_table_order<V>(t: &Table<V>)
    requires
        t.wf(),
    ensures
        t.order().no_duplicates(),
        forall|i: int| 0 <= i < t.order().len() ==> t@.contains_key(#[trigger] t.order()[i]),
        forall|n: Seq<char>| t@.contains_key(n) ==> t.order().contains(n),
{
    assert forall|i: int| 0 <= i < t.order().len() implies t@.contains_key(#[trigger] t.order()[i]) by {
        lemma_entry(t.entries@, i);
    }
    assert forall|n: Seq<char>| t@.contains_key(n) implies t.order().contains(n) by {
        let j = choose|j: int| entry_has(t.entries@, n, j);
        assert(t.order()[j] == n);
    }
    assert forall|i: int, j: int| 0 <= i < t.order().len() && 0 <= j < t.order().len() && i != j implies t.order()[i]
        != t.order()[j] by {
        if i < j {
            assert(t.entries@[i].0@ != t.entries@[j].0@);
        } else {
            assert(t.entries@[j].0@ != t.entries@[i].0@);
        }
    }
}

// ---------------------------------------------------------------------------
// NameSet
// ---------------------------------------------------------------------------

/// A set of names.
pub struct NameSet {
    names: Vec<String>,
}

impl View for NameSet {
    type V = Set<Seq<char>>;

    closed spec fn view(&self) -> Set<Seq<char>> {
        self.order().to_set()
    }
}

impl NameSet {
    /// No name occurs twice.
    pub closed spec fn wf(&self) -> bool {
        self.order().no_duplicates()
    }

    /// The names, in the order in which they were added.
    pub closed spec fn order(&self) -> Seq<Seq<char>> {
        Seq::new(self.names@.len(), |i: int| self.names@[i]@)
    }

    /// The empty set.
    pub fn new() -> (r: NameSet)
        ensures
            r.wf(),
            r@ == Set::<Seq<char>>::empty(),
            r.order() == Seq::<Seq<char>>::empty(),
    {
        let r = NameSet { names: Vec::new() };
        assert(r.order() =~= Seq::<Seq<char>>::empty());
        assert(r@ =~= Set::<Seq<char>>::empty());
        r
    }

    fn position(&self, name: &str) -> (r: Option<usize>)
        ensures
            match r {
                Some(i) => i < self.order().len() && self.order()[i as int] == name@ && self@.contains(name@),
                None => !self@.contains(name@),
            },
    {
        let mut i: usize = 0;
        while i < self.names.len()
            invariant
                i <= self.names@.len(),
                forall|j: int| 0 <= j < i ==> #[trigger] self.order()[j] != name@,
            decreases self.names@.len() - i,
        {
            if same(self.names[i].as_str(), name) {
                assert(self.order()[i as int] == name@);
                return Some(i);
            }
            i += 1;
        }
        None
    }

    /// Whether `name` is in the set.
    pub fn contains(&self, name: &str) -> (r: bool)
        ensures
            r == self@.contains(name@),
    {
        self.position(name).is_some()
    }

    /// How many names there are.
    pub fn len(&self) -> (r: usize)
        ensures
            r == self.order().len(),
    {
        self.names.len()
    }

    /// Whether there is no name.
    pub fn is_empty(&self) -> (r: bool)
        ensures
            r == (self@ == Set::<Seq<char>>::empty()),
    {
        let r = self.names.len() == 0;
        proof {
            if r {
                assert(self@ =~= Set::<Seq<char>>::empty());
            } else {
                assert(self.order().contains(self.order()[0]));
                assert(self@.contains(self.order()[0]));
            }
        }
        r
    }

    /// Name number `i`.
    pub fn at(&self, i: usize) -> (r: &str)
        requires
            i < self.order().len(),
        ensures
            r@ == self.order()[i as int],
    {
        self.names[i].as_str()
    }

    /// Adds `name`; says whether it was new.
    pub fn insert(&mut self, name: &str) -> (r: bool)
        requires
            old(self).wf(),
        ensures
            final(self).wf(),
            final(self)@ == old(self)@.insert(name@),
            r == !old(self)@.contains(name@),
            final(self).order() == (if r {
                old(self).order().push(name@)
            } else {
                old(self).order()
            }),
    {
        if self.contains(name) {
            assert(self@ =~= old(self)@.insert(name@));
            return false;
        }
        let ghost before = self.order();
        self.names.push(name.to_owned());
        proof {
            assert(self.order() =~= before.push(name@));
            assert forall|n: Seq<char>| self@.contains(n) == old(self)@.insert(name@).contains(n) by {
                if self.order().contains(n) && n != name@ {
                    let j = choose|j: int| 0 <= j < self.order().len() && self.order()[j] == n;
                    assert(before[j] == n);
                }
                if before.contains(n) {
                    let j = choose|j: int| 0 <= j < before.len() && before[j] == n;
                    assert(self.order()[j] == n);
                }
                assert(self.order()[before.len() as int] == name@);
            }
            assert(self@ =~= old(self)@.insert(name@));
        }
        true
    }

    /// Takes `name` out; says whether it was there.
    pub fn remove(&mut self, name: &str) -> (r: bool)
        requires
            old(self).wf(),
        ensures
            final(self).wf(),
            final(self)@ == old(self)@.remove(name@),
            r == old(self)@.contains(name@),
            final(self).order() == seq_without(old(self).order(), name@),
    {
        let ghost before = self.order();
        match self.position(name) {
            Some(i) => {
                let _gone = self.names.remove(i);
                proof {
                    assert(before.index_of(name@) == i as int);
                    assert(self.order() =~= before.remove(i as int));
                    assert forall|n: Seq<char>| self@.contains(n) == old(self)@.remove(name@).contains(n) by {
                        if self.order().contains(n) {
                            let j = choose|j: int| 0 <= j < self.order().len() && self.order()[j] == n;
                            let p = if j < i { j } else { j + 1 };
                            assert(before[p] == n);
                            assert(before[p] != before[i as int]);
                        }
                        if before.contains(n) && n != name@ {
                            let j = choose|j: int| 0 <= j < before.len() && before[j] == n;
                            let p = if j < i { j } else { j - 1 };
                            assert(self.order()[p] == n);
                        }
                    }
                    assert(self@ =~= old(self)@.remove(name@));
                }
                true
            },
            None => {
                assert(self@ =~= old(self)@.remove(name@));
                false
            },
        }
    }
}

/// A list of different names with `name` added at the end, unless it is there.
pub open spec fn seq_with(s: Seq<Seq<char>>, name: Seq<char>) -> Seq<Seq<char>> {
    if s.contains(name) {
        s
    } else {
        s.push(name)
    }
}

/// A list of different names with `name` taken out.
pub open spec fn seq_without(s: Seq<Seq<char>>, name: Seq<char>) -> Seq<Seq<char>> {
    if s.contains(name) {
        s.remove(s.index_of(name))
    } else {
        s
    }
}

/// The names of a set are its elements, each once.
pub proof fn lemma_set_order(s: &NameSet)
    requires
        s.wf(),
    ensures
        s.order().no_duplicates(),
        forall|i: int| 0 <= i < s.order().len() ==> s@.contains(#[trigger] s.order()[i]),
        forall|n: Seq<char>| s@.contains(n) <==> s.order().contains(n),
{
}

/// A name that is taken out is gone, and the others stay; a name that is put in
/// is there, once, and the others stay.
pub proof fn law_names_come_and_go(s: Seq<Seq<char>>, name: Seq<char>, other: Seq<char>)
    requires
        s.no_duplicates(),
    ensures
        !seq_without(s, name).contains(name),
        other != name ==> seq_without(s, name).contains(other) == s.contains(other),
        seq_with(s, name).contains(name),
        seq_with(s, name).no_duplicates(),
        other != name ==> seq_with(s, name).contains(other) == s.contains(other),
{
    let less = seq_without(s, name);
    if s.contains(name) {
        let i = s.index_of(name);
        assert forall|k: int| 0 <= k < less.len() implies less[k] != name by {
            if k < i {
                assert(less[k] == s[k]);
            } else {
                assert(less[k] == s[k + 1]);
            }
        }
        if other != name && s.contains(other) {
            let k = choose|k: int| 0 <= k < s.len() && s[k] == other;
            if k < i {
                assert(less[k] == other);
            } else {
                assert(less[k - 1] == other);
            }
        }
        if less.contains(other) {
            let k = choose|k: int| 0 <= k < less.len() && less[k] == other;
            if k < i {
                assert(s[k] == other);
            } else {
                assert(s[k + 1] == other);
            }
        }
    } else {
        let more = seq_with(s, name);
        assert(more[s.len() as int] == name);
        if s.contains(other) {
            let k = choose|k: int| 0 <= k < s.len() && s[k] == other;
            assert(more[k] == other);
        }
        if other != name && more.contains(other) {
            let k = choose|k: int| 0 <= k < more.len() && more[k] == other;
            assert(s[k] == other);
        }
    }
}

} // verus!
