//! A small map keyed by strings that keeps its entries in insertion order.

use vstd::prelude::*;

verus! {

/// No name occurs at two positions of `s`.
pub open spec fn names_distinct<V>(s: Seq<(Seq<char>, V)>) -> bool {
    forall|i: int, j: int| 0 <= i < j < s.len() ==> s[i].0 != s[j].0
}

/// `name` occurs at some position of `s`.
pub open spec fn has_name<V>(s: Seq<(Seq<char>, V)>, name: Seq<char>) -> bool {
    exists|i: int| 0 <= i < s.len() && #[trigger] s[i].0 == name
}

/// `i` is the first position of `s` that holds `name`.
pub open spec fn is_first<V>(s: Seq<(Seq<char>, V)>, name: Seq<char>, i: int) -> bool {
    &&& 0 <= i < s.len()
    &&& s[i].0 == name
    &&& forall|j: int| 0 <= j < i ==> #[trigger] s[j].0 != name
}

/// The first position of `name` in `s`; meaningful where `has_name(s, name)`.
pub open spec fn first_index<V>(s: Seq<(Seq<char>, V)>, name: Seq<char>) -> int {
    choose|i: int| is_first(s, name, i)
}

/// The mapping that a sequence of entries stands for: each name is bound to
/// the value at its first position.
pub open spec fn entries_map<V>(s: Seq<(Seq<char>, V)>) -> Map<Seq<char>, V> {
    Map::new(|name: Seq<char>| has_name(s, name), |name: Seq<char>| s[first_index(s, name)].1)
}

/// `s` with `name` bound to `value`: in place where `name` is present, at the
/// end where it is not.
pub open spec fn put<V>(s: Seq<(Seq<char>, V)>, name: Seq<char>, value: V) -> Seq<
    (Seq<char>, V),
> {
    if has_name(s, name) {
        s.update(first_index(s, name), (name, value))
    } else {
        s.push((name, value))
    }
}

proof fn lemma_first_below<V>(s: Seq<(Seq<char>, V)>, name: Seq<char>, k: int)
    requires
        0 <= k < s.len(),
        s[k].0 == name,
    ensures
        exists|i: int| is_first(s, name, i),
    decreases k,
{
    if exists|j: int| 0 <= j < k && #[trigger] s[j].0 == name {
        let j = choose|j: int| 0 <= j < k && #[trigger] s[j].0 == name;
        lemma_first_below(s, name, j);
    } else {
        assert(is_first(s, name, k));
    }
}

/// A name that occurs has a first position, and `first_index` is it.
pub proof fn lemma_first_index<V>(s: Seq<(Seq<char>, V)>, name: Seq<char>)
    requires
        has_name(s, name),
    ensures
        is_first(s, name, first_index(s, name)),
{
    let k = choose|i: int| 0 <= i < s.len() && #[trigger] s[i].0 == name;
    lemma_first_below(s, name, k);
}

/// Only one position is the first of a name.
pub proof fn lemma_first_unique<V>(s: Seq<(Seq<char>, V)>, name: Seq<char>, i: int, j: int)
    requires
        is_first(s, name, i),
        is_first(s, name, j),
    ensures
        i == j,
{
    if i < j {
        assert(s[i].0 != name);
    } else if j < i {
        assert(s[j].0 != name);
    }
}

/// Every entry of a sequence without repeated names is found in its mapping.
pub proof fn lemma_entries_map<V>(s: Seq<(Seq<char>, V)>)
    requires
        names_distinct(s),
    ensures
        forall|i: int|
            0 <= i < s.len() ==> entries_map(s).contains_key(#[trigger] s[i].0) && entries_map(
                s,
            )[s[i].0] == s[i].1,
{
    assert forall|i: int| 0 <= i < s.len() implies entries_map(s).contains_key(
        #[trigger] s[i].0,
    ) && entries_map(s)[s[i].0] == s[i].1 by {
        let name = s[i].0;
        assert(has_name(s, name));
        lemma_first_index(s, name);
        let j = first_index(s, name);
        assert(i == j);
    }
}

/// Binding a name in the entries binds it in the mapping, and keeps distinct
/// names distinct.
pub proof fn lemma_put<V>(s: Seq<(Seq<char>, V)>, name: Seq<char>, value: V)
    ensures
        entries_map(put(s, name, value)) == entries_map(s).insert(name, value),
        names_distinct(s) ==> names_distinct(put(s, name, value)),
        has_name(s, name) ==> put(s, name, value).len() == s.len(),
        !has_name(s, name) ==> put(s, name, value) == s.push((name, value)),
{
    let t = put(s, name, value);
    if has_name(s, name) {
        lemma_first_index(s, name);
    }
    assert forall|i: int| 0 <= i < s.len() implies #[trigger] t[i].0 == s[i].0 by {}
    if names_distinct(s) {
        assert forall|i: int, j: int| 0 <= i < j < t.len() implies t[i].0 != t[j].0 by {
            assert(t[i].0 == s[i].0);
            if j < s.len() {
                assert(t[j].0 == s[j].0);
            } else {
                assert(s[i].0 != name);
            }
        }
    }
    let a = entries_map(t);
    let b = entries_map(s).insert(name, value);
    assert forall|n: Seq<char>| a.contains_key(n) <==> b.contains_key(n) by {
        if has_name(t, n) {
            let i = choose|i: int| 0 <= i < t.len() && #[trigger] t[i].0 == n;
            if i < s.len() {
                assert(s[i].0 == n);
            }
        }
        if has_name(s, n) {
            let i = choose|i: int| 0 <= i < s.len() && #[trigger] s[i].0 == n;
            assert(t[i].0 == n);
        }
        if n == name && !has_name(s, name) {
            assert(t[s.len() as int].0 == n);
        }
    }
    assert forall|n: Seq<char>| a.contains_key(n) implies a[n] == b[n] by {
        lemma_first_index(t, n);
        let i = first_index(t, n);
        if i < s.len() {
            assert(s[i].0 == n);
            assert forall|j: int| 0 <= j < i implies #[trigger] s[j].0 != n by {
                assert(t[j].0 != n);
            }
            assert(is_first(s, n, i));
            lemma_first_index(s, n);
            lemma_first_unique(s, n, i, first_index(s, n));
        }
    }
    assert(a =~= b);
}

/// A map from strings to values that remembers the order of insertion.
#[derive(Clone, Debug)]
pub struct StringMap<V> {
    items: Vec<(String, V)>,
}

impl<V> View for StringMap<V> {
    type V = Map<Seq<char>, V>;

    open spec fn view(&self) -> Map<Seq<char>, V> {
        entries_map(self.entries())
    }
}

impl<V> StringMap<V> {
    /// The entries in insertion order, each name by its characters.
    pub closed spec fn entries(&self) -> Seq<(Seq<char>, V)> {
        self.items@.map_values(|e: (String, V)| (e.0@, e.1))
    }

    /// No name is bound twice.
    pub open spec fn wf(&self) -> bool {
        names_distinct(self.entries())
    }

    /// An empty map.
    pub fn new() -> (m: Self)
        ensures
            m.wf(),
            m.entries() == Seq::<(Seq<char>, V)>::empty(),
            m@ == Map::<Seq<char>, V>::empty(),
    {
        let m = StringMap { items: Vec::new() };
        proof {
            assert(m.entries() =~= Seq::<(Seq<char>, V)>::empty());
            assert(m@ =~= Map::<Seq<char>, V>::empty());
        }
        m
    }

    /// Number of entries.
    pub fn len(&self) -> (n: usize)
        ensures
            n == self.entries().len(),
    {
        self.items.len()
    }

    /// The name of the entry at position `i`.
    pub fn name_at(&self, i: usize) -> (name: &String)
        requires
            i < self.entries().len(),
        ensures
            name@ == self.entries()[i as int].0,
    {
        &self.items[i].0
    }

    /// The value of the entry at position `i`.
    pub fn value_at(&self, i: usize) -> (value: &V)
        requires
            i < self.entries().len(),
        ensures
            *value == self.entries()[i as int].1,
    {
        &self.items[i].1
    }

    /// Position of `name` among the entries.
    fn find(&self, name: &String) -> (r: Option<usize>)
        ensures
            match r {
                Some(i) => is_first(self.entries(), name@, i as int),
                None => !has_name(self.entries(), name@),
            },
    {
        let mut i: usize = 0;
        while i < self.items.len()
            invariant
                i <= self.items.len(),
                forall|j: int| 0 <= j < i ==> self.entries()[j].0 != name@,
            decreases self.items.len() - i,
        {
            if self.items[i].0 == *name {
                return Some(i);
            }
            i += 1;
        }
        None
    }

    /// The value bound to `name`, if any.
    pub fn get(&self, name: &str) -> (r: Option<&V>)
        ensures
            match r {
                Some(v) => self@.contains_key(name@) && self@[name@] == *v,
                None => !self@.contains_key(name@),
            },
    {
        let owned: String = name.to_owned();
        match self.find(&owned) {
            Some(i) => {
                proof {
                    assert(has_name(self.entries(), name@));
                    lemma_first_index(self.entries(), name@);
                    lemma_first_unique(
                        self.entries(),
                        name@,
                        i as int,
                        first_index(self.entries(), name@),
                    );
                }
                Some(&self.items[i].1)
            },
            None => None,
        }
    }

    /// Whether `name` is bound.
    pub fn contains_key(&self, name: &str) -> (r: bool)
        ensures
            r == self@.contains_key(name@),
    {
        self.get(name).is_some()
    }

    /// Binds `name` to `value`, replacing an earlier binding of the same name
    /// where it stands.
    pub fn insert(&mut self, name: String, value: V)
        ensures
            old(self).wf() ==> final(self).wf(),
            final(self).entries() == put(old(self).entries(), name@, value),
            final(self)@ == old(self)@.insert(name@, value),
    {
        proof {
            lemma_put(self.entries(), name@, value);
        }
        let ghost before = self.entries();
        match self.find(&name) {
            Some(i) => {
                proof {
                    assert(has_name(before, name@));
                    lemma_first_index(before, name@);
                    lemma_first_unique(before, name@, i as int, first_index(before, name@));
                }
                self.items.set(i, (name, value));
                assert(self.entries() =~= put(before, name@, value));
            },
            None => {
                self.items.push((name, value));
                assert(self.entries() =~= put(before, name@, value));
            },
        }
    }

    /// The map that binds the pairs one after the other: of several pairs
    /// with one name, the first gives the place and the last the value.
    pub fn from_entries(pairs: Vec<(String, V)>) -> (m: Self)
        ensures
            m.wf(),
            m.entries() == collected(pairs_view(pairs@)),
    {
        let ghost all = pairs_view(pairs@);
        let ghost n = all.len() as int;
        let mut pending = pairs;
        let mut reversed: Vec<(String, V)> = Vec::new();
        while pending.len() > 0
            invariant
                n == all.len(),
                pending@.len() + reversed@.len() == n,
                forall|i: int|
                    0 <= i < pending@.len() ==> (#[trigger] pending@[i]).0@ == all[i].0
                        && pending@[i].1 == all[i].1,
                forall|j: int|
                    0 <= j < reversed@.len() ==> (#[trigger] reversed@[j]).0@ == all[n - 1 - j].0
                        && reversed@[j].1 == all[n - 1 - j].1,
            decreases pending@.len(),
        {
            match pending.pop() {
                Some(pair) => {
                    reversed.push(pair);
                },
                None => {},
            }
        }
        let mut m: StringMap<V> = StringMap::new();
        proof {
            assert(all.take(0) =~= Seq::empty());
        }
        while reversed.len() > 0
            invariant
                n == all.len(),
                reversed@.len() <= n,
                forall|j: int|
                    0 <= j < reversed@.len() ==> (#[trigger] reversed@[j]).0@ == all[n - 1 - j].0
                        && reversed@[j].1 == all[n - 1 - j].1,
                m.wf(),
                m.entries() == collected(all.take(n - reversed@.len())),
            decreases reversed@.len(),
        {
            let ghost k = n - reversed@.len();
            let ghost last = reversed@[reversed@.len() - 1];
            match reversed.pop() {
                Some(pair) => {
                    proof {
                        assert(pair == last);
                        assert(all.take(k + 1).drop_last() =~= all.take(k));
                        assert(all.take(k + 1).last() == all[k]);
                    }
                    m.insert(pair.0, pair.1);
                },
                None => {},
            }
        }
        proof {
            assert(all.take(n) =~= all);
        }
        m
    }
}

/// The pairs of a vector, each name by its characters.
pub open spec fn pairs_view<V>(pairs: Seq<(String, V)>) -> Seq<(Seq<char>, V)> {
    pairs.map_values(|e: (String, V)| (e.0@, e.1))
}

/// The entries that binding the pairs one after the other gives.
pub open spec fn collected<V>(pairs: Seq<(Seq<char>, V)>) -> Seq<(Seq<char>, V)>
    decreases pairs.len(),
{
    if pairs.len() == 0 {
        Seq::empty()
    } else {
        put(collected(pairs.drop_last()), pairs.last().0, pairs.last().1)
    }
}

} // verus!
