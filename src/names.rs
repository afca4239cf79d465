//! A map from database names to values, kept as a vector of entries with
//! distinct names.
use vstd::prelude::*;

verus! {

/// Whether no two entries of `s` carry the same name.
pub open spec fn names_distinct<V>(s: Seq<(String, V)>) -> bool {
    forall|i: int, j: int| 0 <= i < j < s.len() ==> s[i].0@ != s[j].0@
}

/// Whether some entry of `s` carries the name `k`.
pub open spec fn has_name<V>(s: Seq<(String, V)>, k: Seq<char>) -> bool {
    exists|i: int| 0 <= i < s.len() && s[i].0@ == k
}

/// The position of an entry of `s` named `k`.
pub open spec fn position_of<V>(s: Seq<(String, V)>, k: Seq<char>) -> int {
    choose|i: int| 0 <= i < s.len() && s[i].0@ == k
}

/// The entries of `s` as a map from name to value.
pub open spec fn entries_map<V>(s: Seq<(String, V)>) -> Map<Seq<char>, V> {
    Map::new(|k: Seq<char>| has_name(s, k), |k: Seq<char>| s[position_of(s, k)].1)
}

/// The entries of `s` in order, each name by its characters.
pub open spec fn pairs_of<V>(s: Seq<(String, V)>) -> Seq<(Seq<char>, V)> {
    s.map_values(|e: (String, V)| (e.0@, e.1))
}

/// Ordered insertion: an entry already named `k` takes the value `v` where it
/// stands; otherwise `(k, v)` goes at the end.
pub open spec fn insert_pair<V>(s: Seq<(Seq<char>, V)>, k: Seq<char>, v: V) -> Seq<(Seq<char>, V)> {
    if exists|i: int| 0 <= i < s.len() && s[i].0 == k {
        s.update(choose|i: int| 0 <= i < s.len() && s[i].0 == k, (k, v))
    } else {
        s.push((k, v))
    }
}

/// A map keyed by name that keeps its entries in the order of first insertion.
pub struct NameMap<V> {
    pub entries: Vec<(String, V)>,
}

impl<V> View for NameMap<V> {
    type V = Map<Seq<char>, V>;

    open spec fn view(&self) -> Map<Seq<char>, V> {
        entries_map(self.entries@)
    }
}

impl<V> NameMap<V> {
    pub open spec fn wf(&self) -> bool {
        names_distinct(self.entries@)
    }

    pub fn new() -> (r: Self)
        ensures
            r.wf(),
            r@ == Map::<Seq<char>, V>::empty(),
            r.entries@.len() == 0,
    {
        let r = NameMap { entries: Vec::new() };
        assert(r@ =~= Map::<Seq<char>, V>::empty());
        r
    }

    /// The position of the entry named `name`, if there is one.
    pub fn find(&self, name: &String) -> (r: Option<usize>)
        requires
            self.wf(),
        ensures
            r is None <==> !self@.contains_key(name@),
            r matches Some(i) ==> i < self.entries@.len() && self.entries@[i as int].0@ == name@
                && self@[name@] == self.entries@[i as int].1,
    {
        let mut i: usize = 0;
        while i < self.entries.len()
            invariant
                self.wf(),
                0 <= i <= self.entries@.len(),
                forall|j: int| 0 <= j < i ==> self.entries@[j].0@ != name@,
            decreases self.entries@.len() - i,
        {
            if self.entries[i].0 == *name {
                proof {
                    lemma_lookup(self.entries@, i as int);
                }
                return Some(i);
            }
            i = i + 1;
        }
        None
    }

    pub fn get(&self, name: &String) -> (r: Option<&V>)
        requires
            self.wf(),
        ensures
            r is None <==> !self@.contains_key(name@),
            r matches Some(v) ==> *v == self@[name@],
    {
        match self.find(name) {
            Some(i) => Some(&self.entries[i].1),
            None => None,
        }
    }

    /// Maps `name` to `v`, handing back the value that it replaced.
    pub fn insert(&mut self, name: String, v: V) -> (r: Option<V>)
        requires
            old(self).wf(),
        ensures
            final(self).wf(),
            final(self)@ == old(self)@.insert(name@, v),
            pairs_of(final(self).entries@) == insert_pair(pairs_of(old(self).entries@), name@, v),
            r == old(self)@.get(name@),
    {
        let ghost s0 = self.entries@;
        let ghost pairs0 = pairs_of(s0);
        let ghost k = name@;
        match self.find(&name) {
            Some(i) => {
                let mut e = (name, v);
                std::mem::swap(&mut e, &mut self.entries[i]);
                proof {
                    lemma_replace(s0, i as int, self.entries@[i as int]);
                    assert(pairs0[i as int].0 == k);
                    let c = choose|j: int| 0 <= j < pairs0.len() && pairs0[j].0 == k;
                    assert(s0[c].0@ == s0[i as int].0@);
                    assert(pairs_of(self.entries@) =~= insert_pair(pairs0, k, v));
                }
                Some(e.1)
            },
            None => {
                self.entries.push((name, v));
                proof {
                    lemma_append(s0, self.entries@.last());
                    assert(!exists|j: int| 0 <= j < pairs0.len() && pairs0[j].0 == k) by {
                        if exists|j: int| 0 <= j < pairs0.len() && pairs0[j].0 == k {
                            let j = choose|j: int| 0 <= j < pairs0.len() && pairs0[j].0 == k;
                            assert(s0[j].0@ == k);
                        }
                    }
                    assert(pairs_of(self.entries@) =~= insert_pair(pairs0, k, v));
                }
                None
            },
        }
    }

    /// Removes the entry named `name`, handing back its value.
    pub fn remove(&mut self, name: &String) -> (r: Option<V>)
        requires
            old(self).wf(),
        ensures
            final(self).wf(),
            final(self)@ == old(self)@.remove(name@),
            r == old(self)@.get(name@),
    {
        let ghost s0 = self.entries@;
        match self.find(name) {
            Some(i) => {
                let e = self.entries.remove(i);
                proof {
                    lemma_delete(s0, i as int);
                }
                Some(e.1)
            },
            None => {
                assert(self@ =~= old(self)@.remove(name@));
                None
            },
        }
    }

    /// Empties the map, handing back all of its entries.
    pub fn drain_all(&mut self) -> (r: Vec<(String, V)>)
        requires
            old(self).wf(),
        ensures
            final(self).wf(),
            final(self)@ == Map::<Seq<char>, V>::empty(),
            names_distinct(r@),
            entries_map(r@) == old(self)@,
    {
        let mut r: Vec<(String, V)> = Vec::new();
        std::mem::swap(&mut r, &mut self.entries);
        assert(self@ =~= Map::<Seq<char>, V>::empty());
        r
    }
}

/// In a sequence with distinct names, the entry at `i` is what its name maps to.
pub proof fn lemma_lookup<V>(s: Seq<(String, V)>, i: int)
    requires
        names_distinct(s),
        0 <= i < s.len(),
    ensures
        entries_map(s).contains_key(s[i].0@),
        entries_map(s)[s[i].0@] == s[i].1,
        position_of(s, s[i].0@) == i,
{
    assert(has_name(s, s[i].0@));
    let j = position_of(s, s[i].0@);
    assert(0 <= j < s.len() && s[j].0@ == s[i].0@);
}

proof fn lemma_replace<V>(s: Seq<(String, V)>, i: int, e: (String, V))
    requires
        names_distinct(s),
        0 <= i < s.len(),
        e.0@ == s[i].0@,
    ensures
        names_distinct(s.update(i, e)),
        entries_map(s.update(i, e)) == entries_map(s).insert(e.0@, e.1),
{
    let t = s.update(i, e);
    assert(names_distinct(t)) by {
        assert forall|a: int, b: int| 0 <= a < b < t.len() implies t[a].0@ != t[b].0@ by {
            assert(t[a].0@ == s[a].0@ && t[b].0@ == s[b].0@);
        }
    }
    let m = entries_map(s).insert(e.0@, e.1);
    assert forall|k: Seq<char>| #[trigger] entries_map(t).contains_key(k) <==> m.contains_key(k) by {
        if has_name(s, k) {
            let j = position_of(s, k);
            assert(t[j].0@ == k);
        }
        if has_name(t, k) {
            let j = position_of(t, k);
            assert(s[j].0@ == k);
        }
    }
    assert forall|k: Seq<char>| #[trigger] entries_map(t).contains_key(k) implies entries_map(t)[k]
        == m[k] by {
        let j = position_of(t, k);
        lemma_lookup(t, j);
        if j != i {
            assert(s[j].0@ == k);
            lemma_lookup(s, j);
        }
    }
    assert(entries_map(t) =~= m);
}

proof fn lemma_append<V>(s: Seq<(String, V)>, e: (String, V))
    requires
        names_distinct(s),
        !has_name(s, e.0@),
    ensures
        names_distinct(s.push(e)),
        entries_map(s.push(e)) == entries_map(s).insert(e.0@, e.1),
{
    let t = s.push(e);
    assert(names_distinct(t)) by {
        assert forall|a: int, b: int| 0 <= a < b < t.len() implies t[a].0@ != t[b].0@ by {
            if b == s.len() {
                assert(t[a] == s[a]);
            } else {
                assert(t[a] == s[a] && t[b] == s[b]);
            }
        }
    }
    let m = entries_map(s).insert(e.0@, e.1);
    assert forall|k: Seq<char>| #[trigger] entries_map(t).contains_key(k) <==> m.contains_key(k) by {
        if has_name(s, k) {
            let j = position_of(s, k);
            assert(t[j].0@ == k);
        }
        if has_name(t, k) && k != e.0@ {
            let j = position_of(t, k);
            assert(s[j].0@ == k);
        }
        if k == e.0@ {
            assert(t[s.len() as int].0@ == k);
        }
    }
    assert forall|k: Seq<char>| #[trigger] entries_map(t).contains_key(k) implies entries_map(t)[k]
        == m[k] by {
        let j = position_of(t, k);
        lemma_lookup(t, j);
        if j != s.len() {
            assert(s[j] == t[j]);
            lemma_lookup(s, j);
        }
    }
    assert(entries_map(t) =~= m);
}

proof fn lemma_delete<V>(s: Seq<(String, V)>, i: int)
    requires
        names_distinct(s),
        0 <= i < s.len(),
    ensures
        names_distinct(s.remove(i)),
        entries_map(s.remove(i)) == entries_map(s).remove(s[i].0@),
{
    let t = s.remove(i);
    let k0 = s[i].0@;
    assert forall|a: int| 0 <= a < t.len() implies #[trigger] t[a] == (if a < i { s[a] } else { s[a
        + 1] }) by {}
    assert(names_distinct(t)) by {
        assert forall|a: int, b: int| 0 <= a < b < t.len() implies t[a].0@ != t[b].0@ by {
            let a1 = if a < i { a } else { a + 1 };
            let b1 = if b < i { b } else { b + 1 };
            assert(t[a] == s[a1] && t[b] == s[b1]);
        }
    }
    let m = entries_map(s).remove(k0);
    assert forall|k: Seq<char>| #[trigger] entries_map(t).contains_key(k) <==> m.contains_key(k) by {
        if has_name(s, k) && k != k0 {
            let j = position_of(s, k);
            let j1 = if j < i { j } else { j - 1 };
            assert(t[j1].0@ == k);
        }
        if has_name(t, k) {
            let j = position_of(t, k);
            let j1 = if j < i { j } else { j + 1 };
            assert(s[j1].0@ == k);
            assert(j1 != i);
        }
    }
    assert forall|k: Seq<char>| #[trigger] entries_map(t).contains_key(k) implies entries_map(t)[k]
        == m[k] by {
        let j = position_of(t, k);
        lemma_lookup(t, j);
        let j1 = if j < i { j } else { j + 1 };
        assert(s[j1] == t[j]);
        lemma_lookup(s, j1);
    }
    assert(entries_map(t) =~= m);
}

} // verus!
