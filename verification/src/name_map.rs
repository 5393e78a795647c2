//! A map from names to values, kept as a list of entries in insertion order.
//!
//! No name occurs twice; inserting an existing name replaces its value in place.
//! The abstract view is a `Map` from the characters of a name to its value.

use vstd::prelude::*;

verus! {

/// No name occurs twice among the entries.
pub open spec fn names_unique<V>(s: Seq<(String, V)>) -> bool {
    forall|i: int, j: int|
        0 <= i < s.len() && 0 <= j < s.len() && i != j ==> #[trigger] s[i].0@ != #[trigger] s[j].0@
}

/// Some entry carries the name `k`.
pub open spec fn has_name<V>(s: Seq<(String, V)>, k: Seq<char>) -> bool {
    exists|i: int| 0 <= i < s.len() && #[trigger] s[i].0@ == k
}

/// The position of the entry named `k`.
pub open spec fn position_of<V>(s: Seq<(String, V)>, k: Seq<char>) -> int {
    choose|i: int| 0 <= i < s.len() && #[trigger] s[i].0@ == k
}

/// The map that a list of entries with unique names stands for.
pub open spec fn entries_map<V>(s: Seq<(String, V)>) -> Map<Seq<char>, V> {
    Map::new(|k: Seq<char>| has_name(s, k), |k: Seq<char>| s[position_of(s, k)].1)
}

/// Looking up the name of the `i`-th entry yields that entry.
pub proof fn lemma_entries_map_at<V>(s: Seq<(String, V)>, i: int)
    requires
        names_unique(s),
        0 <= i < s.len(),
    ensures
        entries_map(s).contains_key(s[i].0@),
        entries_map(s)[s[i].0@] == s[i].1,
        position_of(s, s[i].0@) == i,
{
    assert(has_name(s, s[i].0@));
    let p = position_of(s, s[i].0@);
    assert(0 <= p < s.len() && s[p].0@ == s[i].0@);
}

/// Appending an entry with a fresh name inserts it into the map.
pub proof fn lemma_entries_map_push<V>(s: Seq<(String, V)>, e: (String, V))
    requires
        names_unique(s),
        !has_name(s, e.0@),
    ensures
        names_unique(s.push(e)),
        entries_map(s.push(e)) == entries_map(s).insert(e.0@, e.1),
{
    let t = s.push(e);
    assert forall|i: int, j: int|
        0 <= i < t.len() && 0 <= j < t.len() && i != j implies #[trigger] t[i].0@ != #[trigger] t[j].0@ by {
        if i < s.len() && j < s.len() {
            assert(t[i] == s[i] && t[j] == s[j]);
        } else if i == s.len() {
            assert(t[j] == s[j]);
        } else {
            assert(t[i] == s[i]);
        }
    }
    assert forall|k: Seq<char>| has_name(s, k) || k == e.0@ implies #[trigger] has_name(t, k) by {
        if k == e.0@ {
            assert(t[s.len() as int].0@ == k);
        } else if has_name(s, k) {
            let p = position_of(s, k);
            assert(t[p] == s[p]);
        }
    }
    assert forall|k: Seq<char>| #[trigger] has_name(t, k) implies has_name(s, k) || k == e.0@ by {
        let p = position_of(t, k);
        if p < s.len() {
            assert(s[p] == t[p]);
        }
    }
    assert forall|k: Seq<char>| has_name(t, k) implies #[trigger] entries_map(t)[k]
        == entries_map(s).insert(e.0@, e.1)[k] by {
        if k == e.0@ {
            lemma_entries_map_at(t, s.len() as int);
        } else {
            let p = position_of(s, k);
            assert(t[p] == s[p]);
            lemma_entries_map_at(t, p);
            lemma_entries_map_at(s, p);
        }
    }
    assert(entries_map(t) =~= entries_map(s).insert(e.0@, e.1));
}

/// Replacing the value of the `i`-th entry (keeping its name) updates the map at that name.
pub proof fn lemma_entries_map_update<V>(s: Seq<(String, V)>, i: int, e: (String, V))
    requires
        names_unique(s),
        0 <= i < s.len(),
        e.0@ == s[i].0@,
    ensures
        names_unique(s.update(i, e)),
        entries_map(s.update(i, e)) == entries_map(s).insert(e.0@, e.1),
{
    let t = s.update(i, e);
    assert forall|a: int, b: int|
        0 <= a < t.len() && 0 <= b < t.len() && a != b implies #[trigger] t[a].0@ != #[trigger] t[b].0@ by {
        assert(t[a].0@ == s[a].0@ && t[b].0@ == s[b].0@);
    }
    assert forall|k: Seq<char>| #[trigger] has_name(t, k) == has_name(s, k) by {
        if has_name(s, k) {
            let p = position_of(s, k);
            assert(t[p].0@ == s[p].0@);
        }
        if has_name(t, k) {
            let p = position_of(t, k);
            assert(t[p].0@ == s[p].0@);
        }
    }
    assert forall|k: Seq<char>| has_name(t, k) implies #[trigger] entries_map(t)[k]
        == entries_map(s).insert(e.0@, e.1)[k] by {
        let p = position_of(t, k);
        lemma_entries_map_at(t, p);
        if p != i {
            assert(t[p] == s[p]);
            lemma_entries_map_at(s, p);
        }
    }
    assert(entries_map(t) =~= entries_map(s).insert(e.0@, e.1));
}

/// The characters of every value of a map of texts.
pub open spec fn text_view(m: Map<Seq<char>, String>) -> Map<Seq<char>, Seq<char>> {
    m.map_values(|v: String| v@)
}

/// Taking the characters commutes with inserting and with merging.
pub proof fn lemma_text_view(a: Map<Seq<char>, String>, b: Map<Seq<char>, String>, k: Seq<char>, v: String)
    ensures
        text_view(a.insert(k, v)) == text_view(a).insert(k, v@),
        text_view(a.union_prefer_right(b)) == text_view(a).union_prefer_right(text_view(b)),
        text_view(Map::<Seq<char>, String>::empty()) == Map::<Seq<char>, Seq<char>>::empty(),
{
    assert(text_view(a.insert(k, v)) =~= text_view(a).insert(k, v@));
    assert(text_view(a.union_prefer_right(b)) =~= text_view(a).union_prefer_right(text_view(b)));
    assert(text_view(Map::<Seq<char>, String>::empty()) =~= Map::<Seq<char>, Seq<char>>::empty());
}

/// The first `i + 1` entries of a list with distinct names map like the first `i` with the
/// `i`-th added, and the `i`-th name does not occur before it.
pub proof fn lemma_entries_prefix<V>(s: Seq<(String, V)>, i: int)
    requires
        names_unique(s),
        0 <= i < s.len(),
    ensures
        names_unique(s.take(i)),
        !has_name(s.take(i), s[i].0@),
        s.take(i + 1) == s.take(i).push(s[i]),
        entries_map(s.take(i + 1)) == entries_map(s.take(i)).insert(s[i].0@, s[i].1),
{
    let prefix = s.take(i);
    assert(s.take(i + 1) =~= prefix.push(s[i]));
    assert forall|a: int, b: int| 0 <= a < prefix.len() && 0 <= b < prefix.len() && a != b implies #[trigger] prefix[a].0@
        != #[trigger] prefix[b].0@ by {
        assert(prefix[a] == s[a] && prefix[b] == s[b]);
    }
    if has_name(prefix, s[i].0@) {
        let p = position_of(prefix, s[i].0@);
        assert(prefix[p] == s[p]);
    }
    lemma_entries_map_push(prefix, s[i]);
}

/// A map from names to values with insertion-ordered entries and no repeated name.
#[derive(Debug)]
pub struct NameMap<V> {
    entries: Vec<(String, V)>,
}

impl<V> View for NameMap<V> {
    type V = Map<Seq<char>, V>;

    closed spec fn view(&self) -> Map<Seq<char>, V> {
        entries_map(self.entries@)
    }
}

impl<V> NameMap<V> {
    #[verifier::type_invariant]
    spec fn names_are_unique(self) -> bool {
        names_unique(self.entries@)
    }

    /// The entries, in the order their names were first inserted.
    pub closed spec fn entries(&self) -> Seq<(String, V)> {
        self.entries@
    }

    /// An empty map.
    pub fn new() -> (m: Self)
        ensures
            m@ == Map::<Seq<char>, V>::empty(),
            m.entries() == Seq::<(String, V)>::empty(),
    {
        let m = NameMap { entries: Vec::new() };
        assert(m@ =~= Map::<Seq<char>, V>::empty());
        m
    }

    /// The number of names in the map; also states how the entries make up the view.
    pub fn len(&self) -> (n: usize)
        ensures
            n == self.entries().len(),
            n == self@.len(),
            names_unique(self.entries()),
            self@ == entries_map(self.entries()),
            forall|i: int| 0 <= i < self.entries().len() ==> {
                &&& #[trigger] self@.contains_key(self.entries()[i].0@)
                &&& self@[self.entries()[i].0@] == self.entries()[i].1
            },
            forall|k: Seq<char>| #[trigger] self@.contains_key(k) ==> exists|i: int|
                0 <= i < self.entries().len() && #[trigger] self.entries()[i].0@ == k,
    {
        proof {
            use_type_invariant(self);
            self.lemma_len();
            assert forall|i: int| 0 <= i < self.entries().len() implies {
                &&& #[trigger] self@.contains_key(self.entries()[i].0@)
                &&& self@[self.entries()[i].0@] == self.entries()[i].1
            } by {
                lemma_entries_map_at(self.entries@, i);
            }
            assert forall|k: Seq<char>| #[trigger] self@.contains_key(k) implies exists|i: int|
                0 <= i < self.entries().len() && #[trigger] self.entries()[i].0@ == k by {
                assert(has_name(self.entries@, k));
                let i = position_of(self.entries@, k);
                assert(self.entries()[i].0@ == k);
            }
        }
        self.entries.len()
    }

    proof fn lemma_len(&self)
        requires
            names_unique(self.entries@),
        ensures
            self@.dom().finite(),
            self@.len() == self.entries@.len(),
    {
        lemma_entries_map_len(self.entries@);
    }

    /// The name of the `i`-th entry.
    pub fn name_at(&self, i: usize) -> (name: &String)
        requires
            i < self.entries().len(),
        ensures
            *name == self.entries()[i as int].0,
    {
        &self.entries[i].0
    }

    /// The value of the `i`-th entry.
    pub fn value_at(&self, i: usize) -> (value: &V)
        requires
            i < self.entries().len(),
        ensures
            *value == self.entries()[i as int].1,
    {
        &self.entries[i].1
    }

    /// The position of the entry named `name`, if there is one.
    pub fn find(&self, name: &String) -> (r: Option<usize>)
        ensures
            match r {
                Some(i) => i < self.entries().len() && self.entries()[i as int].0@ == name@,
                None => !self@.contains_key(name@),
            },
            r is Some <==> self@.contains_key(name@),
    {
        proof {
            use_type_invariant(self);
        }
        let mut i: usize = 0;
        while i < self.entries.len()
            invariant
                i <= self.entries@.len(),
                names_unique(self.entries@),
                forall|j: int| 0 <= j < i ==> self.entries@[j].0@ != name@,
            decreases self.entries@.len() - i,
        {
            if self.entries[i].0 == *name {
                proof {
                    lemma_entries_map_at(self.entries@, i as int);
                }
                return Some(i);
            }
            i = i + 1;
        }
        None
    }

    /// The value stored under `name`, if any.
    pub fn get(&self, name: &String) -> (r: Option<&V>)
        ensures
            match r {
                Some(v) => self@.contains_key(name@) && *v == self@[name@],
                None => !self@.contains_key(name@),
            },
    {
        match self.find(name) {
            Some(i) => {
                proof {
                    use_type_invariant(self);
                    lemma_entries_map_at(self.entries@, i as int);
                }
                Some(&self.entries[i].1)
            },
            None => None,
        }
    }

    /// Whether `name` has a value.
    pub fn contains_key(&self, name: &String) -> (b: bool)
        ensures
            b == self@.contains_key(name@),
    {
        self.find(name).is_some()
    }

    /// Stores `value` under `name`, replacing an earlier value in place or appending
    /// a new entry.
    pub fn insert(&mut self, name: String, value: V)
        ensures
            final(self)@ == old(self)@.insert(name@, value),
            old(self)@.contains_key(name@) ==> final(self).entries() == old(self).entries().update(
                position_of(old(self).entries(), name@),
                (name, value),
            ),
            !old(self)@.contains_key(name@) ==> final(self).entries() == old(self).entries().push((name, value)),
    {
        proof {
            use_type_invariant(&*self);
        }
        match self.find(&name) {
            Some(i) => {
                proof {
                    lemma_entries_map_at(self.entries@, i as int);
                    lemma_entries_map_update(self.entries@, i as int, (name, value));
                }
                let mut entries = Vec::new();
                std::mem::swap(&mut entries, &mut self.entries);
                entries.set(i, (name, value));
                self.entries = entries;
            },
            None => {
                proof {
                    lemma_entries_map_push(self.entries@, (name, value));
                }
                let mut entries = Vec::new();
                std::mem::swap(&mut entries, &mut self.entries);
                entries.push((name, value));
                self.entries = entries;
            },
        }
    }

    /// Moves every entry of `other` into this map, in `other`'s order; a name present in
    /// both ends up with the value from `other`.
    pub fn extend(&mut self, other: NameMap<V>)
        ensures
            final(self)@ == old(self)@.union_prefer_right(other@),
    {
        proof {
            use_type_invariant(&other);
        }
        let ghost base = self@;
        let ghost all = other.entries@;
        let mut rest = other.entries;
        let total: usize = rest.len();
        let mut taken: usize = 0;
        while rest.len() > 0
            invariant
                names_unique(all),
                all.len() == total,
                taken + rest@.len() == all.len(),
                rest@ == all.subrange(taken as int, all.len() as int),
                self@ == base.union_prefer_right(entries_map(all.take(taken as int))),
            decreases rest@.len(),
        {
            let (name, value) = rest.remove(0);
            proof {
                let prefix = all.take(taken as int);
                assert(all[taken as int] == (name, value));
                assert(all.take(taken + 1) =~= prefix.push((name, value)));
                assert(names_unique(prefix)) by {
                    assert forall|i: int, j: int|
                        0 <= i < prefix.len() && 0 <= j < prefix.len() && i != j
                        implies #[trigger] prefix[i].0@ != #[trigger] prefix[j].0@ by {
                        assert(prefix[i] == all[i] && prefix[j] == all[j]);
                    }
                }
                assert(!has_name(prefix, name@)) by {
                    if has_name(prefix, name@) {
                        let p = position_of(prefix, name@);
                        assert(prefix[p] == all[p]);
                    }
                }
                lemma_entries_map_push(prefix, (name, value));
                assert(base.union_prefer_right(entries_map(prefix)).insert(name@, value)
                    =~= base.union_prefer_right(entries_map(prefix).insert(name@, value)));
            }
            self.insert(name, value);
            taken = taken + 1;
            proof {
                assert(rest@ =~= all.subrange(taken as int, all.len() as int));
            }
        }
        proof {
            assert(all.take(taken as int) =~= all);
        }
    }
}

impl NameMap<String> {
    /// A copy of the map, entry by entry.
    pub fn copied(&self) -> (r: Self)
        ensures
            r@ == self@,
            r.entries() == self.entries(),
    {
        let mut entries: Vec<(String, String)> = Vec::new();
        let mut i: usize = 0;
        while i < self.entries.len()
            invariant
                i <= self.entries@.len(),
                entries@.len() == i,
                forall|j: int| 0 <= j < i ==> #[trigger] entries@[j] == self.entries@[j],
            decreases self.entries@.len() - i,
        {
            let name = self.entries[i].0.clone();
            let value = self.entries[i].1.clone();
            entries.push((name, value));
            i = i + 1;
        }
        proof {
            assert(entries@ =~= self.entries@);
            use_type_invariant(self);
        }
        NameMap { entries }
    }
}

/// The map of entries with distinct names has as many keys as there are entries.
pub proof fn lemma_entries_map_len<V>(s: Seq<(String, V)>)
    requires
        names_unique(s),
    ensures
        entries_map(s).dom().finite(),
        entries_map(s).len() == s.len(),
    decreases s.len(),
{
    if s.len() == 0 {
        assert(entries_map(s).dom() =~= Set::<Seq<char>>::empty());
    } else {
        let p = s.drop_last();
        let e = s.last();
        assert(s =~= p.push(e));
        assert(names_unique(p)) by {
            assert forall|i: int, j: int|
                0 <= i < p.len() && 0 <= j < p.len() && i != j implies #[trigger] p[i].0@
                != #[trigger] p[j].0@ by {
                assert(p[i] == s[i] && p[j] == s[j]);
            }
        }
        assert(!has_name(p, e.0@)) by {
            if has_name(p, e.0@) {
                let q = position_of(p, e.0@);
                assert(p[q] == s[q]);
                assert(s[s.len() - 1] == e);
            }
        }
        lemma_entries_map_len(p);
        lemma_entries_map_push(p, e);
    }
}

} // verus!
