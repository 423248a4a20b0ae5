//! A map from variable names (`String`) to values, backed by an association
//! list with unique keys. Its mathematical view is a `Map<Seq<char>, V::V>`
//! over the deep views of the stored values.

use vstd::prelude::*;

verus! {

/// The keys of the entry list are pairwise distinct.
pub open spec fn distinct_keys<V>(s: Seq<(String, V)>) -> bool {
    forall|i: int, j: int| 0 <= i < j < s.len() ==> s[i].0@ != s[j].0@
}

/// The map denoted by an entry list: later entries would win, but under
/// `distinct_keys` each key occurs at most once.
pub open spec fn map_of<V: DeepView>(s: Seq<(String, V)>) -> Map<Seq<char>, V::V>
    decreases s.len(),
{
    if s.len() == 0 {
        Map::empty()
    } else {
        map_of(s.drop_last()).insert(s.last().0@, s.last().1.deep_view())
    }
}

/// A key is in the map exactly when some entry carries it, and then the map
/// gives that entry's value (unique, by `distinct_keys`).
proof fn lemma_map_of_index<V: DeepView>(s: Seq<(String, V)>, k: Seq<char>)
    requires
        distinct_keys(s),
    ensures
        map_of(s).dom().contains(k) <==> exists|i: int| 0 <= i < s.len() && s[i].0@ == k,
        forall|i: int| 0 <= i < s.len() && s[i].0@ == k ==> map_of(s)[k] == s[i].1.deep_view(),
    decreases s.len(),
{
    if s.len() > 0 {
        let t = s.drop_last();
        assert(distinct_keys(t)) by {
            assert(forall|i: int, j: int| 0 <= i < j < t.len() ==> s[i].0@ != s[j].0@);
        }
        lemma_map_of_index(t, k);
        let last = s.len() - 1;
        if k == s[last].0@ {
            assert(map_of(s)[k] == s[last].1.deep_view());
            assert(forall|i: int| 0 <= i < last ==> s[i].0@ != k);
        } else {
            if map_of(s).dom().contains(k) {
                let i = choose|i: int| 0 <= i < t.len() && t[i].0@ == k;
                assert(s[i].0@ == k);
            }
            if exists|i: int| 0 <= i < s.len() && s[i].0@ == k {
                let i = choose|i: int| 0 <= i < s.len() && s[i].0@ == k;
                assert(t[i].0@ == k);
                assert(forall|i: int| 0 <= i < t.len() && t[i].0@ == k ==> map_of(t)[k] == t[i].1.deep_view());
            }
        }
    }
}

/// `lemma_map_of_index`, stated for every key at once.
proof fn lemma_map_of_dom_all<V: DeepView>(s: Seq<(String, V)>)
    requires
        distinct_keys(s),
    ensures
        forall|k: Seq<char>|
            map_of(s).dom().contains(k) <==> exists|i: int| 0 <= i < s.len() && s[i].0@ == k,
{
    assert forall|k: Seq<char>|
        map_of(s).dom().contains(k) <==> exists|i: int| 0 <= i < s.len() && s[i].0@ == k by {
        lemma_map_of_index(s, k);
    }
}

/// Replacing the entry at `i` by one with the same key updates the map at
/// that key alone.
proof fn lemma_map_of_update<V: DeepView>(s: Seq<(String, V)>, i: int, e: (String, V))
    requires
        distinct_keys(s),
        0 <= i < s.len(),
        e.0@ == s[i].0@,
    ensures
        map_of(s.update(i, e)) == map_of(s).insert(e.0@, e.1.deep_view()),
        distinct_keys(s.update(i, e)),
    decreases s.len(),
{
    let s2 = s.update(i, e);
    assert(distinct_keys(s2));
    let last = s.len() - 1;
    if i == last {
        assert(s2.drop_last() =~= s.drop_last());
        assert(s2.last() == e);
        assert(map_of(s2) =~= map_of(s).insert(e.0@, e.1.deep_view()));
    } else {
        let t = s.drop_last();
        assert(distinct_keys(t));
        lemma_map_of_update(t, i, e);
        assert(s2.drop_last() =~= t.update(i, e));
        assert(s2.last() == s.last());
        assert(s.last().0@ != e.0@);
        assert(map_of(s2) =~= map_of(s).insert(e.0@, e.1.deep_view()));
    }
}

/// Under `distinct_keys`, the map has exactly one key per entry.
proof fn lemma_map_of_len<V: DeepView>(s: Seq<(String, V)>)
    requires
        distinct_keys(s),
    ensures
        map_of(s).dom().finite(),
        map_of(s).dom().len() == s.len(),
    decreases s.len(),
{
    if s.len() == 0 {
        assert(map_of(s).dom() =~= Set::<Seq<char>>::empty());
    } else {
        let t = s.drop_last();
        assert(distinct_keys(t));
        lemma_map_of_len(t);
        lemma_map_of_dom_all(t);
        assert(!map_of(t).dom().contains(s.last().0@));
        assert(map_of(s).dom() =~= map_of(t).dom().insert(s.last().0@));
    }
}

/// The position of the entry that carries `name`, if any.
fn find_index<V>(entries: &Vec<(String, V)>, name: &String) -> (r: Option<usize>)
    ensures
        match r {
            Some(i) => i < entries@.len() && entries@[i as int].0@ == name@,
            None => forall|j: int| 0 <= j < entries@.len() ==> entries@[j].0@ != name@,
        },
{
    let n = entries.len();
    let mut i: usize = 0;
    while i < n
        invariant
            i <= n,
            n == entries@.len(),
            forall|j: int| 0 <= j < i ==> entries@[j].0@ != name@,
        decreases n - i,
    {
        if entries[i].0 == *name {
            return Some(i);
        }
        i += 1;
    }
    None
}

/// A finite map from names to values of type `V`, with owned keys and values.
pub struct StrMap<V> {
    entries: Vec<(String, V)>,
}

impl<V: DeepView> View for StrMap<V> {
    type V = Map<Seq<char>, V::V>;

    closed spec fn view(&self) -> Map<Seq<char>, V::V> {
        map_of(self.entries@)
    }
}

impl<V> StrMap<V> {
    #[verifier::type_invariant]
    spec fn wf(self) -> bool {
        distinct_keys(self.entries@)
    }
}

impl<V: DeepView> StrMap<V> {
    /// The empty map.
    pub fn new() -> (r: Self)
        ensures
            r@ == Map::<Seq<char>, V::V>::empty(),
    {
        StrMap { entries: Vec::new() }
    }

    /// The number of entries.
    pub fn len(&self) -> (r: usize)
        ensures
            self@.dom().finite(),
            r == self@.dom().len(),
    {
        proof {
            use_type_invariant(self);
            lemma_map_of_len(self.entries@);
        }
        self.entries.len()
    }

    /// Whether the map holds no entry.
    pub fn is_empty(&self) -> (r: bool)
        ensures
            r <==> self@ == Map::<Seq<char>, V::V>::empty(),
    {
        proof {
            use_type_invariant(self);
            if self.entries@.len() > 0 {
                lemma_map_of_dom_all(self.entries@);
                assert(self@.dom().contains(self.entries@[self.entries@.len() - 1].0@));
            } else {
                assert(self@ =~= Map::<Seq<char>, V::V>::empty());
            }
        }
        self.entries.len() == 0
    }

    /// The value stored under `name`, if any.
    pub fn get<'a>(&'a self, name: &String) -> (r: Option<&'a V>)
        ensures
            match r {
                Some(v) => self@.dom().contains(name@) && v.deep_view() == self@[name@],
                None => !self@.dom().contains(name@),
            },
    {
        proof {
            use_type_invariant(self);
            lemma_map_of_index(self.entries@, name@);
        }
        match find_index(&self.entries, name) {
            Some(i) => Some(&self.entries[i].1),
            None => None,
        }
    }

    /// Store `value` under `name`, replacing any previous value.
    pub fn insert(&mut self, name: String, value: V)
        ensures
            final(self)@ == old(self)@.insert(name@, value.deep_view()),
    {
        proof {
            use_type_invariant(&*self);
        }
        let ghost old_entries = self.entries@;
        let ghost e = (name, value);
        let mut entries: Vec<(String, V)> = Vec::new();
        core::mem::swap(&mut entries, &mut self.entries);
        match find_index(&entries, &name) {
            Some(i) => {
                proof {
                    lemma_map_of_update(old_entries, i as int, e);
                }
                entries[i] = (name, value);
            }
            None => {
                entries.push((name, value));
                proof {
                    assert(entries@.drop_last() =~= old_entries);
                    assert(entries@.last() == e);
                    assert(distinct_keys(entries@));
                }
            }
        }
        self.entries = entries;
    }

    /// The names stored in the map, each exactly once, in some order.
    pub fn keys(&self) -> (r: Vec<String>)
        ensures
            forall|i: int, j: int| 0 <= i < j < r@.len() ==> r@[i]@ != r@[j]@,
            forall|i: int| 0 <= i < r@.len() ==> self@.dom().contains(#[trigger] r@[i]@),
            forall|k: Seq<char>|
                self@.dom().contains(k) ==> exists|i: int| 0 <= i < r@.len() && #[trigger] r@[i]@ == k,
    {
        proof {
            use_type_invariant(self);
            lemma_map_of_dom_all(self.entries@);
        }
        let n = self.entries.len();
        let mut r: Vec<String> = Vec::new();
        let mut i: usize = 0;
        while i < n
            invariant
                i <= n,
                n == self.entries@.len(),
                r@.len() == i,
                forall|j: int| 0 <= j < i ==> r@[j]@ == self.entries@[j].0@,
            decreases n - i,
        {
            r.push(self.entries[i].0.clone());
            i += 1;
        }
        proof {
            assert forall|k: Seq<char>| self@.dom().contains(k)
                implies exists|j: int| 0 <= j < r@.len() && #[trigger] r@[j]@ == k by {
                let j = choose|j: int| 0 <= j < self.entries@.len() && self.entries@[j].0@ == k;
                assert(r@[j]@ == k);
            }
        }
        r
    }
}

} // verus!
