//! Small association lists keyed by `String`: a `Vec` of `(name, value)`
//! pairs whose names are pairwise distinct, viewed as a `Map`.
use vstd::prelude::*;

verus! {

/// Names in `s` are pairwise distinct.
pub open spec fn names_unique<V>(s: Seq<(String, V)>) -> bool {
    forall|i: int, j: int| 0 <= i < j < s.len() ==> #[trigger] s[i].0@ != #[trigger] s[j].0@
}

/// The map from names to values that `s` stands for.
pub open spec fn entries_map<V>(s: Seq<(String, V)>) -> Map<Seq<char>, V>
    decreases s.len(),
{
    if s.len() == 0 {
        Map::empty()
    } else {
        entries_map(s.drop_last()).insert(s.last().0@, s.last().1)
    }
}

/// The keys of `entries_map(s)` are exactly the names in `s`.
pub proof fn lemma_entries_map_dom<V>(s: Seq<(String, V)>, k: Seq<char>)
    ensures
        entries_map(s).contains_key(k) <==> exists|i: int| 0 <= i < s.len() && #[trigger] s[i].0@ == k,
    decreases s.len(),
{
    if s.len() > 0 {
        lemma_entries_map_dom(s.drop_last(), k);
        if entries_map(s).contains_key(k) {
            if s.last().0@ == k {
                assert(s[s.len() - 1].0@ == k);
            } else {
                let i = choose|i: int| 0 <= i < s.drop_last().len() && #[trigger] s.drop_last()[i].0@ == k;
                assert(s[i].0@ == k);
            }
        } else {
            assert forall|i: int| 0 <= i < s.len() implies #[trigger] s[i].0@ != k by {
                if i < s.len() - 1 {
                    assert(s.drop_last()[i] == s[i]);
                }
            }
        }
    }
}

/// With distinct names, the value stored for `s[i]`'s name is `s[i]`'s value.
pub proof fn lemma_entries_map_index<V>(s: Seq<(String, V)>, i: int)
    requires
        names_unique(s),
        0 <= i < s.len(),
    ensures
        entries_map(s).contains_key(s[i].0@),
        entries_map(s)[s[i].0@] == s[i].1,
    decreases s.len(),
{
    if i < s.len() - 1 {
        assert(names_unique(s.drop_last()));
        assert(s.drop_last()[i] == s[i]);
        lemma_entries_map_index(s.drop_last(), i);
        assert(s[i].0@ != s[s.len() - 1].0@);
    }
}

/// Replacing the value of `s[i]` is an insert on the map.
pub proof fn lemma_entries_map_update<V>(s: Seq<(String, V)>, i: int, v: V)
    requires
        names_unique(s),
        0 <= i < s.len(),
    ensures
        names_unique(s.update(i, (s[i].0, v))),
        entries_map(s.update(i, (s[i].0, v))) =~= entries_map(s).insert(s[i].0@, v),
    decreases s.len(),
{
    let t = s.update(i, (s[i].0, v));
    assert forall|a: int, b: int| 0 <= a < b < t.len() implies #[trigger] t[a].0@ != #[trigger] t[b].0@ by {
        assert(s[a].0@ != s[b].0@);
    }
    if i == s.len() - 1 {
        assert(t.drop_last() =~= s.drop_last());
    } else {
        let sd = s.drop_last();
        assert(names_unique(sd));
        assert(sd[i] == s[i]);
        lemma_entries_map_update(sd, i, v);
        assert(t.drop_last() =~= sd.update(i, (sd[i].0, v)));
        assert(s[i].0@ != s[s.len() - 1].0@);
        assert(t.last() == s.last());
    }
}

/// Appending a pair with a new name keeps names distinct and inserts it.
pub proof fn lemma_entries_map_push<V>(s: Seq<(String, V)>, e: (String, V))
    requires
        names_unique(s),
        !entries_map(s).contains_key(e.0@),
    ensures
        names_unique(s.push(e)),
        entries_map(s.push(e)) == entries_map(s).insert(e.0@, e.1),
{
    lemma_entries_map_dom(s, e.0@);
    let t = s.push(e);
    assert forall|a: int, b: int| 0 <= a < b < t.len() implies #[trigger] t[a].0@ != #[trigger] t[b].0@ by {
        if b == s.len() {
            assert(t[a] == s[a]);
        } else {
            assert(t[a] == s[a] && t[b] == s[b]);
        }
    }
    assert(t.drop_last() =~= s);
}

/// Finds the position of `name` in `entries`.
pub fn find_entry<V>(entries: &Vec<(String, V)>, name: &String) -> (r: Option<usize>)
    ensures
        match r {
            Some(i) => i < entries@.len() && entries@[i as int].0@ == name@,
            None => forall|i: int| 0 <= i < entries@.len() ==> #[trigger] entries@[i].0@ != name@,
        },
{
    let mut i: usize = 0;
    while i < entries.len()
        invariant
            i <= entries@.len(),
            forall|j: int| 0 <= j < i ==> #[trigger] entries@[j].0@ != name@,
        decreases entries@.len() - i,
    {
        if entries[i].0 == *name {
            return Some(i);
        }
        i = i + 1;
    }
    None
}

} // verus!
