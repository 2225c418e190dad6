//! String-keyed association lists with a `Map` view.
//!
//! The rate-limit store keeps its per-client state in vectors of
//! `(String, value)` pairs with pairwise-distinct keys; contracts speak of
//! the derived [`Map`] from key characters to values.

use vstd::prelude::*;

use crate::text::str_eq;

verus! {

/// The map an association list denotes, later entries shadowing earlier
/// ones (with unique keys there is nothing to shadow).
pub open spec fn alist_map<V>(s: Seq<(String, V)>) -> Map<Seq<char>, V>
    decreases s.len(),
{
    if s.len() == 0 {
        Map::empty()
    } else {
        alist_map(s.drop_last()).insert(s.last().0@, s.last().1)
    }
}

/// All keys of the list are pairwise distinct.
pub open spec fn keys_unique<V>(s: Seq<(String, V)>) -> bool {
    forall|i: int, j: int| 0 <= i < j < s.len() ==> s[i].0@ != s[j].0@
}

/// A key is in the map exactly when some entry carries it.
pub proof fn lemma_alist_map_domain<V>(s: Seq<(String, V)>, k: Seq<char>)
    ensures
        alist_map(s).contains_key(k) <==> exists|i: int| 0 <= i < s.len() && s[i].0@ == k,
    decreases s.len(),
{
    if s.len() > 0 {
        lemma_alist_map_domain(s.drop_last(), k);
        if s.last().0@ == k {
            assert(s[s.len() - 1].0@ == k);
        } else {
            if exists|i: int| 0 <= i < s.len() - 1 && s.drop_last()[i].0@ == k {
                let i = choose|i: int| 0 <= i < s.len() - 1 && s.drop_last()[i].0@ == k;
                assert(s[i].0@ == k);
            }
            if exists|i: int| 0 <= i < s.len() && s[i].0@ == k {
                let i = choose|i: int| 0 <= i < s.len() && s[i].0@ == k;
                assert(s.drop_last()[i].0@ == k);
            }
        }
    }
}

/// With unique keys, the map sends each entry's key to its value.
pub proof fn lemma_alist_map_index<V>(s: Seq<(String, V)>, i: int)
    requires
        keys_unique(s),
        0 <= i < s.len(),
    ensures
        alist_map(s).contains_key(s[i].0@),
        alist_map(s)[s[i].0@] == s[i].1,
    decreases s.len(),
{
    if i < s.len() - 1 {
        assert(s.drop_last()[i] == s[i]);
        lemma_alist_map_index(s.drop_last(), i);
        assert(s[i].0@ != s.last().0@);
    }
}

/// Appending a fresh entry inserts its binding.
pub proof fn lemma_alist_map_push<V>(s: Seq<(String, V)>, key: String, v: V)
    ensures
        alist_map(s.push((key, v))) == alist_map(s).insert(key@, v),
{
    assert(s.push((key, v)).drop_last() =~= s);
    assert(s.push((key, v)).last() == (key, v));
}

/// Overwriting an entry's value in place updates its binding.
pub proof fn lemma_alist_map_update<V>(s: Seq<(String, V)>, i: int, key: String, v: V)
    requires
        keys_unique(s),
        0 <= i < s.len(),
        key@ == s[i].0@,
    ensures
        alist_map(s.update(i, (key, v))) == alist_map(s).insert(s[i].0@, v),
        keys_unique(s.update(i, (key, v))),
    decreases s.len(),
{
    let t = s.update(i, (key, v));
    assert(forall|p: int, q: int| 0 <= p < q < t.len() ==> t[p].0@ != t[q].0@);
    if i == s.len() - 1 {
        assert(t.drop_last() =~= s.drop_last());
        assert(t.last() == (key, v));
        assert(alist_map(s.drop_last()).insert(key@, v) =~= alist_map(s.drop_last()).insert(
            s[i].0@,
            s[i].1,
        ).insert(s[i].0@, v));
    } else {
        assert(t.drop_last() =~= s.drop_last().update(i, (key, v)));
        assert(s.drop_last()[i] == s[i]);
        lemma_alist_map_update(s.drop_last(), i, key, v);
        assert(t.last() == s.last());
        assert(s[i].0@ != s.last().0@);
        assert(alist_map(s.drop_last()).insert(s[i].0@, v).insert(s.last().0@, s.last().1)
            =~= alist_map(s.drop_last()).insert(s.last().0@, s.last().1).insert(s[i].0@, v));
    }
}

/// Removing an entry removes its binding.
pub proof fn lemma_alist_map_remove<V>(s: Seq<(String, V)>, i: int)
    requires
        keys_unique(s),
        0 <= i < s.len(),
    ensures
        alist_map(s.remove(i)) == alist_map(s).remove(s[i].0@),
        keys_unique(s.remove(i)),
    decreases s.len(),
{
    let t = s.remove(i);
    assert(forall|p: int, q: int| 0 <= p < q < t.len() ==> t[p].0@ != t[q].0@) by {
        assert(forall|p: int|
            0 <= p < t.len() ==> t[p] == (if p < i {
                s[p]
            } else {
                s[p + 1]
            }));
    }
    if i == s.len() - 1 {
        assert(t =~= s.drop_last());
        lemma_alist_map_domain(s.drop_last(), s[i].0@);
        assert(forall|j: int| 0 <= j < s.len() - 1 ==> s.drop_last()[j].0@ != s[i].0@);
        assert(!alist_map(s.drop_last()).contains_key(s[i].0@));
        assert(alist_map(s.drop_last()) =~= alist_map(s.drop_last()).insert(
            s[i].0@,
            s[i].1,
        ).remove(s[i].0@));
    } else {
        assert(t.drop_last() =~= s.drop_last().remove(i));
        assert(s.drop_last()[i] == s[i]);
        lemma_alist_map_remove(s.drop_last(), i);
        assert(t.last() == s.last());
        assert(s[i].0@ != s.last().0@);
        assert(alist_map(s.drop_last()).remove(s[i].0@).insert(s.last().0@, s.last().1)
            =~= alist_map(s.drop_last()).insert(s.last().0@, s.last().1).remove(s[i].0@));
    }
}

/// Finds the entry with the given key, if any.
pub fn alist_find<V>(v: &Vec<(String, V)>, key: &str) -> (r: Option<usize>)
    ensures
        match r {
            Some(i) => i < v@.len() && v@[i as int].0@ == key@,
            None => forall|j: int| 0 <= j < v@.len() ==> v@[j].0@ != key@,
        },
{
    let n = v.len();
    let mut i: usize = 0;
    while i < n
        invariant
            0 <= i <= n,
            n == v@.len(),
            forall|j: int| 0 <= j < i ==> v@[j].0@ != key@,
        decreases n - i,
    {
        if str_eq(v[i].0.as_str(), key) {
            return Some(i);
        }
        i = i + 1;
    }
    None
}

} // verus!
