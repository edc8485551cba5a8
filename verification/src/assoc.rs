//! Lists of named values, looked up by name, that behave as maps.
use vstd::prelude::*;
use crate::text::str_eq;

verus! {

/// No name occurs twice.
pub open spec fn keys_distinct<V>(v: Seq<(String, V)>) -> bool {
    forall|i: int, j: int| 0 <= i < j < v.len() ==> v[i].0@ != v[j].0@
}

/// The map from names to values that the list stands for.
pub open spec fn assoc_map<V>(v: Seq<(String, V)>) -> Map<Seq<char>, V>
    decreases v.len(),
{
    if v.len() == 0 {
        Map::empty()
    } else {
        assoc_map(v.drop_last()).insert(v.last().0@, v.last().1)
    }
}

/// What `assoc_map` holds, entry by entry, for a list without repeated names.
pub proof fn lemma_assoc_map<V>(v: Seq<(String, V)>)
    requires
        keys_distinct(v),
    ensures
        forall|k: Seq<char>| #[trigger] assoc_map(v).contains_key(k) <==> exists|i: int| 0 <= i < v.len() && v[i].0@ == k,
        forall|i: int| 0 <= i < v.len() ==> #[trigger] assoc_map(v)[v[i].0@] == v[i].1,
    decreases v.len(),
{
    if v.len() > 0 {
        let w = v.drop_last();
        assert(keys_distinct(w));
        lemma_assoc_map(w);
        assert forall|k: Seq<char>| #[trigger] assoc_map(v).contains_key(k) <==> exists|i: int| 0 <= i < v.len() && v[i].0@ == k by {
            let last = v.len() - 1;
            if k == v.last().0@ {
                assert(v[last].0@ == k);
            } else {
                assert(assoc_map(v).contains_key(k) == assoc_map(w).contains_key(k));
                if assoc_map(w).contains_key(k) {
                    let i = choose|i: int| 0 <= i < w.len() && w[i].0@ == k;
                    assert(v[i] == w[i]);
                }
                if exists|i: int| 0 <= i < v.len() && v[i].0@ == k {
                    let i = choose|i: int| 0 <= i < v.len() && v[i].0@ == k;
                    assert(i != last);
                    assert(w[i] == v[i]);
                    assert(assoc_map(w).contains_key(k));
                }
            }
        }
        assert forall|i: int| 0 <= i < v.len() implies #[trigger] assoc_map(v)[v[i].0@] == v[i].1 by {
            if i < w.len() {
                assert(w[i] == v[i]);
                assert(v[i].0@ != v.last().0@);
                assert(assoc_map(w)[w[i].0@] == w[i].1);
                assert(assoc_map(v)[v[i].0@] == assoc_map(w)[v[i].0@]);
            }
        }
    }
}

/// Changing the value at `i` changes the map at that name only.
pub proof fn lemma_assoc_update<V>(v: Seq<(String, V)>, i: int, x: V)
    requires
        keys_distinct(v),
        0 <= i < v.len(),
    ensures
        keys_distinct(v.update(i, (v[i].0, x))),
        assoc_map(v.update(i, (v[i].0, x))) == assoc_map(v).insert(v[i].0@, x),
{
    let u = v.update(i, (v[i].0, x));
    assert(keys_distinct(u)) by {
        assert forall|a: int, b: int| 0 <= a < b < u.len() implies u[a].0@ != u[b].0@ by {
            assert(u[a].0 == v[a].0);
            assert(u[b].0 == v[b].0);
        }
    }
    lemma_assoc_map(v);
    lemma_assoc_map(u);
    let m = assoc_map(v).insert(v[i].0@, x);
    assert forall|k: Seq<char>| #[trigger] assoc_map(u).contains_key(k) <==> m.contains_key(k) by {
        if exists|j: int| 0 <= j < u.len() && u[j].0@ == k {
            let j = choose|j: int| 0 <= j < u.len() && u[j].0@ == k;
            assert(v[j].0 == u[j].0);
        }
        if exists|j: int| 0 <= j < v.len() && v[j].0@ == k {
            let j = choose|j: int| 0 <= j < v.len() && v[j].0@ == k;
            assert(v[j].0 == u[j].0);
        }
    }
    assert forall|k: Seq<char>| assoc_map(u).contains_key(k) implies #[trigger] assoc_map(u)[k] == m[k] by {
        let j = choose|j: int| 0 <= j < u.len() && u[j].0@ == k;
        assert(assoc_map(u)[u[j].0@] == u[j].1);
        if j != i {
            assert(assoc_map(v)[v[j].0@] == v[j].1);
        }
    }
    assert(assoc_map(u) =~= m);
}

/// Adding an entry under a new name adds it to the map.
pub proof fn lemma_assoc_push<V>(v: Seq<(String, V)>, k: String, x: V)
    requires
        keys_distinct(v),
        forall|j: int| 0 <= j < v.len() ==> v[j].0@ != k@,
    ensures
        keys_distinct(v.push((k, x))),
        assoc_map(v.push((k, x))) == assoc_map(v).insert(k@, x),
{
    let u = v.push((k, x));
    assert(u.drop_last() == v);
    assert(keys_distinct(u)) by {
        assert forall|a: int, b: int| 0 <= a < b < u.len() implies u[a].0@ != u[b].0@ by {
            assert(u[a] == v[a]);
        }
    }
}

/// Removing the entry at `i` removes its name from the map.
pub proof fn lemma_assoc_remove<V>(v: Seq<(String, V)>, i: int)
    requires
        keys_distinct(v),
        0 <= i < v.len(),
    ensures
        keys_distinct(v.remove(i)),
        assoc_map(v.remove(i)) == assoc_map(v).remove(v[i].0@),
{
    let u = v.remove(i);
    assert forall|j: int| 0 <= j < u.len() implies #[trigger] u[j] == (if j < i { v[j] } else { v[j + 1] }) by {}
    assert(keys_distinct(u)) by {
        assert forall|a: int, b: int| 0 <= a < b < u.len() implies u[a].0@ != u[b].0@ by {
            assert(u[a] == (if a < i { v[a] } else { v[a + 1] }));
            assert(u[b] == (if b < i { v[b] } else { v[b + 1] }));
        }
    }
    lemma_assoc_map(v);
    lemma_assoc_map(u);
    let m = assoc_map(v).remove(v[i].0@);
    assert forall|k: Seq<char>| #[trigger] assoc_map(u).contains_key(k) <==> m.contains_key(k) by {
        if exists|j: int| 0 <= j < u.len() && u[j].0@ == k {
            let j = choose|j: int| 0 <= j < u.len() && u[j].0@ == k;
            assert(u[j] == (if j < i { v[j] } else { v[j + 1] }));
        }
        if m.contains_key(k) {
            let j = choose|j: int| 0 <= j < v.len() && v[j].0@ == k;
            assert(j != i);
            if j < i {
                assert(u[j] == v[j]);
            } else {
                assert(u[j - 1] == v[j]);
            }
        }
    }
    assert forall|k: Seq<char>| assoc_map(u).contains_key(k) implies #[trigger] assoc_map(u)[k] == m[k] by {
        let j = choose|j: int| 0 <= j < u.len() && u[j].0@ == k;
        assert(assoc_map(u)[u[j].0@] == u[j].1);
        if j < i {
            assert(u[j] == v[j]);
            assert(assoc_map(v)[v[j].0@] == v[j].1);
        } else {
            assert(u[j] == v[j + 1]);
            assert(assoc_map(v)[v[j + 1].0@] == v[j + 1].1);
        }
    }
    assert(assoc_map(u) =~= m);
}

/// The position of the entry named `k`, or the length of the list if none is.
pub fn assoc_position<V>(v: &Vec<(String, V)>, k: &str) -> (i: usize)
    ensures
        i <= v.len(),
        i < v.len() ==> v@[i as int].0@ == k@,
        i == v.len() ==> forall|j: int| 0 <= j < v.len() ==> v@[j].0@ != k@,
{
    let mut i: usize = 0;
    while i < v.len()
        invariant
            i <= v.len(),
            forall|j: int| 0 <= j < i ==> v@[j].0@ != k@,
        decreases v.len() - i,
    {
        if str_eq(v[i].0.as_str(), k) {
            return i;
        }
        i = i + 1;
    }
    i
}

} // verus!
