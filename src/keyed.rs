use vstd::prelude::*;

verus! {

/// The keys of a sequence of named items.
pub open spec fn names<T>(s: Seq<(String, T)>) -> Seq<Seq<char>> {
    s.map_values(|p: (String, T)| p.0@)
}

/// `i` is the first position that holds key `k`.
pub open spec fn first_at(ks: Seq<Seq<char>>, k: Seq<char>, i: int) -> bool {
    &&& 0 <= i < ks.len()
    &&& ks[i] == k
    &&& forall|j: int| 0 <= j < i ==> ks[j] != k
}

pub open spec fn has_key(ks: Seq<Seq<char>>, k: Seq<char>) -> bool {
    exists|i: int| first_at(ks, k, i)
}

/// The first position of key `k` (meaningful when `has_key(ks, k)`).
pub open spec fn key_index(ks: Seq<Seq<char>>, k: Seq<char>) -> int {
    choose|i: int| first_at(ks, k, i)
}

/// Insert-or-overwrite in a sequence of named values: the first item named
/// `k` takes the value `v`, or `(k, v)` is appended when no item has that name.
pub open spec fn put<V>(s: Seq<(Seq<char>, V)>, k: Seq<char>, v: V) -> Seq<(Seq<char>, V)> {
    let ks = s.map_values(|p: (Seq<char>, V)| p.0);
    if has_key(ks, k) {
        s.update(key_index(ks, k), (k, v))
    } else {
        s.push((k, v))
    }
}

/// The first position is unique.
pub proof fn lemma_first_at_unique(ks: Seq<Seq<char>>, k: Seq<char>, i: int, j: int)
    requires
        first_at(ks, k, i),
        first_at(ks, k, j),
    ensures
        i == j,
{
    if i < j {
        assert(ks[i] != k);
    } else if j < i {
        assert(ks[j] != k);
    }
}

/// Finds the first item named `key`.
pub fn find_key<T>(items: &Vec<(String, T)>, key: &String) -> (r: Option<usize>)
    ensures
        match r {
            Some(i) => first_at(names(items@), key@, i as int) && key_index(names(items@), key@)
                == i,
            None => !has_key(names(items@), key@),
        },
{
    let ghost ks = names(items@);
    let mut i: usize = 0;
    while i < items.len()
        invariant
            i <= items.len(),
            ks == names(items@),
            forall|j: int| 0 <= j < i ==> ks[j] != key@,
        decreases items.len() - i,
    {
        if items[i].0 == *key {
            proof {
                assert(first_at(ks, key@, i as int));
                let c = key_index(ks, key@);
                lemma_first_at_unique(ks, key@, i as int, c);
            }
            return Some(i);
        }
        i = i + 1;
    }
    proof {
        assert forall|i: int| !first_at(ks, key@, i) by {
            if 0 <= i < ks.len() {
                assert(ks[i] != key@);
            }
        }
    }
    None
}

/// A sequence of named items, seen through the views of names and values.
pub open spec fn pairs<T: View>(s: Seq<(String, T)>) -> Seq<(Seq<char>, T::V)> {
    s.map_values(|p: (String, T)| (p.0@, p.1@))
}

pub proof fn lemma_pairs_names<T: View>(s: Seq<(String, T)>)
    ensures
        pairs(s).map_values(|p: (Seq<char>, T::V)| p.0) == names(s),
{
    assert(pairs(s).map_values(|p: (Seq<char>, T::V)| p.0) =~= names(s));
}

/// Sets the value of the first item named `key`, or appends `(key, value)`.
pub fn put_value<T: View>(items: &mut Vec<(String, T)>, key: String, value: T)
    ensures
        pairs(final(items)@) == put(pairs(old(items)@), key@, value@),
{
    proof {
        lemma_pairs_names(items@);
    }
    let ghost k = key@;
    let ghost v = value@;
    match find_key(items, &key) {
        Some(i) => {
            items.remove(i);
            items.insert(i, (key, value));
            assert(pairs(items@) =~= pairs(old(items)@).update(i as int, (k, v)));
        },
        None => {
            items.push((key, value));
            assert(pairs(items@) =~= pairs(old(items)@).push((k, v)));
        },
    }
}

/// The value of the first item named `k`, if any.
pub open spec fn lookup<V>(s: Seq<(Seq<char>, V)>, k: Seq<char>) -> Option<V> {
    let ks = s.map_values(|p: (Seq<char>, V)| p.0);
    if has_key(ks, k) {
        Some(s[key_index(ks, k)].1)
    } else {
        None
    }
}

/// A key that occurs somewhere has a first position.
pub proof fn lemma_has_key_at(ks: Seq<Seq<char>>, k: Seq<char>, j: int)
    requires
        0 <= j < ks.len(),
        ks[j] == k,
    ensures
        has_key(ks, k),
    decreases j,
{
    if exists|i: int| 0 <= i < j && ks[i] == k {
        let i = choose|i: int| 0 <= i < j && ks[i] == k;
        lemma_has_key_at(ks, k, i);
    } else {
        assert(first_at(ks, k, j));
    }
}

/// After `put(s, k, v)`, `k` is looked up as `v`, and every other key as before.
pub proof fn lemma_put_lookup<V>(s: Seq<(Seq<char>, V)>, k: Seq<char>, v: V, k2: Seq<char>)
    ensures
        lookup(put(s, k, v), k) == Some(v),
        k2 != k ==> lookup(put(s, k, v), k2) == lookup(s, k2),
{
    let ks = s.map_values(|p: (Seq<char>, V)| p.0);
    let t = put(s, k, v);
    let kt = t.map_values(|p: (Seq<char>, V)| p.0);
    if has_key(ks, k) {
        let i = key_index(ks, k);
        assert(kt =~= ks);
        lemma_first_at_unique(kt, k, i, key_index(kt, k));
        if k2 != k && has_key(ks, k2) {
            let j = key_index(ks, k2);
            assert(j != i);
        }
    } else {
        let n = s.len() as int;
        assert(kt =~= ks.push(k));
        assert forall|j: int| 0 <= j < n implies ks[j] != k by {
            if ks[j] == k {
                lemma_has_key_at(ks, k, j);
            }
        }
        assert(first_at(kt, k, n));
        lemma_first_at_unique(kt, k, n, key_index(kt, k));
        if k2 != k {
            if has_key(ks, k2) {
                let j = key_index(ks, k2);
                assert(first_at(kt, k2, j));
                lemma_first_at_unique(kt, k2, j, key_index(kt, k2));
            }
            if has_key(kt, k2) {
                let j = key_index(kt, k2);
                assert(j < n);
                assert forall|i: int| 0 <= i < j implies ks[i] != k2 by {
                    assert(kt[i] == ks[i]);
                }
                assert(first_at(ks, k2, j));
            }
        }
    }
}

/// Putting the same name and value a second time changes nothing.
pub proof fn lemma_put_twice<V>(s: Seq<(Seq<char>, V)>, k: Seq<char>, v: V)
    ensures
        put(put(s, k, v), k, v) == put(s, k, v),
{
    let t = put(s, k, v);
    let kt = t.map_values(|p: (Seq<char>, V)| p.0);
    lemma_put_lookup(s, k, v, k);
    let i = key_index(kt, k);
    assert(t[i] == (k, v));
    assert(put(t, k, v) =~= t);
}

/// Setting the value at the first position of `k`, which is present, makes
/// `k` look up as that value and leaves every other key as it was.
pub proof fn lemma_update_lookup<V>(s: Seq<(Seq<char>, V)>, k: Seq<char>, v: V, k2: Seq<char>)
    requires
        has_key(s.map_values(|p: (Seq<char>, V)| p.0), k),
    ensures
        lookup(s.update(key_index(s.map_values(|p: (Seq<char>, V)| p.0), k), (k, v)), k) == Some(v),
        k2 != k ==> lookup(s.update(key_index(s.map_values(|p: (Seq<char>, V)| p.0), k), (k, v)), k2)
            == lookup(s, k2),
{
    let ks = s.map_values(|p: (Seq<char>, V)| p.0);
    let i = key_index(ks, k);
    let t = s.update(i, (k, v));
    let kt = t.map_values(|p: (Seq<char>, V)| p.0);
    assert(kt =~= ks);
    lemma_first_at_unique(kt, k, i, key_index(kt, k));
    if k2 != k && has_key(ks, k2) {
        assert(key_index(ks, k2) != i);
    }
}

} // verus!
