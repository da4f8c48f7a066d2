//! Association lists: sequences of key-value pairs whose keys are distinct, the model of
//! the maps the library keeps.
use vstd::prelude::*;

verus! {

/// Some pair of `s` has key `k`.
pub open spec fn has_key<K, V>(s: Seq<(K, V)>, k: K) -> bool {
    exists|i: int| 0 <= i < s.len() && s[i].0 == k
}

/// The position of the pair with key `k`.
pub open spec fn key_index<K, V>(s: Seq<(K, V)>, k: K) -> int {
    choose|i: int| 0 <= i < s.len() && s[i].0 == k
}

/// The value for key `k`, if there is one.
pub open spec fn lookup<K, V>(s: Seq<(K, V)>, k: K) -> Option<V> {
    if has_key(s, k) {
        Some(s[key_index(s, k)].1)
    } else {
        None
    }
}

/// No two pairs share a key.
pub open spec fn keys_distinct<K, V>(s: Seq<(K, V)>) -> bool {
    forall|i: int, j: int| 0 <= i < s.len() && 0 <= j < s.len() && i != j ==> s[i].0 != s[j].0
}

/// `s` with the value for `k` set to `v`: replaced in place, or added at the end.
pub open spec fn put<K, V>(s: Seq<(K, V)>, k: K, v: V) -> Seq<(K, V)> {
    if has_key(s, k) {
        s.update(key_index(s, k), (k, v))
    } else {
        s.push((k, v))
    }
}

/// `s` without the pair with key `k`.
pub open spec fn delete<K, V>(s: Seq<(K, V)>, k: K) -> Seq<(K, V)> {
    if has_key(s, k) {
        s.remove(key_index(s, k))
    } else {
        s
    }
}

/// With distinct keys, the pair with key `k` is the one at `i`.
pub proof fn lemma_key_index<K, V>(s: Seq<(K, V)>, k: K, i: int)
    requires
        keys_distinct(s),
        0 <= i < s.len(),
        s[i].0 == k,
    ensures
        has_key(s, k),
        key_index(s, k) == i,
        lookup(s, k) == Some(s[i].1),
{
    assert(has_key(s, k));
    let j = key_index(s, k);
    assert(s[j].0 == k);
}

/// Putting a value keeps the keys distinct, and reading gives it back; other keys keep
/// their values.
pub proof fn lemma_put<K, V>(s: Seq<(K, V)>, k: K, v: V)
    requires
        keys_distinct(s),
    ensures
        keys_distinct(put(s, k, v)),
        lookup(put(s, k, v), k) == Some(v),
        forall|k2: K| k2 != k ==> #[trigger] lookup(put(s, k, v), k2) == lookup(s, k2),
        has_key(s, k) ==> put(s, k, v).len() == s.len(),
        !has_key(s, k) ==> put(s, k, v).len() == s.len() + 1,
{
    let t = put(s, k, v);
    if has_key(s, k) {
        let i = key_index(s, k);
        assert(keys_distinct(t)) by {
            assert forall|a: int, b: int| 0 <= a < t.len() && 0 <= b < t.len() && a != b implies t[a].0 != t[b].0 by {
                if a == i {
                    assert(s[b].0 != s[i].0);
                } else if b == i {
                    assert(s[a].0 != s[i].0);
                }
            }
        }
        lemma_key_index(t, k, i);
        assert forall|k2: K| k2 != k implies #[trigger] lookup(t, k2) == lookup(s, k2) by {
            if has_key(s, k2) {
                let j = key_index(s, k2);
                assert(j != i);
                lemma_key_index(t, k2, j);
            } else {
                if has_key(t, k2) {
                    let j = key_index(t, k2);
                    assert(j != i);
                    assert(s[j].0 == k2);
                }
            }
        }
    } else {
        let i = s.len() as int;
        assert(keys_distinct(t)) by {
            assert forall|a: int, b: int| 0 <= a < t.len() && 0 <= b < t.len() && a != b implies t[a].0 != t[b].0 by {
                if a == i {
                    assert(!(0 <= b < s.len() && s[b].0 == k));
                } else if b == i {
                    assert(!(0 <= a < s.len() && s[a].0 == k));
                }
            }
        }
        lemma_key_index(t, k, i);
        assert forall|k2: K| k2 != k implies #[trigger] lookup(t, k2) == lookup(s, k2) by {
            if has_key(s, k2) {
                let j = key_index(s, k2);
                lemma_key_index(t, k2, j);
            } else {
                if has_key(t, k2) {
                    let j = key_index(t, k2);
                    assert(j != i);
                    assert(s[j].0 == k2);
                }
            }
        }
    }
}

/// Deleting a key keeps the keys distinct and removes only that key.
pub proof fn lemma_delete<K, V>(s: Seq<(K, V)>, k: K)
    requires
        keys_distinct(s),
    ensures
        keys_distinct(delete(s, k)),
        lookup(delete(s, k), k) is None,
        forall|k2: K| k2 != k ==> #[trigger] lookup(delete(s, k), k2) == lookup(s, k2),
{
    let t = delete(s, k);
    if has_key(s, k) {
        let i = key_index(s, k);
        assert(forall|a: int| 0 <= a < i ==> t[a] == s[a]);
        assert(forall|a: int| i <= a < t.len() ==> t[a] == s[a + 1]);
        assert(keys_distinct(t)) by {
            assert forall|a: int, b: int| 0 <= a < t.len() && 0 <= b < t.len() && a != b implies t[a].0 != t[b].0 by {
                let sa = if a < i { a } else { a + 1 };
                let sb = if b < i { b } else { b + 1 };
                assert(t[a] == s[sa]);
                assert(t[b] == s[sb]);
            }
        }
        assert(!has_key(t, k)) by {
            if has_key(t, k) {
                let a = key_index(t, k);
                let sa = if a < i { a } else { a + 1 };
                assert(t[a] == s[sa]);
                assert(s[sa].0 == s[i].0);
            }
        }
        assert forall|k2: K| k2 != k implies #[trigger] lookup(t, k2) == lookup(s, k2) by {
            if has_key(s, k2) {
                let j = key_index(s, k2);
                assert(j != i);
                let tj = if j < i { j } else { j - 1 };
                assert(t[tj] == s[j]);
                lemma_key_index(t, k2, tj);
            } else {
                if has_key(t, k2) {
                    let a = key_index(t, k2);
                    let sa = if a < i { a } else { a + 1 };
                    assert(t[a] == s[sa]);
                }
            }
        }
    }
}

/// Finds the position of the pair with key `k`.
pub fn find_i64<V>(v: &Vec<(i64, V)>, k: i64) -> (r: Option<usize>)
    ensures
        match r {
            Some(i) => i < v@.len() && v@[i as int].0 == k,
            None => !has_key(v@, k),
        },
{
    let mut i: usize = 0;
    while i < v.len()
        invariant
            i <= v.len(),
            forall|j: int| 0 <= j < i ==> v@[j].0 != k,
        decreases v.len() - i,
    {
        if v[i].0 == k {
            return Some(i);
        }
        i = i + 1;
    }
    None
}

/// Finds the position of the pair with key `k`.
pub fn find_string<V>(v: &Vec<(String, V)>, k: &str) -> (r: Option<usize>)
    ensures
        match r {
            Some(i) => i < v@.len() && v@[i as int].0@ == k@,
            None => forall|j: int| 0 <= j < v@.len() ==> v@[j].0@ != k@,
        },
{
    let mut i: usize = 0;
    while i < v.len()
        invariant
            i <= v.len(),
            forall|j: int| 0 <= j < i ==> v@[j].0@ != k@,
        decreases v.len() - i,
    {
        if crate::text::str_eq(v[i].0.as_str(), k) {
            return Some(i);
        }
        i = i + 1;
    }
    None
}

} // verus!
