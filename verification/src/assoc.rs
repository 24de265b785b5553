//! Finite maps kept as lists of entries with distinct keys.
use vstd::prelude::*;

verus! {

/// The keys of the entries, in order.
pub open spec fn keys_of<K, V>(p: Seq<(K, V)>) -> Seq<K> {
    p.map_values(|e: (K, V)| e.0)
}

/// Where `k` stands among the entries.
pub open spec fn key_index<K, V>(p: Seq<(K, V)>, k: K) -> int {
    choose|i: int| 0 <= i < p.len() && p[i].0 == k
}

/// The map that a list of entries with distinct keys stands for.
pub open spec fn map_of<K, V>(p: Seq<(K, V)>) -> Map<K, V> {
    Map::new(|k: K| keys_of(p).contains(k), |k: K| p[key_index(p, k)].1)
}

pub proof fn lemma_map_of_at<K, V>(p: Seq<(K, V)>, j: int)
    requires
        keys_of(p).no_duplicates(),
        0 <= j < p.len(),
    ensures
        map_of(p).dom().contains(p[j].0),
        map_of(p)[p[j].0] == p[j].1,
{
    let k = p[j].0;
    assert(keys_of(p)[j] == k);
    assert(exists|i: int| 0 <= i < p.len() && p[i].0 == k);
    let i = key_index(p, k);
    assert(keys_of(p)[i] == keys_of(p)[j]);
    assert(i == j);
    assert(keys_of(p).contains(k));
    assert(map_of(p).dom().contains(k));
    assert(map_of(p)[k] == p[i].1);
}

pub proof fn lemma_map_of_index<K, V>(p: Seq<(K, V)>, k: K) -> (j: int)
    requires
        map_of(p).dom().contains(k),
    ensures
        0 <= j < p.len(),
        p[j].0 == k,
{
    let j = choose|j: int| 0 <= j < keys_of(p).len() && keys_of(p)[j] == k;
    j
}

pub proof fn lemma_map_of_len<K, V>(p: Seq<(K, V)>)
    requires
        keys_of(p).no_duplicates(),
    ensures
        map_of(p).dom().finite(),
        map_of(p).len() == p.len(),
{
    assert(map_of(p).dom() =~= keys_of(p).to_set());
    keys_of(p).unique_seq_to_set();
}


/// Replacing the value of an entry replaces it in the map.
pub proof fn lemma_map_of_update<K, V>(p: Seq<(K, V)>, i: int, v: V)
    requires
        keys_of(p).no_duplicates(),
        0 <= i < p.len(),
    ensures
        keys_of(p.update(i, (p[i].0, v))).no_duplicates(),
        map_of(p.update(i, (p[i].0, v))) == map_of(p).insert(p[i].0, v),
{
    let k = p[i].0;
    let q = p.update(i, (k, v));
    assert(keys_of(q) =~= keys_of(p));
    assert(keys_of(p)[i] == k);
    lemma_map_of_at(q, i);
    assert forall|x: K| #[trigger] map_of(q).dom().contains(x) implies map_of(q)[x] == map_of(
        p,
    ).insert(k, v)[x] by {
        if x != k {
            let j = lemma_map_of_index(q, x);
            lemma_map_of_at(q, j);
            lemma_map_of_at(p, j);
        }
    }
    assert(map_of(q) =~= map_of(p).insert(k, v));
}

/// Appending an entry under a new key inserts it into the map.
pub proof fn lemma_map_of_push<K, V>(p: Seq<(K, V)>, k: K, v: V)
    requires
        keys_of(p).no_duplicates(),
        !keys_of(p).contains(k),
    ensures
        keys_of(p.push((k, v))).no_duplicates(),
        map_of(p.push((k, v))) == map_of(p).insert(k, v),
{
    let q = p.push((k, v));
    assert(keys_of(q) =~= keys_of(p).push(k));
    assert forall|a: int, b: int|
        0 <= a < keys_of(q).len() && 0 <= b < keys_of(q).len() && a != b implies keys_of(q)[a]
        != keys_of(q)[b] by {
        if a == p.len() {
            assert(keys_of(p)[b] == keys_of(q)[b]);
        } else if b == p.len() {
            assert(keys_of(p)[a] == keys_of(q)[a]);
        }
    }
    lemma_map_of_at(q, p.len() as int);
    assert forall|x: K| #[trigger] keys_of(q).contains(x) == (keys_of(p).contains(x) || x == k) by {
        if keys_of(q).contains(x) {
            let a = choose|a: int| 0 <= a < keys_of(q).len() && keys_of(q)[a] == x;
            if a < p.len() {
                assert(keys_of(p)[a] == x);
            }
        }
        if keys_of(p).contains(x) {
            let a = choose|a: int| 0 <= a < keys_of(p).len() && keys_of(p)[a] == x;
            assert(keys_of(q)[a] == x);
        }
    }
    assert(map_of(q).dom() =~= map_of(p).insert(k, v).dom());
    assert forall|x: K| #[trigger] map_of(q).dom().contains(x) implies map_of(q)[x] == map_of(
        p,
    ).insert(k, v)[x] by {
        if x != k {
            let j = lemma_map_of_index(q, x);
            lemma_map_of_at(q, j);
            lemma_map_of_at(p, j);
        }
    }
    assert(map_of(q) =~= map_of(p).insert(k, v));
}

/// Removing an entry removes its key from the map.
pub proof fn lemma_map_of_remove<K, V>(p: Seq<(K, V)>, i: int)
    requires
        keys_of(p).no_duplicates(),
        0 <= i < p.len(),
    ensures
        keys_of(p.remove(i)).no_duplicates(),
        map_of(p.remove(i)) == map_of(p).remove(p[i].0),
{
    let key = p[i].0;
    let q = p.remove(i);
    assert(keys_of(q) =~= keys_of(p).remove(i));
    assert forall|x: K| #[trigger] map_of(q).dom().contains(x) implies map_of(p).dom().contains(x)
        && x != key && map_of(q)[x] == map_of(p)[x] by {
        let j = lemma_map_of_index(q, x);
        lemma_map_of_at(q, j);
        if j < i {
            assert(q[j] == p[j]);
            assert(keys_of(p)[j] != keys_of(p)[i]);
            lemma_map_of_at(p, j);
        } else {
            assert(q[j] == p[j + 1]);
            assert(keys_of(p)[j + 1] != keys_of(p)[i]);
            lemma_map_of_at(p, j + 1);
        }
    }
    assert forall|x: K| #[trigger] map_of(p).dom().contains(x) && x != key implies map_of(
        q,
    ).dom().contains(x) by {
        let j = lemma_map_of_index(p, x);
        if j < i {
            assert(keys_of(q)[j] == x);
        } else {
            assert(keys_of(q)[j - 1] == x);
        }
    }
    assert(map_of(q) =~= map_of(p).remove(key));
}

} // verus!
