use vstd::prelude::*;

verus! {

/// The views of a sequence of strings.
pub open spec fn str_views(s: Seq<String>) -> Seq<Seq<char>> {
    s.map_values(|x: String| x@)
}

/// True when some pair of `m` carries the key `k`.
pub open spec fn has_key<V>(m: Seq<(Seq<char>, V)>, k: Seq<char>) -> bool {
    exists|i: int| 0 <= i < m.len() && m[i].0 == k
}

/// The position of the pair carrying `k`; with distinct keys it is unique.
pub open spec fn key_index<V>(m: Seq<(Seq<char>, V)>, k: Seq<char>) -> int {
    choose|i: int| 0 <= i < m.len() && m[i].0 == k
}

/// The value paired with `k`.
pub open spec fn lookup<V>(m: Seq<(Seq<char>, V)>, k: Seq<char>) -> V
    recommends
        has_key(m, k),
{
    m[key_index(m, k)].1
}

/// No key occurs twice.
pub open spec fn distinct_keys<V>(m: Seq<(Seq<char>, V)>) -> bool {
    forall|i: int, j: int| 0 <= i < j < m.len() ==> m[i].0 != m[j].0
}

/// With distinct keys, an index that carries `k` is the one `key_index`
/// picks.
pub proof fn lemma_key_index_unique<V>(m: Seq<(Seq<char>, V)>, k: Seq<char>, i: int)
    requires
        distinct_keys(m),
        0 <= i < m.len(),
        m[i].0 == k,
    ensures
        has_key(m, k),
        key_index(m, k) == i,
        lookup(m, k) == m[i].1,
{
    assert(has_key(m, k));
    let j = key_index(m, k);
    if i < j {
        assert(m[i].0 != m[j].0);
    } else if j < i {
        assert(m[j].0 != m[i].0);
    }
}

/// Removing a pair keeps the remaining keys distinct.
pub proof fn lemma_distinct_remove<V>(m: Seq<(Seq<char>, V)>, j: int)
    requires
        distinct_keys(m),
        0 <= j < m.len(),
    ensures
        distinct_keys(m.remove(j)),
{
    let r = m.remove(j);
    assert forall|i1: int, i2: int| 0 <= i1 < i2 < r.len() implies r[i1].0 != r[i2].0 by {
        let o1 = if i1 < j { i1 } else { i1 + 1 };
        let o2 = if i2 < j { i2 } else { i2 + 1 };
        assert(r[i1] == m[o1]);
        assert(r[i2] == m[o2]);
    }
}

/// Removing the pair at `j` leaves every other key present, with its value.
pub proof fn lemma_has_key_remove_other<V>(m: Seq<(Seq<char>, V)>, j: int, k: Seq<char>)
    requires
        distinct_keys(m),
        0 <= j < m.len(),
        has_key(m, k),
        m[j].0 != k,
    ensures
        has_key(m.remove(j), k),
        lookup(m.remove(j), k) == lookup(m, k),
        key_index(m.remove(j), k) == if key_index(m, k) < j {
            key_index(m, k)
        } else {
            key_index(m, k) - 1
        },
{
    let r = m.remove(j);
    let i = key_index(m, k);
    assert(m[i].0 == k);
    let i2 = if i < j { i } else { i - 1 };
    assert(r[i2] == m[i]);
    lemma_distinct_remove(m, j);
    lemma_key_index_unique(r, k, i2);
}

/// First position of `k` among the pairs of `v`, by string comparison.
pub fn find_pair_index<V>(v: &Vec<(String, V)>, k: &String) -> (r: Option<usize>)
    ensures
        match r {
            Some(i) => i < v@.len() && v@[i as int].0@ == k@ && (forall|j: int|
                0 <= j < i ==> v@[j].0@ != k@),
            None => forall|j: int| 0 <= j < v@.len() ==> v@[j].0@ != k@,
        },
{
    let n = v.len();
    let mut i: usize = 0;
    while i < n
        invariant
            i <= n,
            n == v@.len(),
            forall|j: int| 0 <= j < i ==> v@[j].0@ != k@,
        decreases n - i,
    {
        let pair: &(String, V) = &v[i];
        if pair.0 == *k {
            return Some(i);
        }
        i += 1;
    }
    None
}

} // verus!
