//! Maps kept as two parallel sequences, keys without repetition.

use vstd::prelude::*;

verus! {

/// The map from `ks[i]` to `vs[i]`.
pub open spec fn keyed_map<K, V>(ks: Seq<K>, vs: Seq<V>) -> Map<K, V> {
    Map::new(
        |k: K| ks.contains(k),
        |k: K| vs[choose|i: int| 0 <= i < ks.len() && ks[i] == k],
    )
}

/// Keys occur once and each has a value.
pub open spec fn keyed_ok<K, V>(ks: Seq<K>, vs: Seq<V>) -> bool {
    ks.no_duplicates() && ks.len() == vs.len()
}

pub proof fn lemma_keyed_lookup<K, V>(ks: Seq<K>, vs: Seq<V>, i: int)
    requires
        keyed_ok(ks, vs),
        0 <= i < ks.len(),
    ensures
        keyed_map(ks, vs).contains_key(ks[i]),
        keyed_map(ks, vs)[ks[i]] == vs[i],
{
    assert(ks.contains(ks[i]));
    let j = choose|j: int| 0 <= j < ks.len() && ks[j] == ks[i];
    assert(j == i);
}

pub proof fn lemma_keyed_absent<K, V>(ks: Seq<K>, vs: Seq<V>, k: K)
    requires
        forall|i: int| 0 <= i < ks.len() ==> ks[i] != k,
    ensures
        !keyed_map(ks, vs).contains_key(k),
{
}

pub proof fn lemma_keyed_len<K, V>(ks: Seq<K>, vs: Seq<V>)
    requires
        keyed_ok(ks, vs),
    ensures
        keyed_map(ks, vs).dom().finite(),
        keyed_map(ks, vs).len() == ks.len(),
{
    assert(keyed_map(ks, vs).dom() =~= ks.to_set());
    ks.unique_seq_to_set();
}

pub proof fn lemma_keyed_push<K, V>(ks: Seq<K>, vs: Seq<V>, k: K, v: V)
    requires
        keyed_ok(ks, vs),
        !ks.contains(k),
    ensures
        keyed_ok(ks.push(k), vs.push(v)),
        keyed_map(ks.push(k), vs.push(v)) == keyed_map(ks, vs).insert(k, v),
{
    let ks2 = ks.push(k);
    let vs2 = vs.push(v);
    assert(ks2.no_duplicates()) by {
        assert forall|a: int, b: int| 0 <= a < ks2.len() && 0 <= b < ks2.len() && a != b implies ks2[a]
            != ks2[b] by {
            if a == ks.len() {
                assert(ks.contains(ks[b]));
            } else if b == ks.len() {
                assert(ks.contains(ks[a]));
            }
        }
    }
    let m2 = keyed_map(ks2, vs2);
    let m = keyed_map(ks, vs).insert(k, v);
    assert forall|q: K| m2.contains_key(q) <==> m.contains_key(q) by {
        if ks2.contains(q) {
            let i = choose|i: int| 0 <= i < ks2.len() && ks2[i] == q;
            if i < ks.len() {
                assert(ks.contains(q));
            }
        }
        if ks.contains(q) {
            let i = choose|i: int| 0 <= i < ks.len() && ks[i] == q;
            assert(ks2[i] == q);
        }
        assert(ks2[ks.len() as int] == k);
    }
    assert forall|q: K| m2.contains_key(q) implies m2[q] == m[q] by {
        let i = choose|i: int| 0 <= i < ks2.len() && ks2[i] == q;
        lemma_keyed_lookup(ks2, vs2, i);
        if i < ks.len() {
            lemma_keyed_lookup(ks, vs, i);
        }
    }
    assert(m2 =~= m);
}

pub proof fn lemma_keyed_update<K, V>(ks: Seq<K>, vs: Seq<V>, i: int, v: V)
    requires
        keyed_ok(ks, vs),
        0 <= i < ks.len(),
    ensures
        keyed_ok(ks, vs.update(i, v)),
        keyed_map(ks, vs.update(i, v)) == keyed_map(ks, vs).insert(ks[i], v),
{
    let vs2 = vs.update(i, v);
    let m2 = keyed_map(ks, vs2);
    let m = keyed_map(ks, vs).insert(ks[i], v);
    assert forall|q: K| m2.contains_key(q) <==> m.contains_key(q) by {
        assert(ks.contains(ks[i]));
    }
    assert forall|q: K| m2.contains_key(q) implies m2[q] == m[q] by {
        let j = choose|j: int| 0 <= j < ks.len() && ks[j] == q;
        lemma_keyed_lookup(ks, vs2, j);
        lemma_keyed_lookup(ks, vs, j);
    }
    assert(m2 =~= m);
}

pub proof fn lemma_keyed_remove<K, V>(ks: Seq<K>, vs: Seq<V>, i: int)
    requires
        keyed_ok(ks, vs),
        0 <= i < ks.len(),
    ensures
        keyed_ok(ks.remove(i), vs.remove(i)),
        keyed_map(ks.remove(i), vs.remove(i)) == keyed_map(ks, vs).remove(ks[i]),
{
    let ks2 = ks.remove(i);
    let vs2 = vs.remove(i);
    assert forall|j: int| 0 <= j < ks2.len() implies #[trigger] ks2[j] == if j < i {
        ks[j]
    } else {
        ks[j + 1]
    } by {}
    assert(ks2.no_duplicates()) by {
        assert forall|a: int, b: int| 0 <= a < ks2.len() && 0 <= b < ks2.len() && a != b implies ks2[a]
            != ks2[b] by {
            let a2 = if a < i { a } else { a + 1 };
            let b2 = if b < i { b } else { b + 1 };
            assert(ks2[a] == ks[a2]);
            assert(ks2[b] == ks[b2]);
        }
    }
    let m2 = keyed_map(ks2, vs2);
    let m = keyed_map(ks, vs).remove(ks[i]);
    assert forall|q: K| m2.contains_key(q) <==> m.contains_key(q) by {
        if ks2.contains(q) {
            let j = choose|j: int| 0 <= j < ks2.len() && ks2[j] == q;
            let j2 = if j < i { j } else { j + 1 };
            assert(ks[j2] == q);
            assert(j2 != i);
        }
        if ks.contains(q) && q != ks[i] {
            let j = choose|j: int| 0 <= j < ks.len() && ks[j] == q;
            assert(j != i);
            let j1 = if j < i { j } else { j - 1 };
            assert(ks2[j1] == q);
        }
    }
    assert forall|q: K| m2.contains_key(q) implies m2[q] == m[q] by {
        let j = choose|j: int| 0 <= j < ks2.len() && ks2[j] == q;
        let j2 = if j < i { j } else { j + 1 };
        lemma_keyed_lookup(ks2, vs2, j);
        lemma_keyed_lookup(ks, vs, j2);
    }
    assert(m2 =~= m);
}

} // verus!
