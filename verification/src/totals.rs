//! Sums over the entries of a finite map, and how they move when one entry
//! is written or removed.

use vstd::prelude::*;

verus! {

/// The sum of `weight(v)` over the values `v` of `m`.
pub open spec fn total<K, V>(m: Map<K, V>, weight: spec_fn(V) -> nat) -> nat
    decreases m.dom().len(),
    when m.dom().finite()
{
    if m.dom().len() == 0 {
        0
    } else {
        let k = m.dom().choose();
        weight(m[k]) + total(m.remove(k), weight)
    }
}

/// Any one entry can be split off the sum.
pub proof fn lemma_total_split<K, V>(m: Map<K, V>, weight: spec_fn(V) -> nat, k: K)
    requires
        m.dom().finite(),
        m.contains_key(k),
    ensures
        total(m, weight) == weight(m[k]) + total(m.remove(k), weight),
    decreases m.dom().len(),
{
    let c = m.dom().choose();
    assert(m.dom().len() != 0) by {
        if m.dom().len() == 0 {
            assert(m.dom() =~= Set::<K>::empty());
        }
    }
    if c != k {
        let rest_c = m.remove(c);
        let rest_k = m.remove(k);
        assert(rest_c.contains_key(k));
        assert(rest_k.contains_key(c));
        lemma_total_split(rest_c, weight, k);
        lemma_total_split(rest_k, weight, c);
        assert(rest_c.remove(k) =~= rest_k.remove(c));
    }
}

/// Writing one entry replaces that entry's share of the sum.
pub proof fn lemma_total_insert<K, V>(m: Map<K, V>, weight: spec_fn(V) -> nat, k: K, v: V)
    requires
        m.dom().finite(),
    ensures
        total(m.insert(k, v), weight) == total(m.remove(k), weight) + weight(v),
        !m.contains_key(k) ==> total(m.insert(k, v), weight) == total(m, weight) + weight(v),
        m.contains_key(k) ==> total(m.insert(k, v), weight) + weight(m[k]) == total(m, weight)
            + weight(v),
{
    lemma_total_split(m.insert(k, v), weight, k);
    assert(m.insert(k, v).remove(k) =~= m.remove(k));
    if m.contains_key(k) {
        lemma_total_split(m, weight, k);
    } else {
        assert(m.remove(k) =~= m);
    }
}

/// Removing one entry takes its share off the sum.
pub proof fn lemma_total_remove<K, V>(m: Map<K, V>, weight: spec_fn(V) -> nat, k: K)
    requires
        m.dom().finite(),
    ensures
        m.contains_key(k) ==> total(m.remove(k), weight) + weight(m[k]) == total(m, weight),
        !m.contains_key(k) ==> total(m.remove(k), weight) == total(m, weight),
{
    if m.contains_key(k) {
        lemma_total_split(m, weight, k);
    } else {
        assert(m.remove(k) =~= m);
    }
}

} // verus!
