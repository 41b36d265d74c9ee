//! The sum of the amounts that a finite map holds.

use vstd::prelude::*;

verus! {

/// The amount under `k`; a key that the map does not hold reads as zero.
pub open spec fn amount_of<K>(m: Map<K, u128>, k: K) -> u128 {
    if m.contains_key(k) {
        m[k]
    } else {
        0
    }
}

/// The map with `amount` under `k`; an amount of zero is not stored.
pub open spec fn with_amount<K>(m: Map<K, u128>, k: K, amount: u128) -> Map<K, u128> {
    if amount == 0 {
        m.remove(k)
    } else {
        m.insert(k, amount)
    }
}

/// The map is finite and stores no amount of zero.
pub open spec fn all_positive_amounts<K>(m: Map<K, u128>) -> bool {
    &&& m.dom().finite()
    &&& forall|k: K| m.contains_key(k) ==> #[trigger] m[k] > 0
}

/// The sum of all amounts in a finite map.
pub open spec fn sum_of<K>(m: Map<K, u128>) -> nat
    decreases m.dom().len(),
{
    if m.dom().finite() && m.dom().len() > 0 {
        let k = m.dom().choose();
        m[k] as nat + sum_of(m.remove(k))
    } else {
        0
    }
}

/// The sum can be taken apart at any key, not only at the chosen one.
pub proof fn lemma_sum_split<K>(m: Map<K, u128>, k: K)
    requires
        m.dom().finite(),
        m.contains_key(k),
    ensures
        sum_of(m) == m[k] + sum_of(m.remove(k)),
    decreases m.dom().len(),
{
    let c = m.dom().choose();
    if c != k {
        lemma_sum_split(m.remove(c), k);
        lemma_sum_split(m.remove(k), c);
        assert(m.remove(c).remove(k) =~= m.remove(k).remove(c));
    }
}

pub proof fn lemma_sum_remove<K>(m: Map<K, u128>, k: K)
    requires
        m.dom().finite(),
    ensures
        sum_of(m.remove(k)) == sum_of(m) - amount_of(m, k),
{
    if m.contains_key(k) {
        lemma_sum_split(m, k);
    } else {
        assert(m.remove(k) =~= m);
    }
}

pub proof fn lemma_sum_insert<K>(m: Map<K, u128>, k: K, amount: u128)
    requires
        m.dom().finite(),
    ensures
        sum_of(m.insert(k, amount)) == sum_of(m) - amount_of(m, k) + amount,
{
    lemma_sum_split(m.insert(k, amount), k);
    assert(m.insert(k, amount).remove(k) =~= m.remove(k));
    lemma_sum_remove(m, k);
}

/// Writing an amount changes the sum by the difference to the amount that
/// was there.
pub proof fn lemma_sum_with_amount<K>(m: Map<K, u128>, k: K, amount: u128)
    requires
        m.dom().finite(),
    ensures
        sum_of(with_amount(m, k, amount)) == sum_of(m) - amount_of(m, k) + amount,
        with_amount(m, k, amount).dom().finite(),
{
    if amount == 0 {
        lemma_sum_remove(m, k);
    } else {
        lemma_sum_insert(m, k, amount);
    }
}

/// No single amount exceeds the sum.
pub proof fn lemma_sum_bounds<K>(m: Map<K, u128>, k: K)
    requires
        m.dom().finite(),
    ensures
        amount_of(m, k) <= sum_of(m),
{
    if m.contains_key(k) {
        lemma_sum_split(m, k);
    }
}

/// Two different accounts together hold no more than the sum.
pub proof fn lemma_sum_bounds_two<K>(m: Map<K, u128>, j: K, k: K)
    requires
        m.dom().finite(),
        j != k,
    ensures
        amount_of(m, j) + amount_of(m, k) <= sum_of(m),
{
    if m.contains_key(j) {
        lemma_sum_split(m, j);
        lemma_sum_bounds(m.remove(j), k);
    } else {
        lemma_sum_bounds(m, k);
    }
}

} // verus!
