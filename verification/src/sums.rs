//! Sums of balances.

use vstd::prelude::*;

verus! {

/// The sum of all values of a map with finitely many keys.
pub open spec fn sum(m: Map<Seq<u8>, i128>) -> int
    decreases m.dom().len(),
{
    if m.dom().finite() && m.dom().len() > 0 {
        let key = m.dom().choose();
        m[key] + sum(m.remove(key))
    } else {
        0
    }
}

/// Any one value can be split off a sum.
pub proof fn lemma_sum_remove(m: Map<Seq<u8>, i128>, key: Seq<u8>)
    requires
        m.dom().finite(),
        m.contains_key(key),
    ensures
        sum(m) == m[key] + sum(m.remove(key)),
    decreases m.dom().len(),
{
    let chosen = m.dom().choose();
    assert(m.dom().len() > 0);
    if chosen != key {
        lemma_sum_remove(m.remove(chosen), key);
        lemma_sum_remove(m.remove(key), chosen);
        assert(m.remove(chosen).remove(key) =~= m.remove(key).remove(chosen));
    }
}

/// Writing one value changes a sum by the difference to the value before.
pub proof fn lemma_sum_insert(m: Map<Seq<u8>, i128>, key: Seq<u8>, value: i128)
    requires
        m.dom().finite(),
    ensures
        m.insert(key, value).dom().finite(),
        sum(m.insert(key, value)) == sum(m) + value - (if m.contains_key(key) {
            m[key] as int
        } else {
            0
        }),
{
    let after = m.insert(key, value);
    lemma_sum_remove(after, key);
    if m.contains_key(key) {
        lemma_sum_remove(m, key);
        assert(after.remove(key) =~= m.remove(key));
    } else {
        assert(after.remove(key) =~= m);
    }
}

/// A sum of values that are not negative is not negative.
pub proof fn lemma_sum_not_negative(m: Map<Seq<u8>, i128>)
    requires
        m.dom().finite(),
        forall|key: Seq<u8>| m.contains_key(key) ==> #[trigger] m[key] >= 0,
    ensures
        sum(m) >= 0,
    decreases m.dom().len(),
{
    if m.dom().len() > 0 {
        let chosen = m.dom().choose();
        assert(m.contains_key(chosen));
        let rest = m.remove(chosen);
        assert forall|key: Seq<u8>| rest.contains_key(key) implies #[trigger] rest[key] >= 0 by {
            assert(m.contains_key(key) && m[key] == rest[key]);
        }
        lemma_sum_not_negative(rest);
    }
}

/// If no value is negative, none is greater than the sum, nor are two together.
pub proof fn lemma_sum_bounds(m: Map<Seq<u8>, i128>, first: Seq<u8>, second: Seq<u8>)
    requires
        m.dom().finite(),
        forall|key: Seq<u8>| m.contains_key(key) ==> #[trigger] m[key] >= 0,
        m.contains_key(first),
        m.contains_key(second),
    ensures
        m[first] <= sum(m),
        first != second ==> m[first] + m[second] <= sum(m),
{
    lemma_sum_remove(m, first);
    let rest = m.remove(first);
    assert forall|key: Seq<u8>| rest.contains_key(key) implies #[trigger] rest[key] >= 0 by {
        assert(m.contains_key(key) && m[key] == rest[key]);
    }
    lemma_sum_not_negative(rest);
    if first != second {
        lemma_sum_remove(rest, second);
        let remainder = rest.remove(second);
        assert forall|key: Seq<u8>| remainder.contains_key(key) implies #[trigger] remainder[key]
            >= 0 by {
            assert(m.contains_key(key) && m[key] == remainder[key]);
        }
        lemma_sum_not_negative(remainder);
    }
}

} // verus!
