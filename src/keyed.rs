//! A list of key/value pairs read as a map in which a later pair overrides an earlier one.
use vstd::prelude::*;

verus! {

pub open spec fn last_wins<K, V>(s: Seq<(K, V)>) -> Map<K, V>
    decreases s.len(),
{
    if s.len() == 0 {
        Map::empty()
    } else {
        last_wins(s.drop_last()).insert(s.last().0, s.last().1)
    }
}

/// A key is in the map exactly when some pair has it.
pub proof fn lemma_last_wins_has<K, V>(s: Seq<(K, V)>, k: K)
    ensures
        last_wins(s).contains_key(k) <==> exists|i: int| 0 <= i < s.len() && (#[trigger] s[i]).0 == k,
    decreases s.len(),
{
    if s.len() > 0 {
        lemma_last_wins_has(s.drop_last(), k);
        if last_wins(s).contains_key(k) && s.last().0 != k {
            let i = choose|i: int| 0 <= i < s.drop_last().len() && (#[trigger] s.drop_last()[i]).0 == k;
            assert(s[i] == s.drop_last()[i]);
        }
        if exists|i: int| 0 <= i < s.len() && (#[trigger] s[i]).0 == k {
            let i = choose|i: int| 0 <= i < s.len() && (#[trigger] s[i]).0 == k;
            if i < s.len() - 1 {
                assert(s.drop_last()[i] == s[i]);
            }
        }
    }
}

/// The value of a key is that of the last pair that has it.
pub proof fn lemma_last_wins_value<K, V>(s: Seq<(K, V)>, j: int)
    requires
        0 <= j < s.len(),
        forall|i: int| j < i < s.len() ==> (#[trigger] s[i]).0 != s[j].0,
    ensures
        last_wins(s).contains_key(s[j].0),
        last_wins(s)[s[j].0] == s[j].1,
    decreases s.len(),
{
    if j < s.len() - 1 {
        assert forall|i: int| j < i < s.drop_last().len() implies (#[trigger] s.drop_last()[i]).0 != s.drop_last()[j].0 by {
            assert(s.drop_last()[i] == s[i]);
        }
        lemma_last_wins_value(s.drop_last(), j);
    }
}

/// Keys appear at most once.
pub open spec fn unique_keys<K, V>(s: Seq<(K, V)>) -> bool {
    forall|i: int, j: int| 0 <= i < s.len() && 0 <= j < s.len() && i != j ==> (#[trigger] s[i]).0 != (#[trigger] s[j]).0
}

/// Taking out the only pair of a key takes the key out of the map.
pub proof fn lemma_last_wins_remove<K, V>(s: Seq<(K, V)>, j: int)
    requires
        0 <= j < s.len(),
        unique_keys(s),
    ensures
        last_wins(s.remove(j)) == last_wins(s).remove(s[j].0),
        unique_keys(s.remove(j)),
    decreases s.len(),
{
    let k = s[j].0;
    if j == s.len() - 1 {
        assert(s.remove(j) =~= s.drop_last());
        lemma_last_wins_has(s.drop_last(), k);
        assert(!last_wins(s.drop_last()).contains_key(k)) by {
            if last_wins(s.drop_last()).contains_key(k) {
                let i = choose|i: int| 0 <= i < s.drop_last().len() && (#[trigger] s.drop_last()[i]).0 == k;
                assert(s[i] == s.drop_last()[i]);
            }
        }
        assert(last_wins(s.drop_last()) =~= last_wins(s).remove(k));
    } else {
        let t = s.drop_last();
        assert(unique_keys(t)) by {
            assert forall|a: int, b: int| 0 <= a < t.len() && 0 <= b < t.len() && a != b implies (#[trigger] t[a]).0 != (#[trigger] t[b]).0 by {
                assert(t[a] == s[a] && t[b] == s[b]);
            }
        }
        lemma_last_wins_remove(t, j);
        assert(s.remove(j).drop_last() =~= t.remove(j));
        assert(s.remove(j).last() == s.last());
        assert(s.last().0 != k);
        assert(last_wins(s.remove(j)) =~= last_wins(s).remove(k));
    }
    assert(unique_keys(s.remove(j))) by {
        let r = s.remove(j);
        assert forall|a: int, b: int| 0 <= a < r.len() && 0 <= b < r.len() && a != b implies (#[trigger] r[a]).0 != (#[trigger] r[b]).0 by {
            let a2 = if a < j { a } else { a + 1 };
            let b2 = if b < j { b } else { b + 1 };
            assert(r[a] == s[a2] && r[b] == s[b2]);
        }
    }
}

} // verus!
