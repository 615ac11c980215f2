//! Sequences of key/value pairs kept in key order, and the map they denote.

use vstd::prelude::*;
use crate::store::keys::{chars_lt, lemma_lt_asymmetric, lemma_lt_transitive};

verus! {

/// A sequence of key/value pairs, keys and values taken as plain values.
pub type KvSeq = Seq<(Seq<char>, Seq<u8>)>;

/// Keys strictly increase along `ps` (so no key occurs twice).
pub open spec fn sorted_keys(ps: KvSeq) -> bool {
    forall|i: int, j: int| #![trigger ps[i], ps[j]] 0 <= i < j < ps.len() ==> chars_lt(ps[i].0, ps[j].0)
}

/// Some pair of `ps` has key `k`.
pub open spec fn has_key(ps: KvSeq, k: Seq<char>) -> bool {
    exists|i: int| 0 <= i < ps.len() && ps[i].0 == k
}

/// A position of `ps` holding key `k`, where there is one.
pub open spec fn key_index(ps: KvSeq, k: Seq<char>) -> int {
    choose|i: int| 0 <= i < ps.len() && ps[i].0 == k
}

/// The map that the pairs of `ps` denote.
pub open spec fn map_of(ps: KvSeq) -> Map<Seq<char>, Seq<u8>> {
    Map::new(|k: Seq<char>| has_key(ps, k), |k: Seq<char>| ps[key_index(ps, k)].1)
}

/// The entries of `m` whose key starts with `p`.
pub open spec fn with_prefix(m: Map<Seq<char>, Seq<u8>>, p: Seq<char>) -> Map<Seq<char>, Seq<u8>> {
    Map::new(|k: Seq<char>| m.contains_key(k) && p.is_prefix_of(k), |k: Seq<char>| m[k])
}

/// In a key-ordered sequence, two positions hold two different keys.
pub proof fn lemma_sorted_distinct(ps: KvSeq, i: int, j: int)
    requires
        sorted_keys(ps),
        0 <= i < ps.len(),
        0 <= j < ps.len(),
        i != j,
    ensures
        ps[i].0 != ps[j].0,
{
    if i < j {
        lemma_lt_asymmetric(ps[i].0, ps[j].0);
    } else {
        lemma_lt_asymmetric(ps[j].0, ps[i].0);
    }
}

/// Each pair of a key-ordered sequence is an entry of the map it denotes.
pub proof fn lemma_map_of_at(ps: KvSeq, i: int)
    requires
        sorted_keys(ps),
        0 <= i < ps.len(),
    ensures
        map_of(ps).contains_key(ps[i].0),
        map_of(ps)[ps[i].0] == ps[i].1,
{
    let k = ps[i].0;
    assert(has_key(ps, k));
    let j = key_index(ps, k);
    if j != i {
        lemma_sorted_distinct(ps, i, j);
    }
    assert(map_of(ps).dom().contains(k));
}

/// The empty sequence denotes the empty map.
pub proof fn lemma_map_of_empty(ps: KvSeq)
    requires
        ps.len() == 0,
    ensures
        map_of(ps) == Map::<Seq<char>, Seq<u8>>::empty(),
{
    assert(map_of(ps) =~= Map::<Seq<char>, Seq<u8>>::empty());
}

/// Appending a pair whose key sorts after every key of `ps` adds that entry.
pub proof fn lemma_map_of_push(ps: KvSeq, x: (Seq<char>, Seq<u8>))
    requires
        sorted_keys(ps.push(x)),
    ensures
        map_of(ps.push(x)) == map_of(ps).insert(x.0, x.1),
        sorted_keys(ps),
{
    let qs = ps.push(x);
    assert(sorted_keys(ps)) by {
        assert forall|i: int, j: int| #![trigger ps[i], ps[j]] 0 <= i < j < ps.len() implies chars_lt(ps[i].0, ps[j].0) by {
            assert(qs[i] == ps[i]);
            assert(qs[j] == ps[j]);
        }
    }
    assert(map_of(qs) =~= map_of(ps).insert(x.0, x.1)) by {
        assert forall|k: Seq<char>| #[trigger] map_of(qs).contains_key(k) == map_of(ps).insert(x.0, x.1).contains_key(k) by {
            if has_key(qs, k) {
                let i = key_index(qs, k);
                if i < ps.len() {
                    assert(ps[i] == qs[i]);
                }
            }
            if has_key(ps, k) {
                let i = key_index(ps, k);
                assert(qs[i] == ps[i]);
            }
            if k == x.0 {
                assert(qs[ps.len() as int] == x);
            }
        }
        assert forall|k: Seq<char>| #[trigger] map_of(qs).contains_key(k) implies map_of(qs)[k] == map_of(ps).insert(x.0, x.1)[k] by {
            let i = key_index(qs, k);
            lemma_map_of_at(qs, i);
            if i < ps.len() {
                assert(qs[i] == ps[i]);
                lemma_map_of_at(ps, i);
                lemma_sorted_distinct(qs, i, ps.len() as int);
            }
        }
    }
}

/// Dropping the first pair of a key-ordered sequence removes its key.
pub proof fn lemma_map_of_drop_first(ps: KvSeq)
    requires
        sorted_keys(ps),
        ps.len() > 0,
    ensures
        sorted_keys(ps.drop_first()),
        map_of(ps.drop_first()) == map_of(ps).remove(ps[0].0),
{
    let qs = ps.drop_first();
    assert(sorted_keys(qs)) by {
        assert forall|i: int, j: int| #![trigger qs[i], qs[j]] 0 <= i < j < qs.len() implies chars_lt(qs[i].0, qs[j].0) by {
            assert(qs[i] == ps[i + 1]);
            assert(qs[j] == ps[j + 1]);
        }
    }
    assert(map_of(qs) =~= map_of(ps).remove(ps[0].0)) by {
        assert forall|k: Seq<char>| #[trigger] map_of(qs).contains_key(k) == map_of(ps).remove(ps[0].0).contains_key(k) by {
            if has_key(qs, k) {
                let i = key_index(qs, k);
                assert(ps[i + 1] == qs[i]);
                lemma_sorted_distinct(ps, 0, i + 1);
            }
            if has_key(ps, k) && k != ps[0].0 {
                let i = key_index(ps, k);
                assert(qs[i - 1] == ps[i]);
            }
        }
        assert forall|k: Seq<char>| #[trigger] map_of(qs).contains_key(k) implies map_of(qs)[k] == map_of(ps).remove(ps[0].0)[k] by {
            let i = key_index(qs, k);
            lemma_map_of_at(qs, i);
            assert(ps[i + 1] == qs[i]);
            lemma_map_of_at(ps, i + 1);
        }
    }
}

/// A map has only one key-ordered sequence of pairs denoting it.
pub proof fn lemma_sorted_unique(ps: KvSeq, qs: KvSeq)
    requires
        sorted_keys(ps),
        sorted_keys(qs),
        map_of(ps) == map_of(qs),
    ensures
        ps == qs,
    decreases ps.len(),
{
    if ps.len() == 0 {
        if qs.len() > 0 {
            lemma_map_of_at(qs, 0);
        }
        assert(ps =~= qs);
    } else {
        lemma_map_of_at(ps, 0);
        let k0 = ps[0].0;
        let j = key_index(qs, k0);
        if j > 0 {
            lemma_map_of_at(qs, 0);
            let i = key_index(ps, qs[0].0);
            assert(chars_lt(qs[0].0, qs[j].0));
            if i == 0 {
                lemma_lt_asymmetric(qs[0].0, k0);
            } else {
                assert(chars_lt(ps[0].0, ps[i].0));
                lemma_lt_asymmetric(qs[0].0, k0);
            }
        }
        assert(j == 0);
        lemma_map_of_at(qs, 0);
        assert(ps[0] == qs[0]);
        lemma_map_of_drop_first(ps);
        lemma_map_of_drop_first(qs);
        lemma_sorted_unique(ps.drop_first(), qs.drop_first());
        assert(ps =~= seq![ps[0]] + ps.drop_first());
        assert(qs =~= seq![qs[0]] + qs.drop_first());
    }
}

/// Every key starts with the empty prefix.
pub proof fn lemma_with_empty_prefix(m: Map<Seq<char>, Seq<u8>>)
    ensures
        with_prefix(m, Seq::empty()) == m,
{
    assert forall|k: Seq<char>| Seq::<char>::empty().is_prefix_of(k) by {
        assert(Seq::<char>::empty() =~= k.subrange(0, 0));
    }
    assert(with_prefix(m, Seq::empty()) =~= m);
}

/// The map that inserting the pairs of `ps` one after the other into an
/// empty table leaves (a later pair wins over an earlier one with its key).
pub open spec fn inserted_all(ps: KvSeq) -> Map<Seq<char>, Seq<u8>>
    decreases ps.len(),
{
    if ps.len() == 0 {
        Map::empty()
    } else {
        inserted_all(ps.drop_last()).insert(ps.last().0, ps.last().1)
    }
}

/// Inserting key-ordered pairs one by one leaves the map they denote.
pub proof fn lemma_inserted_all_sorted(ps: KvSeq)
    requires
        sorted_keys(ps),
    ensures
        inserted_all(ps) == map_of(ps),
    decreases ps.len(),
{
    if ps.len() == 0 {
        lemma_map_of_empty(ps);
    } else {
        let init = ps.drop_last();
        assert(ps =~= init.push(ps.last()));
        lemma_map_of_push(init, ps.last());
        lemma_inserted_all_sorted(init);
    }
}

} // verus!
