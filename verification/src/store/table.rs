//! An ordered key/value table: the in-memory form of the Barn's data table,
//! whose keys are kept in the order the persistent table iterates them.

use vstd::prelude::*;
use crate::store::keys::{chars_lt, compare_keys, lemma_lt_asymmetric, lemma_lt_transitive};
use crate::store::kv::{
    has_key, key_index, lemma_map_of_at, lemma_map_of_empty, lemma_sorted_distinct, map_of,
    sorted_keys, with_prefix, KvSeq,
};
use crate::text::string_from_chars;

verus! {

/// A key and its value, both as plain values.
pub open spec fn entry_view(e: (Vec<char>, Vec<u8>)) -> (Seq<char>, Seq<u8>) {
    (e.0@, e.1@)
}

/// A key given as a `String` and its value, both as plain values.
pub open spec fn pair_view(e: (String, Vec<u8>)) -> (Seq<char>, Seq<u8>) {
    (e.0@, e.1@)
}

/// The plain-value pairs of a list of string-keyed pairs.
pub open spec fn pairs_view(ps: Seq<(String, Vec<u8>)>) -> KvSeq {
    ps.map_values(|e: (String, Vec<u8>)| pair_view(e))
}

/// A byte vector with the same contents as `v`.
pub fn copy_bytes(v: &Vec<u8>) -> (r: Vec<u8>)
    ensures
        r@ == v@,
{
    let r = v.clone();
    proof {
        assert(r@ =~= v@);
    }
    r
}

/// A character vector with the same contents as `v`.
pub fn copy_chars(v: &Vec<char>) -> (r: Vec<char>)
    ensures
        r@ == v@,
{
    let r = v.clone();
    proof {
        assert(r@ =~= v@);
    }
    r
}

/// `x` is one of the first `i` pairs of `ps`, and its key starts with `p`.
pub open spec fn kept_pair(ps: KvSeq, i: int, p: Seq<char>, x: (Seq<char>, Seq<u8>)) -> bool {
    exists|j: int| 0 <= j < i && x == ps[j] && p.is_prefix_of(ps[j].0)
}

/// `x` occurs in `rv`.
pub open spec fn occurs(rv: KvSeq, x: (Seq<char>, Seq<u8>)) -> bool {
    exists|t: int| 0 <= t < rv.len() && rv[t] == x
}

/// What a listing of the pairs of `ps` with prefix `p` holds after looking
/// at the first `i` of them: the kept pairs, in order, are below every pair
/// still to come, each comes from `ps` and has the prefix, and each pair of
/// `ps` seen so far that has the prefix was kept.
pub open spec fn list_inv(ps: KvSeq, rv: KvSeq, i: int, p: Seq<char>) -> bool {
    &&& sorted_keys(rv)
    &&& forall|t: int, j: int|
        #![trigger rv[t], ps[j]]
        0 <= t < rv.len() && i <= j < ps.len() ==> chars_lt(rv[t].0, ps[j].0)
    &&& forall|t: int| 0 <= t < rv.len() ==> #[trigger] kept_pair(ps, i, p, rv[t])
    &&& forall|j: int| 0 <= j < i && p.is_prefix_of(ps[j].0) ==> #[trigger] occurs(rv, ps[j])
}

proof fn lemma_list_step(ps: KvSeq, old_rv: KvSeq, rv: KvSeq, i: int, p: Seq<char>, keep: bool)
    requires
        sorted_keys(ps),
        0 <= i < ps.len(),
        list_inv(ps, old_rv, i, p),
        keep == p.is_prefix_of(ps[i].0),
        keep ==> rv == old_rv.push(ps[i]),
        !keep ==> rv == old_rv,
    ensures
        list_inv(ps, rv, i + 1, p),
{
    assert forall|t: int| 0 <= t < rv.len() implies #[trigger] kept_pair(ps, i + 1, p, rv[t]) by {
        if t < old_rv.len() {
            assert(rv[t] == old_rv[t]);
            assert(kept_pair(ps, i, p, old_rv[t]));
            let j = choose|j: int| 0 <= j < i && old_rv[t] == ps[j] && p.is_prefix_of(ps[j].0);
            assert(0 <= j < i + 1 && rv[t] == ps[j] && p.is_prefix_of(ps[j].0));
        } else {
            assert(rv[t] == ps[i]);
            assert(0 <= i < i + 1 && rv[t] == ps[i] && p.is_prefix_of(ps[i].0));
        }
    }
    assert forall|j: int| 0 <= j < i + 1 && p.is_prefix_of(ps[j].0) implies #[trigger] occurs(rv, ps[j]) by {
        if j < i {
            assert(occurs(old_rv, ps[j]));
            let t = choose|t: int| 0 <= t < old_rv.len() && old_rv[t] == ps[j];
            assert(rv[t] == old_rv[t]);
        } else {
            assert(rv[old_rv.len() as int] == ps[j]);
        }
    }
    assert forall|t: int, j: int|
        #![trigger rv[t], ps[j]]
        0 <= t < rv.len() && i + 1 <= j < ps.len() implies chars_lt(rv[t].0, ps[j].0) by {
        if t < old_rv.len() {
            assert(rv[t] == old_rv[t]);
            assert(chars_lt(old_rv[t].0, ps[j].0));
        } else {
            assert(chars_lt(ps[i].0, ps[j].0));
        }
    }
    if keep {
        assert forall|a: int, b: int| #![trigger rv[a], rv[b]] 0 <= a < b < rv.len() implies chars_lt(
            rv[a].0,
            rv[b].0,
        ) by {
            assert(rv[a] == old_rv[a]);
            if b < old_rv.len() {
                assert(rv[b] == old_rv[b]);
            } else {
                assert(chars_lt(old_rv[a].0, ps[i].0));
            }
        }
    }
}

/// Key/value table whose entries are kept in key order.
pub struct DataTable {
    entries: Vec<(Vec<char>, Vec<u8>)>,
}

impl View for DataTable {
    type V = Map<Seq<char>, Seq<u8>>;

    open spec fn view(&self) -> Map<Seq<char>, Seq<u8>> {
        map_of(self.pairs())
    }
}

impl DataTable {
    /// The entries, in key order, as plain values.
    pub closed spec fn pairs(&self) -> KvSeq {
        self.entries@.map_values(|e: (Vec<char>, Vec<u8>)| entry_view(e))
    }

    /// The entries are kept in strictly increasing key order.
    pub closed spec fn wf(&self) -> bool {
        sorted_keys(self.pairs())
    }

    /// The contents of a well-formed table can be listed in key order.
    pub proof fn lemma_listable(&self)
        requires
            self.wf(),
        ensures
            exists|ps: KvSeq| sorted_keys(ps) && map_of(ps) == self@,
    {
        assert(sorted_keys(self.pairs()) && map_of(self.pairs()) == self@);
    }

    /// An empty table.
    pub fn new() -> (t: Self)
        ensures
            t.wf(),
            t@ == Map::<Seq<char>, Seq<u8>>::empty(),
    {
        let t = DataTable { entries: Vec::new() };
        proof {
            lemma_map_of_empty(t.pairs());
        }
        t
    }

    /// Number of entries.
    pub fn len(&self) -> (n: usize)
        requires
            self.wf(),
        ensures
            n == self@.len(),
            n == self@.dom().len(),
    {
        proof {
            self.lemma_len();
        }
        self.entries.len()
    }

    proof fn lemma_len(&self)
        requires
            self.wf(),
        ensures
            self@.len() == self.entries@.len(),
            self@.dom().finite(),
    {
        let ps = self.pairs();
        let keys = Seq::new(ps.len(), |i: int| ps[i].0);
        assert(keys.no_duplicates()) by {
            assert forall|i: int, j: int| 0 <= i < keys.len() && 0 <= j < keys.len() && i != j
                implies keys[i] != keys[j] by {
                lemma_sorted_distinct(ps, i, j);
            }
        }
        assert(self@.dom() =~= keys.to_set()) by {
            assert forall|k: Seq<char>| self@.dom().contains(k) implies keys.to_set().contains(k) by {
                let i = key_index(ps, k);
                assert(keys[i] == k);
            }
            assert forall|k: Seq<char>| keys.to_set().contains(k) implies self@.dom().contains(k) by {
                let i = choose|i: int| 0 <= i < keys.len() && keys[i] == k;
                assert(ps[i].0 == k);
            }
        }
        keys.unique_seq_to_set();
    }

    /// Position where `key` is or would be: every key before it sorts before
    /// `key`, and the key there (if any) is `key` or sorts after it.
    fn find(&self, key: &Vec<char>) -> (r: (bool, usize))
        requires
            self.wf(),
        ensures
            r.1 <= self.pairs().len(),
            forall|i: int| 0 <= i < r.1 ==> chars_lt(#[trigger] self.pairs()[i].0, key@),
            r.0 ==> r.1 < self.pairs().len() && self.pairs()[r.1 as int].0 == key@,
            !r.0 ==> r.1 == self.pairs().len() || chars_lt(key@, self.pairs()[r.1 as int].0),
    {
        let n = self.entries.len();
        let mut i: usize = 0;
        while i < n
            invariant
                i <= n,
                n == self.entries@.len(),
                n == self.pairs().len(),
                forall|j: int| 0 <= j < i ==> chars_lt(#[trigger] self.pairs()[j].0, key@),
            decreases n - i,
        {
            let c = compare_keys(&self.entries[i].0, key);
            assert(self.pairs()[i as int] == entry_view(self.entries@[i as int]));
            if c >= 0 {
                return (c == 0, i);
            }
            i = i + 1;
        }
        (false, i)
    }

    /// No entry at or after position `pos` has a key sorting before
    /// `key`, when the entry at `pos` sorts after `key`.
    proof fn lemma_absent(&self, key: Seq<char>, pos: int)
        requires
            self.wf(),
            0 <= pos <= self.pairs().len(),
            forall|i: int| 0 <= i < pos ==> chars_lt(#[trigger] self.pairs()[i].0, key),
            pos == self.pairs().len() || chars_lt(key, self.pairs()[pos].0),
        ensures
            !self@.contains_key(key),
    {
        let ps = self.pairs();
        if has_key(ps, key) {
            let i = key_index(ps, key);
            if i < pos {
                lemma_lt_asymmetric(ps[i].0, key);
            } else if i == pos {
                lemma_lt_asymmetric(key, ps[i].0);
            } else {
                assert(chars_lt(ps[pos].0, ps[i].0));
                lemma_lt_transitive(key, ps[pos].0, ps[i].0);
                lemma_lt_asymmetric(key, ps[i].0);
            }
        }
    }

    /// The value stored under `key`.
    pub fn get(&self, key: &Vec<char>) -> (r: Option<Vec<u8>>)
        requires
            self.wf(),
        ensures
            match r {
                Some(v) => self@.contains_key(key@) && v@ == self@[key@],
                None => !self@.contains_key(key@),
            },
    {
        let (found, pos) = self.find(key);
        if found {
            proof {
                lemma_map_of_at(self.pairs(), pos as int);
            }
            Some(copy_bytes(&self.entries[pos].1))
        } else {
            proof {
                self.lemma_absent(key@, pos as int);
            }
            None
        }
    }

    /// Whether `key` has an entry.
    pub fn contains(&self, key: &Vec<char>) -> (b: bool)
        requires
            self.wf(),
        ensures
            b == self@.contains_key(key@),
    {
        let (found, pos) = self.find(key);
        proof {
            if found {
                lemma_map_of_at(self.pairs(), pos as int);
            } else {
                self.lemma_absent(key@, pos as int);
            }
        }
        found
    }

    /// Stores `value` under `key`, replacing what was there.
    pub fn insert(&mut self, key: Vec<char>, value: Vec<u8>)
        requires
            old(self).wf(),
        ensures
            final(self).wf(),
            final(self)@ == old(self)@.insert(key@, value@),
    {
        let (found, pos) = self.find(&key);
        let ghost old_ps = self.pairs();
        let ghost k = key@;
        let ghost v = value@;
        if found {
            self.entries.set(pos, (key, value));
            let ghost new_ps = self.pairs();
            proof {
                assert(new_ps =~= old_ps.update(pos as int, (k, v)));
                assert(sorted_keys(new_ps)) by {
                    assert forall|i: int, j: int| #![trigger new_ps[i], new_ps[j]] 0 <= i < j < new_ps.len() implies chars_lt(
                        new_ps[i].0,
                        new_ps[j].0,
                    ) by {
                        assert(old_ps[i].0 == new_ps[i].0);
                        assert(old_ps[j].0 == new_ps[j].0);
                    }
                }
                assert(map_of(new_ps) =~= map_of(old_ps).insert(k, v)) by {
                    assert forall|q: Seq<char>| #[trigger] map_of(new_ps).contains_key(q) == map_of(
                        old_ps,
                    ).insert(k, v).contains_key(q) by {
                        if has_key(new_ps, q) {
                            let i = key_index(new_ps, q);
                            if i != pos {
                                assert(old_ps[i].0 == q);
                            }
                        }
                        if has_key(old_ps, q) {
                            let i = key_index(old_ps, q);
                            assert(new_ps[i].0 == q);
                        }
                        if q == k {
                            assert(new_ps[pos as int].0 == q);
                        }
                    }
                    assert forall|q: Seq<char>| #[trigger] map_of(new_ps).contains_key(q)
                        implies map_of(new_ps)[q] == map_of(old_ps).insert(k, v)[q] by {
                        let i = key_index(new_ps, q);
                        lemma_map_of_at(new_ps, i);
                        if i != pos {
                            assert(old_ps[i] == new_ps[i]);
                            lemma_map_of_at(old_ps, i);
                            lemma_sorted_distinct(new_ps, i, pos as int);
                        }
                    }
                }
            }
        } else {
            self.entries.insert(pos, (key, value));
            let ghost new_ps = self.pairs();
            proof {
                assert(new_ps =~= old_ps.insert(pos as int, (k, v)));
                assert forall|i: int, j: int| #![trigger new_ps[i], new_ps[j]] 0 <= i < j < new_ps.len() implies chars_lt(
                    new_ps[i].0,
                    new_ps[j].0,
                ) by {
                    if j < pos {
                        assert(chars_lt(old_ps[i].0, old_ps[j].0));
                    } else if j == pos {
                        assert(chars_lt(old_ps[i].0, k));
                    } else if i == pos {
                        if j - 1 > pos {
                            assert(chars_lt(old_ps[pos as int].0, old_ps[j - 1].0));
                            lemma_lt_transitive(k, old_ps[pos as int].0, old_ps[j - 1].0);
                        }
                    } else if i < pos {
                        assert(chars_lt(old_ps[i].0, k));
                        if j - 1 > pos {
                            assert(chars_lt(old_ps[pos as int].0, old_ps[j - 1].0));
                            lemma_lt_transitive(k, old_ps[pos as int].0, old_ps[j - 1].0);
                        }
                        lemma_lt_transitive(old_ps[i].0, k, old_ps[j - 1].0);
                    } else {
                        assert(chars_lt(old_ps[i - 1].0, old_ps[j - 1].0));
                    }
                }
                self.lemma_absent_old(old_ps, k, pos as int);
                assert(map_of(new_ps) =~= map_of(old_ps).insert(k, v)) by {
                    assert forall|q: Seq<char>| #[trigger] map_of(new_ps).contains_key(q) == map_of(
                        old_ps,
                    ).insert(k, v).contains_key(q) by {
                        if has_key(new_ps, q) {
                            let i = key_index(new_ps, q);
                            if i < pos {
                                assert(old_ps[i].0 == q);
                            } else if i > pos {
                                assert(old_ps[i - 1].0 == q);
                            }
                        }
                        if has_key(old_ps, q) {
                            let i = key_index(old_ps, q);
                            if i < pos {
                                assert(new_ps[i].0 == q);
                            } else {
                                assert(new_ps[i + 1].0 == q);
                            }
                        }
                        if q == k {
                            assert(new_ps[pos as int].0 == q);
                        }
                    }
                    assert forall|q: Seq<char>| #[trigger] map_of(new_ps).contains_key(q)
                        implies map_of(new_ps)[q] == map_of(old_ps).insert(k, v)[q] by {
                        let i = key_index(new_ps, q);
                        lemma_map_of_at(new_ps, i);
                        if i < pos {
                            assert(old_ps[i] == new_ps[i]);
                            lemma_map_of_at(old_ps, i);
                        } else if i > pos {
                            assert(old_ps[i - 1] == new_ps[i]);
                            lemma_map_of_at(old_ps, i - 1);
                        }
                    }
                }
            }
        }
    }

    proof fn lemma_absent_old(&self, old_ps: KvSeq, key: Seq<char>, pos: int)
        requires
            sorted_keys(old_ps),
            0 <= pos <= old_ps.len(),
            forall|i: int| 0 <= i < pos ==> chars_lt(#[trigger] old_ps[i].0, key),
            pos == old_ps.len() || chars_lt(key, old_ps[pos].0),
        ensures
            !has_key(old_ps, key),
    {
        if has_key(old_ps, key) {
            let i = key_index(old_ps, key);
            if i < pos {
                lemma_lt_asymmetric(old_ps[i].0, key);
            } else if i == pos {
                lemma_lt_asymmetric(key, old_ps[i].0);
            } else {
                assert(chars_lt(old_ps[pos].0, old_ps[i].0));
                lemma_lt_transitive(key, old_ps[pos].0, old_ps[i].0);
                lemma_lt_asymmetric(key, old_ps[i].0);
            }
        }
    }

    /// Removes the entry of `key`, if there is one.
    pub fn remove(&mut self, key: &Vec<char>)
        requires
            old(self).wf(),
        ensures
            final(self).wf(),
            final(self)@ == old(self)@.remove(key@),
    {
        let (found, pos) = self.find(key);
        let ghost old_ps = self.pairs();
        let ghost k = key@;
        if found {
            self.entries.remove(pos);
            let ghost new_ps = self.pairs();
            proof {
                assert(new_ps =~= old_ps.remove(pos as int));
                assert forall|i: int, j: int| #![trigger new_ps[i], new_ps[j]] 0 <= i < j < new_ps.len() implies chars_lt(
                    new_ps[i].0,
                    new_ps[j].0,
                ) by {
                    let oi = if i < pos { i } else { i + 1 };
                    let oj = if j < pos { j } else { j + 1 };
                    assert(new_ps[i] == old_ps[oi]);
                    assert(new_ps[j] == old_ps[oj]);
                    assert(chars_lt(old_ps[oi].0, old_ps[oj].0));
                }
                assert(map_of(new_ps) =~= map_of(old_ps).remove(k)) by {
                    assert forall|q: Seq<char>| #[trigger] map_of(new_ps).contains_key(q) == map_of(
                        old_ps,
                    ).remove(k).contains_key(q) by {
                        if has_key(new_ps, q) {
                            let i = key_index(new_ps, q);
                            let oi = if i < pos { i } else { i + 1 };
                            assert(new_ps[i] == old_ps[oi]);
                            lemma_sorted_distinct(old_ps, oi, pos as int);
                        }
                        if has_key(old_ps, q) && q != k {
                            let i = key_index(old_ps, q);
                            if i < pos {
                                assert(new_ps[i] == old_ps[i]);
                            } else {
                                assert(new_ps[i - 1] == old_ps[i]);
                            }
                        }
                    }
                    assert forall|q: Seq<char>| #[trigger] map_of(new_ps).contains_key(q)
                        implies map_of(new_ps)[q] == map_of(old_ps).remove(k)[q] by {
                        let i = key_index(new_ps, q);
                        lemma_map_of_at(new_ps, i);
                        let oi = if i < pos { i } else { i + 1 };
                        assert(new_ps[i] == old_ps[oi]);
                        lemma_map_of_at(old_ps, oi);
                    }
                }
            }
        } else {
            proof {
                self.lemma_absent(k, pos as int);
                assert(self@ =~= old(self)@.remove(k));
            }
        }
    }

    /// Every entry whose key starts with `prefix`, in key order, keys as
    /// `String`s.
    pub fn list(&self, prefix: &Vec<char>) -> (r: Vec<(String, Vec<u8>)>)
        requires
            self.wf(),
        ensures
            sorted_keys(pairs_view(r@)),
            map_of(pairs_view(r@)) == with_prefix(self@, prefix@),
    {
        let ghost ps = self.pairs();
        let n = self.entries.len();
        let mut r: Vec<(String, Vec<u8>)> = Vec::new();
        let mut i: usize = 0;
        proof {
            assert(pairs_view(r@) =~= Seq::<(Seq<char>, Seq<u8>)>::empty());
        }
        while i < n
            invariant
                i <= n,
                n == ps.len(),
                ps == self.pairs(),
                sorted_keys(ps),
                list_inv(ps, pairs_view(r@), i as int, prefix@),
            decreases n - i,
        {
            let ghost old_rv = pairs_view(r@);
            let keep = self.has_prefix_at(i, prefix);
            if keep {
                let k = string_from_chars(self.entries[i].0.as_slice());
                let v = copy_bytes(&self.entries[i].1);
                r.push((k, v));
                proof {
                    assert(pairs_view(r@) =~= old_rv.push(ps[i as int]));
                }
            }
            proof {
                lemma_list_step(ps, old_rv, pairs_view(r@), i as int, prefix@, keep);
            }
            i = i + 1;
        }
        proof {
            let rv = pairs_view(r@);
            let m = with_prefix(self@, prefix@);
            assert(map_of(rv) =~= m) by {
                assert forall|q: Seq<char>| #[trigger] map_of(rv).contains_key(q) == m.contains_key(q) by {
                    if has_key(rv, q) {
                        let t = key_index(rv, q);
                        assert(kept_pair(ps, n as int, prefix@, rv[t]));
                        let j = choose|j: int|
                            0 <= j < n && rv[t] == ps[j] && prefix@.is_prefix_of(ps[j].0);
                        lemma_map_of_at(ps, j);
                    }
                    if m.contains_key(q) {
                        let j = key_index(ps, q);
                        assert(occurs(rv, ps[j]));
                        let t = choose|t: int| 0 <= t < rv.len() && rv[t] == ps[j];
                        assert(rv[t].0 == q);
                    }
                }
                assert forall|q: Seq<char>| #[trigger] map_of(rv).contains_key(q) implies map_of(rv)[q]
                    == m[q] by {
                    let t = key_index(rv, q);
                    lemma_map_of_at(rv, t);
                    assert(kept_pair(ps, n as int, prefix@, rv[t]));
                    let j = choose|j: int|
                        0 <= j < n && rv[t] == ps[j] && prefix@.is_prefix_of(ps[j].0);
                    lemma_map_of_at(ps, j);
                }
            }
        }
        r
    }

    /// Whether the key at position `i` starts with `prefix`.
    fn has_prefix_at(&self, i: usize, prefix: &Vec<char>) -> (b: bool)
        requires
            i < self.pairs().len(),
        ensures
            b == prefix@.is_prefix_of(self.pairs()[i as int].0),
    {
        let key = &self.entries[i].0;
        assert(self.pairs()[i as int].0 == key@);
        if prefix.len() > key.len() {
            return false;
        }
        let mut t: usize = 0;
        while t < prefix.len()
            invariant
                t <= prefix.len() <= key.len(),
                i < self.pairs().len(),
                self.pairs()[i as int].0 == key@,
                forall|u: int| 0 <= u < t ==> prefix@[u] == key@[u],
            decreases prefix.len() - t,
        {
            if prefix[t] != key[t] {
                proof {
                    if prefix@.is_prefix_of(key@) {
                        assert(prefix@[t as int] == key@.subrange(0, prefix@.len() as int)[t as int]);
                    }
                }
                return false;
            }
            t = t + 1;
        }
        proof {
            assert(prefix@ =~= key@.subrange(0, prefix@.len() as int));
        }
        true
    }
}

} // verus!
