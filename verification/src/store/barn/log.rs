//! The Barn's raft log storage: the entries kept in index order, the id of
//! the last purged entry, and the last vote this node cast.

use vstd::prelude::*;
use crate::store::barn::types::{Entry, EntryView, LogId, Vote};

verus! {

/// The log storage as plain values.
pub struct LogStoreView {
    pub log: Seq<EntryView>,
    pub last_purged: Option<LogId>,
    pub vote: Option<Vote>,
}

/// Where the log stands: the last purged entry, and the last entry the log
/// holds (the last purged one when it holds none).
#[derive(Clone, Copy, Debug, PartialEq, Eq, Structural)]
pub struct LogState {
    pub last_purged_log_id: Option<LogId>,
    pub last_log_id: Option<LogId>,
}

/// Entry indexes strictly increase along `log`.
pub open spec fn index_sorted(log: Seq<EntryView>) -> bool {
    forall|i: int, j: int| #![trigger log[i], log[j]] 0 <= i < j < log.len() ==> log[i].log_id.index < log[j].log_id.index
}

/// The index of `e` lies in `[lo, hi)` (no upper end when `hi` is `None`).
pub open spec fn in_range(e: EntryView, lo: int, hi: Option<int>) -> bool {
    lo <= e.log_id.index && match hi {
        Some(h) => e.log_id.index < h,
        None => true,
    }
}

/// The entries of `log` whose index lies in `[lo, hi)`, in their order.
pub open spec fn select(log: Seq<EntryView>, lo: int, hi: Option<int>) -> Seq<EntryView>
    decreases log.len(),
{
    if log.len() == 0 {
        log
    } else if in_range(log.last(), lo, hi) {
        select(log.drop_last(), lo, hi).push(log.last())
    } else {
        select(log.drop_last(), lo, hi)
    }
}

/// `log` with `e` stored at its index, replacing the entry that had it.
pub open spec fn with_entry(log: Seq<EntryView>, e: EntryView) -> Seq<EntryView> {
    select(log, 0, Some(e.log_id.index as int)) + seq![e] + select(log, e.log_id.index + 1, None)
}

/// `log` after storing each of `es` in turn.
pub open spec fn with_entries(log: Seq<EntryView>, es: Seq<EntryView>) -> Seq<EntryView>
    decreases es.len(),
{
    if es.len() == 0 {
        log
    } else {
        with_entry(with_entries(log, es.drop_last()), es.last())
    }
}

/// The last entry id the log holds, or the last purged one when it holds
/// none.
pub open spec fn last_log_id(v: LogStoreView) -> Option<LogId> {
    if v.log.len() > 0 {
        Some(v.log.last().log_id)
    } else {
        v.last_purged
    }
}

/// Each entry of a selection is an entry of the log, in range, and the
/// selection keeps the log's order.
pub proof fn lemma_select(log: Seq<EntryView>, lo: int, hi: Option<int>)
    requires
        index_sorted(log),
    ensures
        index_sorted(select(log, lo, hi)),
        forall|t: int| 0 <= t < select(log, lo, hi).len() ==> in_range(#[trigger] select(log, lo, hi)[t], lo, hi),
        forall|t: int| 0 <= t < select(log, lo, hi).len() ==> exists|j: int| 0 <= j < log.len() && #[trigger] select(log, lo, hi)[t] == log[j],
        forall|j: int| 0 <= j < log.len() && in_range(log[j], lo, hi) ==> exists|t: int| 0 <= t < select(log, lo, hi).len() && #[trigger] select(log, lo, hi)[t] == log[j],
    decreases log.len(),
{
    if log.len() > 0 {
        let init = log.drop_last();
        assert(index_sorted(init)) by {
            assert forall|i: int, j: int| #![trigger init[i], init[j]] 0 <= i < j < init.len() implies init[i].log_id.index < init[j].log_id.index by {
                assert(init[i] == log[i] && init[j] == log[j]);
            }
        }
        lemma_select(init, lo, hi);
        let s0 = select(init, lo, hi);
        let s = select(log, lo, hi);
        assert forall|t: int| 0 <= t < s.len() implies exists|j: int| 0 <= j < log.len() && #[trigger] s[t] == log[j] by {
            if t < s0.len() {
                assert(s[t] == s0[t]);
                let j = choose|j: int| 0 <= j < init.len() && s0[t] == init[j];
                assert(log[j] == init[j]);
            } else {
                assert(s[t] == log[log.len() - 1]);
            }
        }
        assert forall|j: int| 0 <= j < log.len() && in_range(log[j], lo, hi) implies exists|t: int| 0 <= t < s.len() && #[trigger] s[t] == log[j] by {
            if j < init.len() {
                assert(init[j] == log[j]);
                let t = choose|t: int| 0 <= t < s0.len() && s0[t] == init[j];
                assert(s[t] == s0[t]);
            } else {
                assert(s[s.len() - 1] == log[j]);
            }
        }
        assert forall|t: int| 0 <= t < s.len() implies in_range(#[trigger] s[t], lo, hi) by {
            if t < s0.len() {
                assert(s[t] == s0[t]);
            }
        }
        assert(index_sorted(s)) by {
            assert forall|a: int, b: int| #![trigger s[a], s[b]] 0 <= a < b < s.len() implies s[a].log_id.index < s[b].log_id.index by {
                assert(s[a] == s0[a]);
                if b < s0.len() {
                    assert(s[b] == s0[b]);
                } else {
                    let j = choose|j: int| 0 <= j < init.len() && s0[a] == init[j];
                    assert(log[j] == init[j]);
                    assert(s[b] == log[log.len() - 1]);
                }
            }
        }
    }
}

/// Joining an ordered run below `e`, `e`, and an ordered run above it keeps
/// the indexes in order.
proof fn lemma_join_sorted(a: Seq<EntryView>, e: EntryView, b: Seq<EntryView>)
    requires
        index_sorted(a),
        index_sorted(b),
        forall|x: int| 0 <= x < a.len() ==> (#[trigger] a[x]).log_id.index < e.log_id.index,
        forall|y: int| 0 <= y < b.len() ==> (#[trigger] b[y]).log_id.index > e.log_id.index,
    ensures
        index_sorted(a + seq![e] + b),
{
    let w = a + seq![e] + b;
    assert forall|x: int, y: int| #![trigger w[x], w[y]] 0 <= x < y < w.len() implies w[x].log_id.index < w[y].log_id.index by {
        if y < a.len() {
            assert(w[x] == a[x] && w[y] == a[y]);
        } else if y == a.len() {
            assert(w[x] == a[x]);
        } else if x < a.len() {
            assert(w[x] == a[x] && w[y] == b[y - a.len() - 1]);
        } else if x == a.len() {
            assert(w[y] == b[y - a.len() - 1]);
        } else {
            assert(w[x] == b[x - a.len() - 1] && w[y] == b[y - a.len() - 1]);
        }
    }
}

/// Storing an entry keeps the indexes in order.
pub proof fn lemma_with_entry(log: Seq<EntryView>, e: EntryView)
    requires
        index_sorted(log),
    ensures
        index_sorted(with_entry(log, e)),
{
    let a = select(log, 0, Some(e.log_id.index as int));
    let b = select(log, e.log_id.index + 1, None);
    lemma_select(log, 0, Some(e.log_id.index as int));
    lemma_select(log, e.log_id.index + 1, None);
    assert forall|x: int| 0 <= x < a.len() implies (#[trigger] a[x]).log_id.index < e.log_id.index by {
        assert(in_range(a[x], 0, Some(e.log_id.index as int)));
    }
    assert forall|y: int| 0 <= y < b.len() implies (#[trigger] b[y]).log_id.index > e.log_id.index by {
        assert(in_range(b[y], e.log_id.index + 1, None));
    }
    lemma_join_sorted(a, e, b);
}

/// The raft log storage.
pub struct LogStore {
    entries: Vec<Entry>,
    last_purged: Option<LogId>,
    vote: Option<Vote>,
}

/// Entries as plain values.
pub open spec fn log_view(es: Seq<Entry>) -> Seq<EntryView> {
    es.map_values(|e: Entry| e@)
}

impl View for LogStore {
    type V = LogStoreView;

    closed spec fn view(&self) -> LogStoreView {
        LogStoreView { log: log_view(self.entries@), last_purged: self.last_purged, vote: self.vote }
    }
}

impl LogStore {
    /// The entries are kept in strictly increasing index order.
    pub closed spec fn wf(&self) -> bool {
        index_sorted(log_view(self.entries@))
    }

    /// An empty log that has purged nothing and holds no vote.
    pub fn new() -> (s: Self)
        ensures
            s.wf(),
            s@ == (LogStoreView { log: Seq::empty(), last_purged: None, vote: None }),
    {
        let s = LogStore { entries: Vec::new(), last_purged: None, vote: None };
        proof {
            assert(log_view(s.entries@) =~= Seq::<EntryView>::empty());
        }
        s
    }

    /// The entries whose index lies in `[lo, hi)`, in index order.
    fn select_entries(&self, lo: u64, hi: Option<u64>) -> (r: Vec<Entry>)
        ensures
            log_view(r@) == select(self@.log, lo as int, match hi {
                Some(h) => Some(h as int),
                None => None,
            }),
    {
        let ghost h: Option<int> = match hi {
            Some(x) => Some(x as int),
            None => None,
        };
        let ghost log = self@.log;
        let mut r: Vec<Entry> = Vec::new();
        let mut i: usize = 0;
        proof {
            assert(log.take(0) =~= Seq::<EntryView>::empty());
            assert(log_view(r@) =~= Seq::<EntryView>::empty());
        }
        while i < self.entries.len()
            invariant
                i <= self.entries.len(),
                log == self@.log,
                log == log_view(self.entries@),
                h == match hi {
                    Some(x) => Some(x as int),
                    None => None,
                },
                log_view(r@) == select(log.take(i as int), lo as int, h),
            decreases self.entries.len() - i,
        {
            let idx = self.entries[i].log_id.index;
            let keep = lo <= idx && match hi {
                Some(x) => idx < x,
                None => true,
            };
            let ghost before = log_view(r@);
            assert(log[i as int] == self.entries@[i as int]@);
            proof {
                assert(log.take(i + 1).drop_last() =~= log.take(i as int));
                assert(log.take(i + 1).last() == log[i as int]);
                assert(keep == in_range(log[i as int], lo as int, h));
            }
            if keep {
                r.push(self.entries[i].copy());
                assert(log_view(r@) =~= before.push(log[i as int]));
            }
            i = i + 1;
        }
        proof {
            assert(log.take(i as int) =~= log);
        }
        r
    }

    /// A well-formed log holds its entries in strictly increasing index
    /// order.
    pub proof fn lemma_index_order(&self)
        requires
            self.wf(),
        ensures
            index_sorted(self@.log),
    {
    }

    /// Where the log stands: the last purged id, and the id of the entry
    /// with the largest index (the last purged id when it holds none).
    pub fn get_log_state(&self) -> (r: LogState)
        requires
            self.wf(),
        ensures
            index_sorted(self@.log),
            r.last_purged_log_id == self@.last_purged,
            r.last_log_id == last_log_id(self@),
            self@.log.len() > 0 ==> r.last_log_id is Some && exists|k: int| 0 <= k < self@.log.len()
                && self@.log[k].log_id == r.last_log_id->0,
            self@.log.len() > 0 ==> forall|i: int| 0 <= i < self@.log.len()
                ==> (#[trigger] self@.log[i]).log_id.index <= r.last_log_id->0.index,
    {
        let n = self.entries.len();
        let last = if n > 0 {
            assert(self@.log.last() == self.entries@[n - 1]@);
            Some(self.entries[n - 1].log_id)
        } else {
            self.last_purged
        };
        LogState { last_purged_log_id: self.last_purged, last_log_id: last }
    }

    /// Records the vote this node cast, replacing the previous one.
    pub fn save_vote(&mut self, vote: Vote)
        ensures
            final(self).wf() == old(self).wf(),
            final(self)@ == (LogStoreView { vote: Some(vote), ..old(self)@ }),
    {
        self.vote = Some(vote);
    }

    /// The last vote recorded.
    pub fn read_vote(&self) -> (r: Option<Vote>)
        ensures
            r == self@.vote,
    {
        self.vote
    }

    /// Stores each entry at its index, in order, replacing any entry that
    /// had the index.
    pub fn append(&mut self, entries: Vec<Entry>)
        requires
            old(self).wf(),
        ensures
            final(self).wf(),
            final(self)@ == (LogStoreView { log: with_entries(old(self)@.log, log_view(entries@)), ..old(self)@ }),
    {
        let ghost es = log_view(entries@);
        let ghost log0 = self@.log;
        let mut i: usize = 0;
        proof {
            assert(es.take(0) =~= Seq::<EntryView>::empty());
        }
        while i < entries.len()
            invariant
                i <= entries.len(),
                es == log_view(entries@),
                self.wf(),
                self@ == (LogStoreView { log: with_entries(log0, es.take(i as int)), ..old(self)@ }),
            decreases entries.len() - i,
        {
            let e = &entries[i];
            let idx = e.log_id.index;
            let below = self.select_entries(0, Some(idx));
            let above = if idx < u64::MAX {
                self.select_entries(idx + 1, None)
            } else {
                Vec::new()
            };
            let ghost log = self@.log;
            proof {
                if idx == u64::MAX {
                    lemma_select_empty_above(log, idx + 1);
                }
            }
            let mut next = below;
            next.push(e.copy());
            let mut above = above;
            next.append(&mut above);
            proof {
                assert(es[i as int] == e@);
                assert(log_view(next@) =~= with_entry(log, e@));
                lemma_with_entry(log, e@);
                assert(es.take(i + 1).drop_last() =~= es.take(i as int));
                assert(es.take(i + 1).last() == es[i as int]);
            }
            self.entries = next;
            i = i + 1;
        }
        proof {
            assert(es.take(i as int) =~= es);
        }
    }

    /// Removes the entry at the index of `log_id` and every entry after it.
    pub fn truncate(&mut self, log_id: LogId)
        requires
            old(self).wf(),
        ensures
            final(self).wf(),
            final(self)@ == (LogStoreView { log: select(old(self)@.log, 0, Some(log_id.index as int)), ..old(self)@ }),
    {
        proof {
            lemma_select(self@.log, 0, Some(log_id.index as int));
        }
        self.entries = self.select_entries(0, Some(log_id.index));
    }

    /// Removes every entry up to and including the index of `log_id`, and
    /// records `log_id` as the last purged entry.
    pub fn purge(&mut self, log_id: LogId)
        requires
            old(self).wf(),
        ensures
            final(self).wf(),
            final(self)@ == (LogStoreView {
                log: select(old(self)@.log, log_id.index + 1, None),
                last_purged: Some(log_id),
                ..old(self)@
            }),
    {
        let ghost log = self@.log;
        proof {
            lemma_select(log, log_id.index + 1, None);
        }
        if log_id.index < u64::MAX {
            self.entries = self.select_entries(log_id.index + 1, None);
        } else {
            proof {
                lemma_select_empty_above(log, log_id.index + 1);
            }
            self.entries = Vec::new();
            proof {
                assert(log_view(self.entries@) =~= select(log, log_id.index + 1, None));
            }
        }
        self.last_purged = Some(log_id);
    }

    /// The entries whose index lies in `[start, end)` (no upper end when
    /// `end` is `None`), in index order; indexes the log no longer holds
    /// are skipped.
    pub fn try_get_log_entries(&self, start: u64, end: Option<u64>) -> (r: Vec<Entry>)
        requires
            self.wf(),
        ensures
            log_view(r@) == select(self@.log, start as int, match end {
                Some(h) => Some(h as int),
                None => None,
            }),
            index_sorted(log_view(r@)),
            forall|t: int| 0 <= t < r@.len() ==> in_range(#[trigger] log_view(r@)[t], start as int, match end {
                Some(h) => Some(h as int),
                None => None,
            }),
            forall|t: int| 0 <= t < r@.len() ==> exists|j: int| 0 <= j < self@.log.len() && #[trigger] log_view(r@)[t] == self@.log[j],
            forall|j: int| 0 <= j < self@.log.len() && in_range(#[trigger] self@.log[j], start as int, match end {
                Some(h) => Some(h as int),
                None => None,
            }) ==> exists|t: int| 0 <= t < r@.len() && log_view(r@)[t] == self@.log[j],
    {
        proof {
            lemma_select(self@.log, start as int, match end {
                Some(h) => Some(h as int),
                None => None,
            });
        }
        self.select_entries(start, end)
    }

    /// The indexes the log holds, in order.
    pub fn stored_indexes(&self) -> (r: Vec<u64>)
        ensures
            r@.len() == self@.log.len(),
            forall|i: int| 0 <= i < r@.len() ==> r@[i] == #[trigger] self@.log[i].log_id.index,
    {
        let mut r: Vec<u64> = Vec::new();
        let mut i: usize = 0;
        while i < self.entries.len()
            invariant
                i <= self.entries.len(),
                r@.len() == i,
                forall|j: int| 0 <= j < i ==> r@[j] == #[trigger] self@.log[j].log_id.index,
            decreases self.entries.len() - i,
        {
            assert(self@.log[i as int] == self.entries@[i as int]@);
            r.push(self.entries[i].log_id.index);
            i = i + 1;
        }
        r
    }
}

/// No index lies at or above `u64::MAX + 1`.
proof fn lemma_select_empty_above(log: Seq<EntryView>, lo: int)
    requires
        lo > u64::MAX,
    ensures
        select(log, lo, None) == Seq::<EntryView>::empty(),
    decreases log.len(),
{
    if log.len() > 0 {
        lemma_select_empty_above(log.drop_last(), lo);
    }
}

} // verus!
