//! The ordered, key-unique log of recorded operations.
use vstd::prelude::*;
use crate::types::{StoredTransactions, SweepStatus, Timestamp, same_entries};

verus! {

/// Keys strictly ascend along the sequence.
pub open spec fn sorted_by_key(s: Seq<StoredTransactions>) -> bool {
    forall|i: int, j: int| 0 <= i < j < s.len() ==> #[trigger] s[i].index < #[trigger] s[j].index
}

/// Some entry has key `k`.
pub open spec fn has_key(s: Seq<StoredTransactions>, k: u64) -> bool {
    exists|i: int| 0 <= i < s.len() && #[trigger] s[i].index == k
}

/// Where key `k` goes in a sorted sequence: after every smaller key.
pub open spec fn insert_position(s: Seq<StoredTransactions>, k: u64) -> int
    decreases s.len(),
{
    if s.len() == 0 {
        0
    } else if s.last().index < k {
        s.len() as int
    } else {
        insert_position(s.drop_last(), k)
    }
}

/// The log after inserting `tx` under its key unless that key is present.
pub open spec fn insert_if_absent_spec(
    s: Seq<StoredTransactions>,
    tx: StoredTransactions,
) -> Seq<StoredTransactions> {
    if has_key(s, tx.index) {
        s
    } else {
        s.insert(insert_position(s, tx.index), tx)
    }
}

/// How many entries `list` hands out for `limit`: the most recent ones.
pub open spec fn list_skip(len: nat, limit: u64) -> int {
    if len <= limit {
        0
    } else {
        len - limit
    }
}

/// Whether a purge with these thresholds removes `e`: its key is at most a
/// nonzero index threshold, or its time at most a nonzero time threshold.
pub open spec fn purged(e: StoredTransactions, up_to_index: u64, up_to_nanos: u64) -> bool {
    (up_to_index != 0 && e.index <= up_to_index) || (up_to_nanos != 0
        && e.created_at_time.timestamp_nanos <= up_to_nanos)
}

/// The entries that a purge keeps, in order.
pub open spec fn kept(s: Seq<StoredTransactions>, up_to_index: u64, up_to_nanos: u64) -> Seq<
    StoredTransactions,
>
    decreases s.len(),
{
    if s.len() == 0 {
        s
    } else if purged(s.last(), up_to_index, up_to_nanos) {
        kept(s.drop_last(), up_to_index, up_to_nanos)
    } else {
        kept(s.drop_last(), up_to_index, up_to_nanos).push(s.last())
    }
}

/// The log: entries in ascending key order.
pub struct TransactionLog {
    entries: Vec<StoredTransactions>,
}

proof fn lemma_insert_position(s: Seq<StoredTransactions>, k: u64, i: int)
    requires
        sorted_by_key(s),
        0 <= i <= s.len(),
        forall|j: int| 0 <= j < i ==> #[trigger] s[j].index < k,
        i < s.len() ==> s[i].index >= k,
    ensures
        insert_position(s, k) == i,
    decreases s.len(),
{
    if s.len() > 0 && i < s.len() {
        assert(s.last().index >= k) by {
            if i < s.len() - 1 {
                assert(s[i].index < s[s.len() - 1].index);
            }
        }
        let t = s.drop_last();
        assert forall|j: int| 0 <= j < i implies #[trigger] t[j].index < k by {
            assert(t[j] == s[j]);
        }
        if i < t.len() {
            assert(t[i] == s[i]);
        }
        lemma_insert_position(t, k, i);
    }
}

proof fn lemma_kept_facts(s: Seq<StoredTransactions>, a: u64, b: u64)
    ensures
        kept(s, a, b).len() <= s.len(),
        forall|j: int|
            0 <= j < kept(s, a, b).len() ==> exists|m: int|
                0 <= m < s.len() && s[m] == #[trigger] kept(s, a, b)[j],
    decreases s.len(),
{
    if s.len() > 0 {
        let t = s.drop_last();
        lemma_kept_facts(t, a, b);
        let k = kept(s, a, b);
        assert forall|j: int| 0 <= j < k.len() implies exists|m: int|
            0 <= m < s.len() && s[m] == #[trigger] k[j] by {
            if j < kept(t, a, b).len() {
                let m = choose|m: int| 0 <= m < t.len() && t[m] == kept(t, a, b)[j];
                assert(s[m] == k[j]);
            } else {
                assert(s[s.len() - 1] == k[j]);
            }
        }
    }
}

impl TransactionLog {
    /// The entries, in ascending key order.
    pub closed spec fn view(&self) -> Seq<StoredTransactions> {
        self.entries@
    }

    pub open spec fn wf(&self) -> bool {
        sorted_by_key(self.view())
    }

    pub fn new() -> (r: TransactionLog)
        ensures
            r.wf(),
            r.view() == Seq::<StoredTransactions>::empty(),
    {
        TransactionLog { entries: Vec::new() }
    }

    /// The number of entries.
    pub fn len(&self) -> (r: usize)
        ensures
            r == self.view().len(),
    {
        self.entries.len()
    }

    /// The smallest key present, if any.
    pub fn oldest_key(&self) -> (r: Option<u64>)
        requires
            self.wf(),
        ensures
            self.view().len() == 0 ==> r is None,
            self.view().len() > 0 ==> r == Some(self.view()[0].index),
            r matches Some(k) ==> forall|i: int|
                0 <= i < self.view().len() ==> k <= #[trigger] self.view()[i].index,
    {
        if self.entries.len() == 0 {
            None
        } else {
            proof {
                assert forall|i: int| 0 <= i < self.view().len() implies self.view()[0].index
                    <= #[trigger] self.view()[i].index by {
                    if i > 0 {
                        assert(self.view()[0].index < self.view()[i].index);
                    }
                }
            }
            Some(self.entries[0].index)
        }
    }

    /// The entry at position `i`.
    pub fn at(&self, i: usize) -> (r: &StoredTransactions)
        requires
            i < self.view().len(),
        ensures
            *r == self.view()[i as int],
    {
        &self.entries[i]
    }

    /// The position of key `k`, if present.
    pub fn find(&self, k: u64) -> (r: Option<usize>)
        requires
            self.wf(),
        ensures
            r matches Some(i) ==> i < self.view().len() && self.view()[i as int].index == k,
            r is None ==> !has_key(self.view(), k),
    {
        let mut i: usize = 0;
        while i < self.entries.len()
            invariant
                i <= self.view().len(),
                forall|j: int| 0 <= j < i ==> #[trigger] self.view()[j].index != k,
            decreases self.view().len() - i,
        {
            if self.entries[i].index == k {
                return Some(i);
            }
            i = i + 1;
        }
        None
    }

    /// The entry under key `k`, if present.
    pub fn get(&self, k: u64) -> (r: Option<&StoredTransactions>)
        requires
            self.wf(),
        ensures
            r matches Some(e) ==> e.index == k && exists|i: int|
                0 <= i < self.view().len() && self.view()[i] == *e,
            r is None ==> !has_key(self.view(), k),
    {
        match self.find(k) {
            Some(i) => Some(&self.entries[i]),
            None => None,
        }
    }

    /// Inserts `tx` under its key unless an entry already has that key.
    pub fn insert_if_absent(&mut self, tx: StoredTransactions)
        requires
            old(self).wf(),
        ensures
            final(self).wf(),
            final(self).view() == insert_if_absent_spec(old(self).view(), tx),
    {
        let k = tx.index;
        let mut i: usize = 0;
        while i < self.entries.len() && self.entries[i].index < k
            invariant
                self.wf(),
                i <= self.view().len(),
                forall|j: int| 0 <= j < i ==> #[trigger] self.view()[j].index < k,
            decreases self.view().len() - i,
        {
            i = i + 1;
        }
        if i < self.entries.len() && self.entries[i].index == k {
            assert(has_key(self.view(), k));
            return;
        }
        let ghost s = self.view();
        proof {
            lemma_insert_position(s, k, i as int);
            assert(!has_key(s, k)) by {
                assert forall|j: int| 0 <= j < s.len() implies #[trigger] s[j].index != k by {
                    if j >= i {
                        if j > i {
                            assert(s[i as int].index < s[j].index);
                        }
                    }
                }
            }
        }
        self.entries.insert(i, tx);
        proof {
            let t = self.view();
            assert(t =~= s.insert(i as int, tx));
            assert forall|a: int, b: int| 0 <= a < b < t.len() implies #[trigger] t[a].index
                < #[trigger] t[b].index by {
                if b < i {
                    assert(t[a] == s[a] && t[b] == s[b]);
                } else if b == i {
                    assert(t[a] == s[a]);
                } else if a < i {
                    assert(t[a] == s[a] && t[b] == s[b - 1]);
                    assert(s[b - 1].index >= k) by {
                        if b - 1 > i {
                            assert(s[i as int].index < s[b - 1].index);
                        }
                    }
                } else if a == i {
                    assert(t[b] == s[b - 1]);
                    assert(s[b - 1].index >= k) by {
                        if b - 1 > i {
                            assert(s[i as int].index < s[b - 1].index);
                        }
                    }
                } else {
                    assert(t[a] == s[a - 1] && t[b] == s[b - 1]);
                }
            }
        }
    }

    /// Sets the settlement status of the entry at position `i`, leaving its
    /// place and every other field as they were.
    pub fn set_status_at(&mut self, i: usize, status: SweepStatus)
        requires
            old(self).wf(),
            i < old(self).view().len(),
        ensures
            final(self).wf(),
            final(self).view() == old(self).view().update(
                i as int,
                StoredTransactions { sweep_status: status, ..old(self).view()[i as int] },
            ),
    {
        let mut e = self.entries.remove(i);
        e.sweep_status = status;
        self.entries.insert(i, e);
        proof {
            let t = self.view();
            let s = old(self).view();
            assert(t =~= s.update(i as int, StoredTransactions { sweep_status: status, ..s[i as int] }));
            assert forall|a: int, b: int| 0 <= a < b < t.len() implies #[trigger] t[a].index
                < #[trigger] t[b].index by {
                assert(t[a].index == s[a].index && t[b].index == s[b].index);
            }
        }
    }

    /// The most recent `limit` entries, or all when there are no more, in
    /// ascending key order.
    pub fn list(&self, limit: u64) -> (r: Vec<StoredTransactions>)
        requires
            self.wf(),
        ensures
            same_entries(
                r@,
                self.view().subrange(list_skip(self.view().len(), limit), self.view().len() as int),
            ),
    {
        let n = self.entries.len();
        let skip: usize = if (n as u64) <= limit {
            0
        } else {
            n - limit as usize
        };
        let mut r: Vec<StoredTransactions> = Vec::new();
        let mut i: usize = skip;
        while i < n
            invariant
                n == self.view().len(),
                skip == list_skip(n as nat, limit),
                skip <= i <= n,
                r@.len() == i - skip,
                forall|j: int| 0 <= j < r@.len() ==> #[trigger] r@[j].same_as(&self.view()[skip + j]),
            decreases n - i,
        {
            r.push(self.entries[i].duplicate());
            i = i + 1;
        }
        proof {
            let sub = self.view().subrange(skip as int, n as int);
            assert forall|j: int| 0 <= j < r@.len() implies #[trigger] r@[j].same_as(&sub[j]) by {
                assert(sub[j] == self.view()[skip + j]);
            }
        }
        r
    }

    /// A copy of every entry, in order.
    pub fn entries(&self) -> (r: Vec<StoredTransactions>)
        ensures
            same_entries(r@, self.view()),
    {
        let mut r: Vec<StoredTransactions> = Vec::new();
        let mut i: usize = 0;
        while i < self.entries.len()
            invariant
                i <= self.view().len(),
                r@.len() == i,
                forall|j: int| 0 <= j < r@.len() ==> #[trigger] r@[j].same_as(&self.view()[j]),
            decreases self.view().len() - i,
        {
            r.push(self.entries[i].duplicate());
            i = i + 1;
        }
        r
    }

    /// Removes each entry whose key is at most a given nonzero index, or
    /// whose time is at most a given nonzero timestamp; returns what remains.
    pub fn purge(&mut self, up_to_index: Option<u64>, up_to_timestamp: Option<Timestamp>) -> (r:
        Vec<StoredTransactions>)
        requires
            old(self).wf(),
        ensures
            final(self).wf(),
            final(self).view() == kept(
                old(self).view(),
                match up_to_index {
                    Some(i) => i,
                    None => 0,
                },
                match up_to_timestamp {
                    Some(t) => t.timestamp_nanos,
                    None => 0,
                },
            ),
            same_entries(r@, final(self).view()),
    {
        let idx: u64 = match up_to_index {
            Some(i) => i,
            None => 0,
        };
        let nanos: u64 = match up_to_timestamp {
            Some(t) => t.timestamp_nanos,
            None => 0,
        };
        let ghost s = self.view();
        let mut old_entries: Vec<StoredTransactions> = Vec::new();
        std::mem::swap(&mut old_entries, &mut self.entries);
        let mut rest: Vec<StoredTransactions> = Vec::new();
        let mut i: usize = 0;
        let n = old_entries.len();
        while i < n
            invariant
                n == s.len(),
                old_entries@ == s.subrange(i as int, n as int),
                sorted_by_key(s),
                i <= n,
                rest@ == kept(s.subrange(0, i as int), idx, nanos),
                sorted_by_key(rest@),
                forall|a: int, b: int|
                    0 <= a < rest@.len() && i <= b < n ==> #[trigger] rest@[a].index
                        < #[trigger] s[b].index,
            decreases n - i,
        {
            let e = old_entries.remove(0);
            proof {
                assert(e == s[i as int]);
                assert(s.subrange(0, i + 1).drop_last() =~= s.subrange(0, i as int));
                assert(s.subrange(0, i + 1).last() == s[i as int]);
                assert(old_entries@ =~= s.subrange(i + 1, n as int));
            }
            let remove = (idx != 0 && e.index <= idx) || (nanos != 0
                && e.created_at_time.timestamp_nanos <= nanos);
            if !remove {
                let ghost before = rest@;
                rest.push(e);
                proof {
                    assert forall|a: int, b: int| 0 <= a < b < rest@.len() implies #[trigger] rest@[a].index
                        < #[trigger] rest@[b].index by {
                        if b == rest@.len() - 1 {
                            assert(before[a].index < s[i as int].index);
                        } else {
                            assert(rest@[a] == before[a] && rest@[b] == before[b]);
                        }
                    }
                    assert forall|a: int, b: int| 0 <= a < rest@.len() && i + 1 <= b < n implies #[trigger] rest@[a].index
                        < #[trigger] s[b].index by {
                        if a == rest@.len() - 1 {
                            assert(s[i as int].index < s[b].index);
                        } else {
                            assert(rest@[a] == before[a]);
                        }
                    }
                }
            } else {
                proof {
                    assert forall|a: int, b: int| 0 <= a < rest@.len() && i + 1 <= b < n implies #[trigger] rest@[a].index
                        < #[trigger] s[b].index by {
                        assert(rest@[a].index < s[i as int].index);
                        assert(s[i as int].index < s[b].index);
                    }
                }
            }
            i = i + 1;
        }
        assert(s.subrange(0, n as int) =~= s);
        self.entries = rest;
        self.entries()
    }
}

/// Inserting the same entry a second time changes nothing.
pub proof fn law_insert_idempotent(s: Seq<StoredTransactions>, tx: StoredTransactions)
    requires
        sorted_by_key(s),
    ensures
        insert_if_absent_spec(insert_if_absent_spec(s, tx), tx) == insert_if_absent_spec(s, tx),
{
    let t = insert_if_absent_spec(s, tx);
    if !has_key(s, tx.index) {
        lemma_position_bounds(s, tx.index);
        let p = insert_position(s, tx.index);
        assert(t[p] == tx);
        assert(has_key(t, tx.index));
    }
}

proof fn lemma_position_bounds(s: Seq<StoredTransactions>, k: u64)
    ensures
        0 <= insert_position(s, k) <= s.len(),
    decreases s.len(),
{
    if s.len() > 0 {
        lemma_position_bounds(s.drop_last(), k);
    }
}

/// A listing is in ascending key order and holds `min(limit, len)` entries.
pub proof fn law_list_bounds(s: Seq<StoredTransactions>, limit: u64)
    requires
        sorted_by_key(s),
    ensures
        sorted_by_key(s.subrange(list_skip(s.len(), limit), s.len() as int)),
        s.subrange(list_skip(s.len(), limit), s.len() as int).len() == if s.len() <= limit {
            s.len() as int
        } else {
            limit as int
        },
{
    let k = list_skip(s.len(), limit);
    let t = s.subrange(k, s.len() as int);
    assert forall|a: int, b: int| 0 <= a < b < t.len() implies #[trigger] t[a].index
        < #[trigger] t[b].index by {
        assert(t[a] == s[k + a] && t[b] == s[k + b]);
    }
}

/// A purge with neither threshold set removes nothing.
pub proof fn law_purge_without_thresholds_keeps_all(s: Seq<StoredTransactions>)
    ensures
        kept(s, 0, 0) == s,
    decreases s.len(),
{
    if s.len() > 0 {
        law_purge_without_thresholds_keeps_all(s.drop_last());
        assert(s.drop_last().push(s.last()) =~= s);
    }
}

/// Every entry left by a purge is one that its thresholds spare, and
/// every entry spared is left.
pub proof fn law_purge_keeps_exactly_the_spared(
    s: Seq<StoredTransactions>,
    up_to_index: u64,
    up_to_nanos: u64,
    e: StoredTransactions,
)
    ensures
        kept(s, up_to_index, up_to_nanos).contains(e) <==> (s.contains(e) && !purged(
            e,
            up_to_index,
            up_to_nanos,
        )),
    decreases s.len(),
{
    if s.len() > 0 {
        let t = s.drop_last();
        law_purge_keeps_exactly_the_spared(t, up_to_index, up_to_nanos, e);
        assert(s =~= t.push(s.last()));
        if s.contains(e) && !t.contains(e) {
            assert(e == s.last());
        }
        if t.contains(e) {
            let m = choose|m: int| 0 <= m < t.len() && t[m] == e;
            assert(s[m] == e);
        }
        let k = kept(s, up_to_index, up_to_nanos);
        let kt = kept(t, up_to_index, up_to_nanos);
        if !purged(s.last(), up_to_index, up_to_nanos) {
            assert(k == kt.push(s.last()));
            if kt.contains(e) {
                let m = choose|m: int| 0 <= m < kt.len() && kt[m] == e;
                assert(k[m] == e);
            }
            if k.contains(e) && e != s.last() {
                let m = choose|m: int| 0 <= m < k.len() && k[m] == e;
                assert(m < kt.len());
                assert(kt[m] == e);
            }
            assert(k[k.len() - 1] == s.last());
        }
    }
}

} // verus!
