use vstd::prelude::*;
use crate::quota::QuotaInfo;

verus! {

/// The bound on each account's usage history: the oldest snapshot is
/// evicted once a new one would make the ring longer than this.
pub const MAX_HISTORY_SIZE: usize = 100;

/// One stored usage observation. Immutable once created; `timestamp`
/// is seconds since the Unix epoch, cost is in millionths of the
/// provider's billing unit.
#[derive(Debug, Clone, Copy)]
pub struct QuotaSnapshot {
    pub timestamp: i64,
    pub tokens_used: Option<u64>,
    pub requests_made: Option<u64>,
    pub cost_micros: Option<u64>,
}

/// The snapshot that persisting the usage part of `q` yields.
pub open spec fn snapshot_of(q: QuotaInfo) -> QuotaSnapshot {
    QuotaSnapshot {
        timestamp: q.last_updated,
        tokens_used: q.usage.tokens_used,
        requests_made: q.usage.requests_made,
        cost_micros: q.usage.cost_micros,
    }
}

impl QuotaSnapshot {
    /// The usage part of a live fetch, as it is persisted.
    pub fn from_quota_info(quota: &QuotaInfo) -> (s: Self)
        ensures
            s == snapshot_of(*quota),
    {
        QuotaSnapshot {
            timestamp: quota.last_updated,
            tokens_used: quota.usage.tokens_used,
            requests_made: quota.usage.requests_made,
            cost_micros: quota.usage.cost_micros,
        }
    }

    /// Two snapshots count as the same observation when tokens,
    /// requests and cost all agree; the timestamp does not matter.
    pub open spec fn same_usage(self, other: Self) -> bool {
        self.tokens_used == other.tokens_used && self.requests_made == other.requests_made
            && self.cost_micros == other.cost_micros
    }

    pub fn has_changed_from(&self, other: &Self) -> (r: bool)
        ensures
            r == !self.same_usage(*other),
    {
        !(self.tokens_used == other.tokens_used) || !(self.requests_made == other.requests_made)
            || !(self.cost_micros == other.cost_micros)
    }
}

/// The bounded usage ring of one account, oldest snapshot first.
#[derive(Debug)]
pub struct QuotaHistory {
    pub account_name: String,
    pub snapshots: Vec<QuotaSnapshot>,
}

/// `s` with `snap` appended and the oldest entry evicted if the cap
/// would be exceeded.
pub open spec fn capped_push(s: Seq<QuotaSnapshot>, snap: QuotaSnapshot) -> Seq<QuotaSnapshot> {
    let t = s.push(snap);
    if t.len() > MAX_HISTORY_SIZE {
        t.subrange(1, t.len() as int)
    } else {
        t
    }
}

/// Whether appending `snap` to a ring whose contents are `s` changes
/// it: it does unless `s` ends in a snapshot with the same usage.
pub open spec fn append_changes(s: Seq<QuotaSnapshot>, snap: QuotaSnapshot) -> bool {
    s.len() == 0 || !snap.same_usage(s.last())
}

impl QuotaHistory {
    pub open spec fn wf(&self) -> bool {
        self.snapshots@.len() <= MAX_HISTORY_SIZE
    }

    /// Append `snap` unless it repeats the last stored usage; evict
    /// the oldest entry beyond the cap. Returns whether the ring
    /// changed.
    pub fn append_if_changed(&mut self, snap: QuotaSnapshot) -> (changed: bool)
        requires
            old(self).wf(),
        ensures
            final(self).wf(),
            final(self).account_name == old(self).account_name,
            changed == append_changes(old(self).snapshots@, snap),
            changed ==> final(self).snapshots@ == capped_push(old(self).snapshots@, snap),
            !changed ==> final(self).snapshots@ == old(self).snapshots@,
    {
        let n = self.snapshots.len();
        let changed = if n == 0 {
            true
        } else {
            snap.has_changed_from(&self.snapshots[n - 1])
        };
        if changed {
            self.snapshots.push(snap);
            if self.snapshots.len() > MAX_HISTORY_SIZE {
                self.snapshots.remove(0);
                assert(self.snapshots@ =~= capped_push(old(self).snapshots@, snap));
            } else {
                assert(self.snapshots@ =~= capped_push(old(self).snapshots@, snap));
            }
        }
        changed
    }
}

/// The ring contents after appending each snapshot of `snaps` in
/// order — the state reached by that many `append_if_changed` calls,
/// with the dedup and cap policy applied at each step.
pub open spec fn apply_appends(s: Seq<QuotaSnapshot>, snaps: Seq<QuotaSnapshot>) -> Seq<
    QuotaSnapshot,
>
    decreases snaps.len(),
{
    if snaps.len() == 0 {
        s
    } else {
        let next = if append_changes(s, snaps[0]) {
            capped_push(s, snaps[0])
        } else {
            s
        };
        apply_appends(next, snaps.drop_first())
    }
}

/// A run of appends whose snapshots each differ from their
/// predecessor keeps a sliding window: the last `MAX_HISTORY_SIZE`
/// of everything seen, oldest first.
proof fn lemma_apply_appends_window(s: Seq<QuotaSnapshot>, snaps: Seq<QuotaSnapshot>)
    requires
        s.len() <= MAX_HISTORY_SIZE,
        forall|i: int| 0 < i < snaps.len() ==> !(#[trigger] snaps[i]).same_usage(snaps[i - 1]),
        snaps.len() > 0 && s.len() > 0 ==> !snaps[0].same_usage(s.last()),
    ensures
        apply_appends(s, snaps) == (s + snaps).subrange(
            if s.len() + snaps.len() <= MAX_HISTORY_SIZE {
                0int
            } else {
                s.len() + snaps.len() - MAX_HISTORY_SIZE
            },
            (s.len() + snaps.len()) as int,
        ),
    decreases snaps.len(),
{
    let all = s + snaps;
    let lo: int = if s.len() + snaps.len() <= MAX_HISTORY_SIZE {
        0int
    } else {
        s.len() + snaps.len() - MAX_HISTORY_SIZE
    };
    if snaps.len() == 0 {
        assert(all =~= s);
        assert(all.subrange(lo, all.len() as int) =~= s);
    } else {
        let first = snaps[0];
        assert(append_changes(s, first));
        let next = capped_push(s, first);
        let rest = snaps.drop_first();
        assert(next.last() == first);
        assert(next.len() <= MAX_HISTORY_SIZE);
        assert forall|i: int| 0 < i < rest.len() implies !(#[trigger] rest[i]).same_usage(
            rest[i - 1],
        ) by {
            assert(rest[i] == snaps[i + 1]);
            assert(rest[i - 1] == snaps[i]);
        }
        if rest.len() > 0 {
            assert(rest[0] == snaps[1]);
            assert(!rest[0].same_usage(next.last()));
        }
        lemma_apply_appends_window(next, rest);
        let lo2: int = if next.len() + rest.len() <= MAX_HISTORY_SIZE {
            0int
        } else {
            next.len() + rest.len() - MAX_HISTORY_SIZE
        };
        if s.len() < MAX_HISTORY_SIZE {
            assert(next =~= s.push(first));
            assert(next + rest =~= all);
            assert(apply_appends(s, snaps) == (next + rest).subrange(
                lo2,
                (next.len() + rest.len()) as int,
            ));
            assert(lo2 == lo);
            assert((next + rest).subrange(lo2, (next.len() + rest.len()) as int) =~= all.subrange(
                lo,
                all.len() as int,
            ));
        } else {
            // The ring was full: the head of `s` fell out.
            assert(s.len() == MAX_HISTORY_SIZE);
            assert(next =~= s.push(first).subrange(1, s.len() as int + 1));
            assert(next + rest =~= all.subrange(1, all.len() as int));
            assert(apply_appends(s, snaps) == (next + rest).subrange(
                lo2,
                (next.len() + rest.len()) as int,
            ));
            assert((next + rest).subrange(lo2, (next.len() + rest.len()) as int) =~= all.subrange(
                lo2 + 1,
                all.len() as int,
            ));
            assert(lo2 + 1 == lo);
        }
    }
}

/// The history cap: appending one more snapshot than the cap allows,
/// each differing in usage from its predecessor, onto an empty ring
/// keeps exactly the cap's worth — the oldest snapshot is evicted and
/// the newest is present at the end.
pub proof fn lemma_history_cap(snaps: Seq<QuotaSnapshot>)
    requires
        snaps.len() == MAX_HISTORY_SIZE + 1,
        forall|i: int| 0 < i < snaps.len() ==> !(#[trigger] snaps[i]).same_usage(snaps[i - 1]),
    ensures
        apply_appends(Seq::empty(), snaps) == snaps.subrange(1, snaps.len() as int),
        apply_appends(Seq::empty(), snaps).len() == MAX_HISTORY_SIZE,
        apply_appends(Seq::empty(), snaps).last() == snaps.last(),
        apply_appends(Seq::empty(), snaps)[0] == snaps[1],
{
    let empty = Seq::<QuotaSnapshot>::empty();
    lemma_apply_appends_window(empty, snaps);
    assert(empty + snaps =~= snaps);
    assert(apply_appends(empty, snaps) == snaps.subrange(1, snaps.len() as int));
}

/// The dedup policy: right after a snapshot was appended, appending
/// one with the same usage again is a no-op.
pub proof fn lemma_append_dedup(s: Seq<QuotaSnapshot>, snap: QuotaSnapshot, again: QuotaSnapshot)
    requires
        append_changes(s, snap),
        again.same_usage(snap),
    ensures
        !append_changes(capped_push(s, snap), again),
{
    assert(capped_push(s, snap).last() == snap);
}

} // verus!
