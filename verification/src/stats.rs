//! Run statistics: streaming aggregates plus a log-spaced histogram for
//! percentiles, so memory stays flat (~160 KB) no matter how many
//! billions of probes a run sends. Min/avg/max are exact; percentiles
//! are accurate to one histogram bucket (0.1%).

use crate::tune::clamped;
use std::collections::VecDeque;
use vstd::arithmetic::power::{lemma_pow_adds, lemma_pow_positive, pow};
use vstd::prelude::*;

verus! {

/// How many replies the recent window holds.
pub const RECENT_WINDOW: usize = 64;

/// The histogram starts at 100 ns.
pub const HIST_MIN: u64 = 100;

/// Log-spaced buckets from 100 ns to ~60 s, 0.1% per bucket:
/// `ln(60 s / 100 ns) / ln(1.001)`, rounded up.
pub const HIST_BUCKETS: usize = 20_300;

/// One reply: its RTT in nanoseconds and the histogram bucket it fell into.
pub struct Sample {
    pub rtt: u64,
    pub bucket: usize,
}

/// The bucket of an RTT that lies `steps` whole factors of 1.001 above the
/// histogram's start: everything at or below the start is in the first
/// bucket, everything beyond the end in the last.
pub open spec fn bucket_of(rtt: u64, steps: usize) -> usize {
    if rtt <= HIST_MIN {
        0
    } else if steps < HIST_BUCKETS {
        steps
    } else {
        (HIST_BUCKETS - 1) as usize
    }
}

/// The bucket of an RTT, which lies `steps` whole factors of 1.001 above the
/// histogram's start.
pub fn bucket(rtt: u64, steps: usize) -> (r: usize)
    ensures
        r == bucket_of(rtt, steps),
        r < HIST_BUCKETS,
{
    if rtt <= HIST_MIN {
        0
    } else if steps < HIST_BUCKETS {
        steps
    } else {
        HIST_BUCKETS - 1
    }
}

/// The sum of all RTTs.
pub open spec fn total(log: Seq<Sample>) -> nat
    decreases log.len(),
{
    if log.len() == 0 {
        0
    } else {
        total(log.drop_last()) + log.last().rtt as nat
    }
}

/// How many samples fell into bucket `b`.
pub open spec fn count_in(log: Seq<Sample>, b: int) -> nat
    decreases log.len(),
{
    if log.len() == 0 {
        0
    } else {
        count_in(log.drop_last(), b) + (if log.last().bucket == b {
            1nat
        } else {
            0
        })
    }
}

/// How many samples fell into a bucket below `b`.
pub open spec fn count_below(log: Seq<Sample>, b: int) -> nat
    decreases log.len(),
{
    if log.len() == 0 {
        0
    } else {
        count_below(log.drop_last(), b) + (if log.last().bucket < b {
            1nat
        } else {
            0
        })
    }
}

/// `v` is the least RTT.
pub open spec fn is_min(log: Seq<Sample>, v: u64) -> bool {
    &&& forall|i: int| 0 <= i < log.len() ==> v <= #[trigger] log[i].rtt
    &&& exists|i: int| 0 <= i < log.len() && v == #[trigger] log[i].rtt
}

/// `v` is the greatest RTT.
pub open spec fn is_max(log: Seq<Sample>, v: u64) -> bool {
    &&& forall|i: int| 0 <= i < log.len() ==> #[trigger] log[i].rtt <= v
    &&& exists|i: int| 0 <= i < log.len() && v == #[trigger] log[i].rtt
}

/// The RTTs of the last replies, at most a window of them, oldest first.
pub open spec fn window(log: Seq<Sample>) -> Seq<u64> {
    let n = if log.len() < RECENT_WINDOW {
        log.len()
    } else {
        RECENT_WINDOW as nat
    };
    Seq::new(n, |i: int| log[log.len() - n + i].rtt)
}

/// The rank of the 95th percentile among `n`: 0.95 of them, rounded up.
pub open spec fn p95_rank(n: nat) -> nat {
    (19 * n + 19) / 20
}

/// How many elements are at most `v`.
pub open spec fn count_le(s: Seq<u64>, v: u64) -> nat
    decreases s.len(),
{
    if s.len() == 0 {
        0
    } else {
        count_le(s.drop_last(), v) + (if s.last() <= v {
            1nat
        } else {
            0
        })
    }
}

/// How many elements are less than `v`.
pub open spec fn count_lt(s: Seq<u64>, v: u64) -> nat
    decreases s.len(),
{
    if s.len() == 0 {
        0
    } else {
        count_lt(s.drop_last(), v) + (if s.last() < v {
            1nat
        } else {
            0
        })
    }
}

/// `v` stands at place `rank` (from 1) when `s` is put in order.
pub open spec fn is_ranked(s: Seq<u64>, rank: nat, v: u64) -> bool {
    count_lt(s, v) < rank <= count_le(s, v)
}

/// The p95 of the recent window.
pub open spec fn recent_p95_of(log: Seq<Sample>) -> u64 {
    choose|v: u64| is_ranked(window(log), p95_rank(window(log).len()), v)
}

/// Only one value stands at a place.
pub proof fn law_rank_is_unique(s: Seq<u64>, rank: nat, v: u64, w: u64)
    requires
        is_ranked(s, rank, v),
        is_ranked(s, rank, w),
    ensures
        v == w,
{
    if v < w {
        lemma_le_lt(s, v, w);
    }
    if w < v {
        lemma_le_lt(s, w, v);
    }
}

proof fn lemma_le_lt(s: Seq<u64>, v: u64, w: u64)
    requires
        v < w,
    ensures
        count_le(s, v) <= count_lt(s, w),
    decreases s.len(),
{
    if s.len() > 0 {
        lemma_le_lt(s.drop_last(), v, w);
    }
}

proof fn lemma_count_insert(s: Seq<u64>, j: int, x: u64, v: u64)
    requires
        0 <= j <= s.len(),
    ensures
        count_le(s.insert(j, x), v) == count_le(s, v) + (if x <= v {
            1nat
        } else {
            0
        }),
        count_lt(s.insert(j, x), v) == count_lt(s, v) + (if x < v {
            1nat
        } else {
            0
        }),
    decreases s.len(),
{
    let t = s.insert(j, x);
    if j == s.len() {
        assert(t.drop_last() =~= s);
    } else {
        lemma_count_insert(s.drop_last(), j, x, v);
        assert(t.drop_last() =~= s.drop_last().insert(j, x));
        assert(t.last() == s.last());
    }
}

/// The first `m` elements are at most `v`, the others at least `v`.
proof fn lemma_count_split(s: Seq<u64>, m: int, v: u64)
    requires
        0 <= m <= s.len(),
    ensures
        (forall|i: int| 0 <= i < m ==> s[i] <= v) ==> count_le(s, v) >= m,
        (forall|i: int| m <= i < s.len() ==> s[i] >= v) ==> count_lt(s, v) <= m,
    decreases s.len(),
{
    if s.len() > 0 {
        let t = s.drop_last();
        if m == s.len() {
            lemma_count_split(t, m - 1, v);
            if forall|i: int| 0 <= i < m ==> s[i] <= v {
                assert(forall|i: int| 0 <= i < m - 1 ==> t[i] == s[i]);
            }
        } else {
            lemma_count_split(t, m, v);
            if forall|i: int| 0 <= i < m ==> s[i] <= v {
                assert(forall|i: int| 0 <= i < m ==> t[i] == s[i]);
            }
            if forall|i: int| m <= i < s.len() ==> s[i] >= v {
                assert(forall|i: int| m <= i < t.len() ==> t[i] == s[i]);
            }
        }
    }
}

proof fn lemma_count_below_step(log: Seq<Sample>, b: int)
    ensures
        count_below(log, b + 1) == count_below(log, b) + count_in(log, b),
    decreases log.len(),
{
    if log.len() > 0 {
        lemma_count_below_step(log.drop_last(), b);
    }
}

proof fn lemma_count_below_ends(log: Seq<Sample>, b: int)
    ensures
        count_below(log, 0) == 0,
        count_below(log, b) <= log.len(),
        (forall|i: int| 0 <= i < log.len() ==> #[trigger] log[i].bucket < b) ==> count_below(log, b)
            == log.len(),
    decreases log.len(),
{
    if log.len() > 0 {
        let l = log.drop_last();
        lemma_count_below_ends(l, b);
        if forall|i: int| 0 <= i < log.len() ==> #[trigger] log[i].bucket < b {
            assert forall|i: int| 0 <= i < l.len() implies #[trigger] l[i].bucket < b by {
                assert(l[i] == log[i]);
            }
            assert(log[log.len() - 1].bucket < b);
        }
    }
}

proof fn lemma_count_in_bound(log: Seq<Sample>, b: int)
    ensures
        count_in(log, b) <= log.len(),
    decreases log.len(),
{
    if log.len() > 0 {
        lemma_count_in_bound(log.drop_last(), b);
    }
}

proof fn lemma_total_bound(log: Seq<Sample>)
    ensures
        total(log) <= log.len() * 0xffff_ffff_ffff_ffff,
    decreases log.len(),
{
    if log.len() > 0 {
        lemma_total_bound(log.drop_last());
    }
}

/// Everything heard: aggregates over the RTTs of all replies.
pub struct Replies {
    count: u64,
    sum: u128,
    min: u64,
    max: u64,
    hist: Vec<u64>,
    recent: VecDeque<u64>,
    log: Ghost<Seq<Sample>>,
}

/// The tallies of a run.
pub struct Stats {
    pub heard: Replies,
    pub sent: u64,
    pub late: u64,
    pub lost: u64,
    /// Discarded: scheduler stalls or local send failures.
    pub voided: u64,
}

/// What a summary says of all replies. The average is `sum / count`; the
/// 95th percentile lies in bucket `p95_bucket`.
#[derive(Clone, Copy, Debug, PartialEq, Eq)]
pub struct Summary {
    pub min: u64,
    pub max: u64,
    pub sum: u128,
    pub count: u64,
    pub p95_bucket: usize,
}

/// `s` says what the samples come to: min, max, sum and count exactly, and
/// the bucket that holds the reply of the 95th-percentile rank.
pub open spec fn summarizes(s: Summary, log: Seq<Sample>) -> bool {
    &&& is_min(log, s.min)
    &&& is_max(log, s.max)
    &&& s.sum == total(log)
    &&& s.count == log.len()
    &&& s.p95_bucket < HIST_BUCKETS
    &&& count_below(log, s.p95_bucket as int) < p95_rank(log.len()) <= count_below(
        log,
        s.p95_bucket + 1,
    )
}

/// What the samples come to.
pub open spec fn summary_of(log: Seq<Sample>) -> Summary {
    choose|s: Summary| summarizes(s, log)
}

impl Replies {
    /// Every reply recorded so far, in order.
    pub closed spec fn samples(&self) -> Seq<Sample> {
        self.log@
    }

    /// The aggregates are what the samples come to.
    pub closed spec fn wf(&self) -> bool {
        let log = self.log@;
        &&& self.count == log.len()
        &&& self.sum == total(log)
        &&& log.len() > 0 ==> is_min(log, self.min) && is_max(log, self.max)
        &&& log.len() == 0 ==> self.min == u64::MAX && self.max == 0
        &&& self.hist@.len() == HIST_BUCKETS
        &&& forall|b: int|
            0 <= b < HIST_BUCKETS ==> #[trigger] self.hist@[b] == count_in(log, b)
        &&& forall|i: int| 0 <= i < log.len() ==> #[trigger] log[i].bucket < HIST_BUCKETS
        &&& self.recent@ == window(log)
    }

    /// How many numbers are kept to tell percentiles.
    pub closed spec fn held(&self) -> nat {
        self.hist@.len() + self.recent@.len()
    }

    /// Memory stays flat: no more than the histogram and the recent window
    /// are kept, however many replies there were.
    pub proof fn law_memory_stays_flat(&self)
        requires
            self.wf(),
        ensures
            self.held() <= HIST_BUCKETS + RECENT_WINDOW,
    {
    }

    /// Nothing heard yet.
    pub fn new() -> (s: Replies)
        ensures
            s.wf(),
            s.samples() == Seq::<Sample>::empty(),
    {
        let mut hist: Vec<u64> = Vec::new();
        let mut i: usize = 0;
        while i < HIST_BUCKETS
            invariant
                i <= HIST_BUCKETS,
                hist@.len() == i,
                forall|b: int| 0 <= b < i ==> #[trigger] hist@[b] == 0,
            decreases HIST_BUCKETS - i,
        {
            hist.push(0);
            i += 1;
        }
        let s = Replies {
            count: 0,
            sum: 0,
            min: u64::MAX,
            max: 0,
            hist,
            recent: VecDeque::new(),
            log: Ghost(Seq::empty()),
        };
        assert(s.recent@ =~= window(s.log@));
        s
    }

    /// Add one reply to the aggregates.
    pub fn record(&mut self, rtt: u64, steps: usize)
        requires
            old(self).wf(),
            old(self).samples().len() < u64::MAX,
        ensures
            final(self).wf(),
            final(self).samples() == old(self).samples().push(
                Sample { rtt, bucket: bucket_of(rtt, steps) },
            ),
    {
        let b: usize = bucket(rtt, steps);
        let ghost before = self.log@;
        let ghost after = before.push(Sample { rtt, bucket: b });
        assert(after.drop_last() =~= before);
        proof {
            lemma_total_bound(before);
            lemma_count_in_bound(before, b as int);
        }
        self.count = self.count + 1;
        self.sum = self.sum + rtt as u128;
        if rtt < self.min {
            self.min = rtt;
        }
        if rtt > self.max {
            self.max = rtt;
        }
        let n: u64 = self.hist[b];
        self.hist[b] = n + 1;
        if self.recent.len() == RECENT_WINDOW {
            self.recent.pop_front();
        }
        self.recent.push_back(rtt);
        self.log = Ghost(after);
        proof {
            assert(after[before.len() as int].rtt == rtt);
            assert forall|i: int| 0 <= i < before.len() implies after[i] == before[i] by {}
            assert(is_min(after, self.min)) by {
                if before.len() > 0 && self.min != rtt {
                    let k = choose|k: int| 0 <= k < before.len() && self.min == #[trigger] before[k].rtt;
                    assert(after[k].rtt == self.min);
                }
                assert forall|i: int| 0 <= i < after.len() implies self.min <= #[trigger] after[i].rtt by {
                    if i < before.len() {
                        assert(old(self).min <= before[i].rtt);
                    }
                }
            }
            assert(is_max(after, self.max)) by {
                if before.len() > 0 && self.max != rtt {
                    let k = choose|k: int| 0 <= k < before.len() && self.max == #[trigger] before[k].rtt;
                    assert(after[k].rtt == self.max);
                }
                assert forall|i: int| 0 <= i < after.len() implies #[trigger] after[i].rtt <= self.max by {
                    if i < before.len() {
                        assert(before[i].rtt <= old(self).max);
                    }
                }
            }
            assert forall|k: int| 0 <= k < HIST_BUCKETS implies #[trigger] self.hist@[k] == count_in(after, k) by {
                assert(old(self).hist@[k] == count_in(before, k));
            }
            assert(self.recent@ =~= window(after));
        }
    }

    /// p95 of the recent window, in nanoseconds.
    pub fn recent_p95(&self) -> (r: Option<u64>)
        requires
            self.wf(),
        ensures
            r is None <==> self.samples().len() == 0,
            r matches Some(v) ==> is_ranked(
                window(self.samples()),
                p95_rank(window(self.samples()).len()),
                v,
            ),
    {
        let n: usize = self.recent.len();
        if n == 0 {
            return None;
        }
        let ghost win = self.recent@;
        let mut sorted: Vec<u64> = Vec::new();
        let mut i: usize = 0;
        assert(win.take(0) =~= Seq::<u64>::empty());
        while i < n
            invariant
                win == self.recent@,
                n == win.len(),
                i <= n,
                sorted@.len() == i,
                forall|a: int, b: int| 0 <= a <= b < sorted@.len() ==> sorted@[a] <= sorted@[b],
                forall|v: u64| #[trigger] count_le(sorted@, v) == count_le(win.take(i as int), v),
                forall|v: u64| #[trigger] count_lt(sorted@, v) == count_lt(win.take(i as int), v),
            decreases n - i,
        {
            let x: u64 = self.recent[i];
            let mut j: usize = 0;
            while j < sorted.len() && sorted[j] <= x
                invariant
                    j <= sorted@.len(),
                    forall|a: int| 0 <= a < j ==> sorted@[a] <= x,
                decreases sorted@.len() - j,
            {
                j += 1;
            }
            let ghost before = sorted@;
            sorted.insert(j, x);
            proof {
                assert(win.take(i + 1).drop_last() =~= win.take(i as int));
                assert forall|v: u64| #[trigger] count_le(sorted@, v) == count_le(
                    win.take(i + 1),
                    v,
                ) by {
                    lemma_count_insert(before, j as int, x, v);
                    assert(count_le(before, v) == count_le(win.take(i as int), v));
                }
                assert forall|v: u64| #[trigger] count_lt(sorted@, v) == count_lt(
                    win.take(i + 1),
                    v,
                ) by {
                    lemma_count_insert(before, j as int, x, v);
                    assert(count_lt(before, v) == count_lt(win.take(i as int), v));
                }
            }
            i += 1;
        }
        assert(win.take(n as int) =~= win);
        let rank: usize = n - n / 20;
        let v: u64 = sorted[rank - 1];
        proof {
            assert(rank == p95_rank(n as nat));
            lemma_count_split(sorted@, rank as int, v);
            lemma_count_split(sorted@, rank - 1, v);
            assert(count_le(sorted@, v) == count_le(win, v));
            assert(count_lt(sorted@, v) == count_lt(win, v));
        }
        Some(v)
    }

    /// How many replies there were.
    pub fn count(&self) -> (r: u64)
        requires
            self.wf(),
        ensures
            r == self.samples().len(),
    {
        self.count
    }

    /// The aggregates over all replies.
    pub fn summary(&self) -> (r: Option<Summary>)
        requires
            self.wf(),
        ensures
            r is None <==> self.samples().len() == 0,
            r matches Some(s) ==> summarizes(s, self.samples()),
    {
        if self.count == 0 {
            return None;
        }
        let rank: u64 = self.count - self.count / 20;
        let ghost log = self.log@;
        assert(rank == p95_rank(log.len()));
        let mut seen: u64 = 0;
        let mut i: usize = 0;
        proof {
            lemma_count_below_ends(log, HIST_BUCKETS as int);
        }
        while i < HIST_BUCKETS
            invariant
                self.wf(),
                log == self.log@,
                i <= HIST_BUCKETS,
                seen == count_below(log, i as int),
                seen < rank,
                rank == p95_rank(log.len()),
                rank <= log.len(),
                self.count == log.len(),
                self.count > 0,
                count_below(log, HIST_BUCKETS as int) == log.len(),
            decreases HIST_BUCKETS - i,
        {
            proof {
                assert(self.hist@[i as int] == count_in(log, i as int));
                lemma_count_below_step(log, i as int);
                lemma_count_below_ends(log, i + 1);
            }
            seen = seen + self.hist[i];
            if seen >= rank {
                return Some(
                    Summary {
                        min: self.min,
                        max: self.max,
                        sum: self.sum,
                        count: self.count,
                        p95_bucket: i,
                    },
                );
            }
            i += 1;
        }
        assert(false);
        None
    }
}

/// The tallies as numbers.
pub struct StatsView {
    /// Every reply recorded so far, in order.
    pub samples: Seq<Sample>,
    pub sent: int,
    pub late: int,
    pub lost: int,
    pub voided: int,
}

impl View for Stats {
    type V = StatsView;

    open spec fn view(&self) -> StatsView {
        StatsView {
            samples: self.samples(),
            sent: self.sent as int,
            late: self.late as int,
            lost: self.lost as int,
            voided: self.voided as int,
        }
    }
}

impl StatsView {
    /// One more reply.
    pub open spec fn with_reply(self, rtt: u64, steps: usize) -> StatsView {
        StatsView {
            samples: self.samples.push(Sample { rtt, bucket: bucket_of(rtt, steps) }),
            ..self
        }
    }

    /// One loss turns out to be a late reply.
    pub open spec fn with_late(self, rtt: u64, steps: usize) -> StatsView {
        StatsView {
            late: self.late + 1,
            lost: if self.lost > 0 {
                self.lost - 1
            } else {
                0
            },
            ..self.with_reply(rtt, steps)
        }
    }
}

impl Stats {
    /// The aggregates are what the samples come to.
    pub open spec fn wf(&self) -> bool {
        self.heard.wf()
    }

    /// Every reply recorded so far, in order.
    pub open spec fn samples(&self) -> Seq<Sample> {
        self.heard.samples()
    }

    /// Nothing sent, nothing heard.
    pub fn new() -> (s: Stats)
        ensures
            s.wf(),
            s@ == (StatsView {
                samples: Seq::empty(),
                sent: 0,
                late: 0,
                lost: 0,
                voided: 0,
            }),
    {
        Stats { heard: Replies::new(), sent: 0, late: 0, lost: 0, voided: 0 }
    }

    /// A reply arrived after `rtt` nanoseconds, `steps` whole factors of
    /// 1.001 above the start of the histogram.
    pub fn record_rtt(&mut self, rtt: u64, steps: usize)
        requires
            old(self).wf(),
            old(self).samples().len() < u64::MAX,
        ensures
            final(self).wf(),
            final(self)@ == old(self)@.with_reply(rtt, steps),
    {
        self.heard.record(rtt, steps);
    }

    /// A timed-out probe's reply arrived after all: it was never lost.
    pub fn lost_becomes_late(&mut self, rtt: u64, steps: usize)
        requires
            old(self).wf(),
            old(self).samples().len() < u64::MAX,
            old(self).late < u64::MAX,
        ensures
            final(self).wf(),
            final(self)@ == old(self)@.with_late(rtt, steps),
    {
        if self.lost > 0 {
            self.lost = self.lost - 1;
        }
        self.late = self.late + 1;
        self.record_rtt(rtt, steps);
    }

    /// p95 of the recent reply window, in nanoseconds: feeds the timeout
    /// autotuner.
    pub fn recent_p95(&self) -> (r: Option<u64>)
        requires
            self.wf(),
        ensures
            r is None <==> self.samples().len() == 0,
            r matches Some(v) ==> v == recent_p95_of(self.samples()) && is_ranked(
                window(self.samples()),
                p95_rank(window(self.samples()).len()),
                v,
            ),
    {
        let r = self.heard.recent_p95();
        proof {
            let win = window(self.samples());
            if let Some(v) = r {
                law_rank_is_unique(win, p95_rank(win.len()), v, recent_p95_of(self.samples()));
            }
        }
        r
    }

    /// How many replies there were.
    pub fn replies(&self) -> (r: u64)
        requires
            self.wf(),
        ensures
            r == self.samples().len(),
    {
        self.heard.count()
    }

    /// How many probes ended as a reply or a loss.
    pub fn completed(&self) -> (r: u64)
        requires
            self.wf(),
            self@.samples.len() + self@.lost <= u64::MAX,
        ensures
            r == self@.samples.len() + self@.lost,
    {
        self.replies() + self.lost
    }

    /// Min, average, p95 and max over all replies. Min, average and max are
    /// exact; p95 comes from the histogram (one bucket = 0.1%): it is the
    /// bucket in which the reply of that rank fell.
    pub fn summary(&self) -> (r: Option<Summary>)
        requires
            self.wf(),
        ensures
            r is None <==> self.samples().len() == 0,
            r matches Some(s) ==> s == summary_of(self.samples()) && summarizes(s, self.samples()),
    {
        let r = self.heard.summary();
        proof {
            let log = self.samples();
            if let Some(s) = r {
                law_summary_ignores_order(log, log, s, summary_of(log));
            }
        }
        r
    }
}

proof fn lemma_total_between(log: Seq<Sample>, lo: u64, hi: u64)
    requires
        forall|i: int| 0 <= i < log.len() ==> lo <= #[trigger] log[i].rtt <= hi,
    ensures
        log.len() * lo <= total(log) <= log.len() * hi,
    decreases log.len(),
{
    if log.len() > 0 {
        let l = log.drop_last();
        assert forall|i: int| 0 <= i < l.len() implies lo <= #[trigger] l[i].rtt <= hi by {
            assert(l[i] == log[i]);
        }
        lemma_total_between(l, lo, hi);
        assert(lo <= log[log.len() - 1].rtt <= hi);
        assert(log.len() * lo == l.len() * lo + lo) by (nonlinear_arith)
            requires
                log.len() == l.len() + 1,
        ;
        assert(log.len() * hi == l.len() * hi + hi) by (nonlinear_arith)
            requires
                log.len() == l.len() + 1,
        ;
    } else {
        assert(log.len() * lo == 0) by (nonlinear_arith)
            requires
                log.len() == 0,
        ;
        assert(log.len() * hi == 0) by (nonlinear_arith)
            requires
                log.len() == 0,
        ;
    }
}

/// The average lies between the minimum and the maximum.
pub proof fn law_average_between_min_and_max(log: Seq<Sample>, min: u64, max: u64)
    requires
        is_min(log, min),
        is_max(log, max),
    ensures
        log.len() * min <= total(log) <= log.len() * max,
{
    lemma_total_between(log, min, max);
}

/// All RTTs, in order of arrival.
pub open spec fn rtts(log: Seq<Sample>) -> Seq<u64> {
    Seq::new(log.len(), |i: int| log[i].rtt)
}

/// A slower reply is never in a lower bucket.
pub open spec fn buckets_follow_rtts(log: Seq<Sample>) -> bool {
    forall|i: int, j: int|
        0 <= i < log.len() && 0 <= j < log.len() && #[trigger] log[i].rtt <= #[trigger] log[j].rtt
            ==> log[i].bucket <= log[j].bucket
}

proof fn lemma_ranked_occurs(s: Seq<u64>, v: u64)
    requires
        count_lt(s, v) < count_le(s, v),
    ensures
        exists|i: int| 0 <= i < s.len() && s[i] == v,
    decreases s.len(),
{
    if s.len() > 0 {
        if s.last() == v {
            assert(s[s.len() - 1] == v);
        } else {
            lemma_ranked_occurs(s.drop_last(), v);
            let i = choose|i: int| 0 <= i < s.drop_last().len() && s.drop_last()[i] == v;
            assert(s[i] == v);
        }
    }
}

/// With `log[k]` in bucket `b`: no more samples are below `b` than are
/// faster than it, and no fewer are up to `b` than are no slower.
proof fn lemma_buckets_against_rtts(log: Seq<Sample>, v: u64, b: int)
    requires
        forall|i: int| 0 <= i < log.len() && #[trigger] log[i].bucket < b ==> log[i].rtt < v,
        forall|i: int| 0 <= i < log.len() && #[trigger] log[i].rtt <= v ==> log[i].bucket <= b,
    ensures
        count_below(log, b) <= count_lt(rtts(log), v),
        count_le(rtts(log), v) <= count_below(log, b + 1),
    decreases log.len(),
{
    if log.len() > 0 {
        let l = log.drop_last();
        assert(rtts(log).drop_last() =~= rtts(l));
        assert forall|i: int| 0 <= i < l.len() && #[trigger] l[i].bucket < b implies l[i].rtt
            < v by {
            assert(l[i] == log[i]);
        }
        assert forall|i: int| 0 <= i < l.len() && #[trigger] l[i].rtt <= v implies l[i].bucket
            <= b by {
            assert(l[i] == log[i]);
        }
        lemma_buckets_against_rtts(l, v, b);
        assert(log[log.len() - 1] == log.last());
        assert(log.last().bucket < b ==> log.last().rtt < v);
        assert(log.last().rtt <= v ==> log.last().bucket <= b);
    }
}

proof fn lemma_count_below_grows(log: Seq<Sample>, a: int, b: int)
    requires
        a <= b,
    ensures
        count_below(log, a) <= count_below(log, b),
    decreases log.len(),
{
    if log.len() > 0 {
        lemma_count_below_grows(log.drop_last(), a, b);
    }
}

/// The p95 of a summary is accurate to one bucket: the bucket it names is the
/// one that the true 95th-percentile RTT `v` fell into.
pub proof fn law_p95_is_accurate_to_one_bucket(s: Summary, log: Seq<Sample>, v: u64)
    requires
        summarizes(s, log),
        buckets_follow_rtts(log),
        is_ranked(rtts(log), p95_rank(log.len()), v),
    ensures
        exists|k: int|
            0 <= k < log.len() && #[trigger] log[k].rtt == v && log[k].bucket == s.p95_bucket,
{
    lemma_ranked_occurs(rtts(log), v);
    let k = choose|k: int| 0 <= k < rtts(log).len() && rtts(log)[k] == v;
    assert(log[k].rtt == v);
    let b = log[k].bucket as int;
    assert forall|i: int| 0 <= i < log.len() && #[trigger] log[i].bucket < b implies log[i].rtt
        < v by {
        if log[i].rtt >= v {
            assert(log[k].rtt <= log[i].rtt);
        }
    }
    assert forall|i: int| 0 <= i < log.len() && #[trigger] log[i].rtt <= v implies log[i].bucket
        <= b by {
        assert(log[i].rtt <= log[k].rtt);
    }
    lemma_buckets_against_rtts(log, v, b);
    if b < s.p95_bucket {
        lemma_count_below_grows(log, b + 1, s.p95_bucket as int);
    }
    if s.p95_bucket < b {
        lemma_count_below_grows(log, s.p95_bucket + 1, b);
    }
}

/// Taking one sample out.
proof fn lemma_without(log: Seq<Sample>, j: int, b: int)
    requires
        0 <= j < log.len(),
    ensures
        total(log) == total(log.remove(j)) + log[j].rtt,
        count_below(log, b) == count_below(log.remove(j), b) + (if log[j].bucket < b {
            1nat
        } else {
            0
        }),
    decreases log.len(),
{
    let less = log.remove(j);
    if j == log.len() - 1 {
        assert(less =~= log.drop_last());
    } else {
        lemma_without(log.drop_last(), j, b);
        assert(less.drop_last() =~= log.drop_last().remove(j));
        assert(less.last() == log.last());
    }
}

proof fn lemma_order_is_nothing(a: Seq<Sample>, b: Seq<Sample>, k: int)
    requires
        a.to_multiset() == b.to_multiset(),
    ensures
        a.len() == b.len(),
        total(a) == total(b),
        count_below(a, k) == count_below(b, k),
    decreases a.len(),
{
    a.to_multiset_ensures();
    b.to_multiset_ensures();
    if a.len() > 0 {
        let x = a.last();
        assert(a.contains(x));
        assert(b.to_multiset().count(x) > 0);
        let j = choose|j: int| 0 <= j < b.len() && b[j] == x;
        let i = a.len() - 1;
        assert(a.remove(i).to_multiset() =~= b.remove(j).to_multiset());
        lemma_order_is_nothing(a.remove(i), b.remove(j), k);
        lemma_without(a, i, k);
        lemma_without(b, j, k);
    }
}

/// The least sample of one order is among those of another.
proof fn lemma_min_max_order(a: Seq<Sample>, b: Seq<Sample>, s: Summary, t: Summary)
    requires
        a.to_multiset() == b.to_multiset(),
        summarizes(s, a),
        summarizes(t, b),
    ensures
        t.min <= s.min,
        s.max <= t.max,
{
    a.to_multiset_ensures();
    b.to_multiset_ensures();
    let i = choose|i: int| 0 <= i < a.len() && s.min == #[trigger] a[i].rtt;
    assert(a.contains(a[i]));
    assert(b.to_multiset().count(a[i]) > 0);
    let j = choose|j: int| 0 <= j < b.len() && b[j] == a[i];
    assert(t.min <= b[j].rtt);
    let i = choose|i: int| 0 <= i < a.len() && s.max == #[trigger] a[i].rtt;
    assert(a.contains(a[i]));
    assert(b.to_multiset().count(a[i]) > 0);
    let j = choose|j: int| 0 <= j < b.len() && b[j] == a[i];
    assert(b[j].rtt <= t.max);
}

/// There is one summary of given samples, and the order in which they came
/// makes no difference to it.
pub proof fn law_summary_ignores_order(a: Seq<Sample>, b: Seq<Sample>, s: Summary, t: Summary)
    requires
        a.to_multiset() == b.to_multiset(),
        summarizes(s, a),
        summarizes(t, b),
    ensures
        s == t,
{
    lemma_min_max_order(a, b, s, t);
    lemma_min_max_order(b, a, t, s);
    lemma_order_is_nothing(a, b, t.p95_bucket as int);
    lemma_order_is_nothing(a, b, t.p95_bucket + 1);
    if s.p95_bucket < t.p95_bucket {
        lemma_count_below_grows(a, s.p95_bucket + 1, t.p95_bucket as int);
    }
    if t.p95_bucket < s.p95_bucket {
        lemma_count_below_grows(a, t.p95_bucket + 1, s.p95_bucket as int);
    }
}

/// `v` nanoseconds lie in the `k`-th stretch of the histogram: from 100 ns
/// times the `k`-th power of 1.001 up to the next power, not included.
pub open spec fn in_stretch(v: int, k: nat) -> bool {
    &&& HIST_MIN * pow(1001, k) <= v * pow(1000, k)
    &&& v * pow(1000, k + 1) < HIST_MIN * pow(1001, k + 1)
}

/// Every sample is in the bucket of its stretch.
pub open spec fn to_scale(log: Seq<Sample>) -> bool {
    forall|i: int|
        0 <= i < log.len() ==> in_stretch(
            (#[trigger] log[i]).rtt as int,
            log[i].bucket as nat,
        )
}

/// One bucket is 0.1%: two values in the same stretch differ by no more.
pub proof fn law_one_bucket_is_a_tenth_of_a_percent(u: int, v: int, k: nat)
    requires
        in_stretch(u, k),
        in_stretch(v, k),
    ensures
        1000 * u < 1001 * v,
{
    let p = pow(1000, k);
    let q = pow(1001, k);
    lemma_pow_positive(1000, k);
    assert(pow(1000, k + 1) == 1000 * p) by {
        reveal(pow);
    }
    assert(pow(1001, k + 1) == 1001 * q) by {
        reveal(pow);
    }
    assert(1000 * u < 1001 * v) by (nonlinear_arith)
        requires
            p > 0,
            100 * q <= v * p,
            u * (1000 * p) < 100 * (1001 * q),
    ;
}

proof fn lemma_pow_grows(d: nat)
    ensures
        0 < pow(1000, d) <= pow(1001, d),
    decreases d,
{
    reveal(pow);
    if d > 0 {
        lemma_pow_grows((d - 1) as nat);
        let p = pow(1000, (d - 1) as nat);
        let q = pow(1001, (d - 1) as nat);
        assert(0 < 1000 * p <= 1001 * q) by (nonlinear_arith)
            requires
                0 < p <= q,
        ;
    }
}

/// A slower value is in no lower stretch.
proof fn lemma_stretches_ascend(u: int, v: int, j: nat, k: nat)
    requires
        in_stretch(u, k),
        in_stretch(v, j),
        u <= v,
    ensures
        k <= j,
{
    if k > j {
        let d = (k - j - 1) as nat;
        lemma_pow_grows(d);
        lemma_pow_positive(1001, j + 1);
        lemma_pow_positive(1000, k);
        lemma_pow_adds(1000, j + 1, d);
        lemma_pow_adds(1001, j + 1, d);
        let p = pow(1000, j + 1);
        let q = pow(1001, j + 1);
        let x = pow(1000, d);
        let y = pow(1001, d);
        assert(v * (p * x) < 100 * (q * y)) by (nonlinear_arith)
            requires
                v * p < 100 * q,
                0 < x <= y,
                q > 0,
        ;
        let w = pow(1000, k);
        assert(u * w <= v * w) by (nonlinear_arith)
            requires
                u <= v,
                w > 0,
        ;
    }
}

/// With every RTT inside the range of the histogram and in its bucket, the
/// p95 of a summary, read as any value of its bucket and held between the
/// least and the greatest RTT, is within 0.1% of the true one.
pub proof fn law_p95_is_within_a_tenth_of_a_percent(
    s: Summary,
    log: Seq<Sample>,
    v: u64,
    read: int,
)
    requires
        summarizes(s, log),
        to_scale(log),
        is_ranked(rtts(log), p95_rank(log.len()), v),
        in_stretch(read, s.p95_bucket as nat),
    ensures
        ({
            let p95 = clamped(read, s.min as int, s.max as int);
            &&& s.min <= p95 <= s.max
            &&& 1000 * p95 <= 1001 * v
            &&& 1000 * v <= 1001 * p95
        }),
{
    assert forall|i: int, j: int|
        0 <= i < log.len() && 0 <= j < log.len() && #[trigger] log[i].rtt <= #[trigger] log[j].rtt
            implies log[i].bucket <= log[j].bucket by {
        lemma_stretches_ascend(
            log[i].rtt as int,
            log[j].rtt as int,
            log[j].bucket as nat,
            log[i].bucket as nat,
        );
    }
    law_p95_is_accurate_to_one_bucket(s, log, v);
    let k = choose|k: int|
        0 <= k < log.len() && #[trigger] log[k].rtt == v && log[k].bucket == s.p95_bucket;
    assert(in_stretch(log[k].rtt as int, log[k].bucket as nat));
    assert(s.min <= log[k].rtt <= s.max);
    law_one_bucket_is_a_tenth_of_a_percent(read, v as int, s.p95_bucket as nat);
    law_one_bucket_is_a_tenth_of_a_percent(v as int, read, s.p95_bucket as nat);
}

/// Counting is picking out and measuring.
proof fn lemma_counts_are_filters(log: Seq<Sample>, v: u64, b: int)
    ensures
        count_le(rtts(log), v) == log.filter(|x: Sample| x.rtt <= v).len(),
        count_lt(rtts(log), v) == log.filter(|x: Sample| x.rtt < v).len(),
        count_below(log, b) == log.filter(|x: Sample| x.bucket < b).len(),
        count_in(log, b) == log.filter(|x: Sample| x.bucket == b).len(),
    decreases log.len(),
{
    reveal(Seq::filter);
    if log.len() > 0 {
        lemma_counts_are_filters(log.drop_last(), v, b);
        assert(rtts(log).drop_last() =~= rtts(log.drop_last()));
    }
}

proof fn lemma_ranked_exists(s: Seq<u64>, rank: nat, v: u64)
    requires
        1 <= rank <= count_le(s, v),
    ensures
        exists|w: u64| is_ranked(s, rank, w),
    decreases v,
{
    if v == 0 {
        lemma_none_below(s);
        assert(is_ranked(s, rank, v));
    } else {
        let u = (v - 1) as u64;
        lemma_below_is_up_to(s, u);
        if rank <= count_le(s, u) {
            lemma_ranked_exists(s, rank, u);
        } else {
            assert(is_ranked(s, rank, v));
        }
    }
}

proof fn lemma_none_below(s: Seq<u64>)
    ensures
        count_lt(s, 0) == 0,
        count_le(s, u64::MAX) == s.len(),
    decreases s.len(),
{
    if s.len() > 0 {
        lemma_none_below(s.drop_last());
    }
}

proof fn lemma_below_is_up_to(s: Seq<u64>, u: u64)
    requires
        u < u64::MAX,
    ensures
        count_lt(s, (u + 1) as u64) == count_le(s, u),
    decreases s.len(),
{
    if s.len() > 0 {
        lemma_below_is_up_to(s.drop_last(), u);
    }
}

/// The recent p95 is what the words say: of the last 64 replies (of all,
/// where there were fewer) at least 95 in a hundred took no longer than it,
/// and fewer than 95 in a hundred were faster. There is one such value, so
/// this says which it is.
pub proof fn law_recent_p95_is_the_95th_percentile(log: Seq<Sample>, v: u64)
    requires
        log.len() > 0,
    ensures
        ({
            let n = if log.len() < 64 {
                log.len() as int
            } else {
                64
            };
            let recent = log.skip(log.len() - n);
            v == recent_p95_of(log) <==> {
                &&& 100 * recent.filter(|x: Sample| x.rtt <= v).len() >= 95 * n
                &&& 100 * recent.filter(|x: Sample| x.rtt < v).len() < 95 * n
            }
        }),
{
    let n = if log.len() < 64 {
        log.len() as int
    } else {
        64
    };
    let recent = log.skip(log.len() - n);
    let win = window(log);
    assert(win =~= rtts(recent));
    lemma_counts_are_filters(recent, v, 0);
    lemma_none_below(win);
    lemma_ranked_exists(win, p95_rank(win.len()), u64::MAX);
    let w = recent_p95_of(log);
    assert(is_ranked(win, p95_rank(win.len()), w));
    if is_ranked(win, p95_rank(win.len()), v) {
        law_rank_is_unique(win, p95_rank(win.len()), v, w);
    }
}

/// A summary says what the words say: its least and greatest RTT occur and
/// bound all others, its sum grows by the RTT of every reply, its count by
/// one; and of all replies at least 95 in a hundred fell into its p95 bucket
/// or a lower one, but not into the lower ones alone.
pub proof fn law_a_summary_is_what_it_says(s: Summary, log: Seq<Sample>, i: int)
    requires
        summarizes(s, log),
    ensures
        s.count == log.len(),
        0 <= i < log.len() ==> s.min <= log[i].rtt <= s.max,
        exists|k: int| 0 <= k < log.len() && #[trigger] log[k].rtt == s.min,
        exists|k: int| 0 <= k < log.len() && #[trigger] log[k].rtt == s.max,
        s.sum == log.map_values(|x: Sample| x.rtt as int).fold_left(0, |a: int, x: int| a + x),
        100 * log.filter(|x: Sample| x.bucket < s.p95_bucket + 1).len() >= 95 * log.len(),
        100 * log.filter(|x: Sample| x.bucket < s.p95_bucket).len() < 95 * log.len(),
{
    lemma_total_is_the_sum(log);
    lemma_counts_are_filters(log, 0, s.p95_bucket as int);
    lemma_counts_are_filters(log, 0, s.p95_bucket + 1);
}

proof fn lemma_total_is_the_sum(log: Seq<Sample>)
    ensures
        total(log) == log.map_values(|x: Sample| x.rtt as int).fold_left(
            0,
            |a: int, x: int| a + x,
        ),
    decreases log.len(),
{
    let m = log.map_values(|x: Sample| x.rtt as int);
    if log.len() > 0 {
        lemma_total_is_the_sum(log.drop_last());
        assert(m.drop_last() =~= log.drop_last().map_values(|x: Sample| x.rtt as int));
    }
}

/// One more reply is one more sample, at the end, with its RTT; nothing that
/// was there changes. In the histogram it goes where its logarithm says, but
/// for what is off its ends.
pub proof fn law_a_reply_is_recorded_as_it_was(s: StatsView, rtt: u64, steps: usize)
    ensures
        ({
            let t = s.with_reply(rtt, steps);
            &&& t.samples.len() == s.samples.len() + 1
            &&& t.samples.drop_last() == s.samples
            &&& t.samples.last().rtt == rtt
            &&& rtt > 100 && steps < 20_300 ==> t.samples.last().bucket == steps
            &&& rtt <= 100 ==> t.samples.last().bucket == 0
            &&& rtt > 100 && steps >= 20_300 ==> t.samples.last().bucket == 20_299
            &&& t.sent == s.sent
            &&& t.late == s.late
            &&& t.lost == s.lost
            &&& t.voided == s.voided
        }),
{
    assert(s.with_reply(rtt, steps).samples.drop_last() =~= s.samples);
}

/// A late reply is recorded like any other; and one loss is taken back for
/// it, if there is one.
pub proof fn law_a_late_reply_is_a_reply(s: StatsView, rtt: u64, steps: usize)
    requires
        s.lost >= 0,
    ensures
        ({
            let t = s.with_late(rtt, steps);
            &&& t.samples == s.with_reply(rtt, steps).samples
            &&& t.late == s.late + 1
            &&& s.lost > 0 ==> t.lost + t.late == s.lost + s.late
            &&& s.lost == 0 ==> t.lost == 0
            &&& t.sent == s.sent
            &&& t.voided == s.voided
        }),
{
}

/// The tallies are the fields.
pub proof fn law_tallies_are_the_fields(s: Stats)
    ensures
        s@.sent == s.sent,
        s@.late == s.late,
        s@.lost == s.lost,
        s@.voided == s.voided,
{
}

} // verus!
