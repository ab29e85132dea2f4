//! Probes that are still owed a reply, and the replies that come late.

use crate::color::{clock_rgb, Palette};
use crate::stats::{Stats, StatsView};
use crate::term::{GlyphPos, PosView, Strip, StripView};
use std::collections::HashMap;
use vstd::prelude::*;

verus! {

/// A probe older than this stays lost.
pub const LATE_WINDOW: u64 = 10_000_000_000;

/// A probe on its way.
#[derive(Clone, Copy, Debug)]
pub struct Probe {
    /// When it was sent.
    pub sent: u64,
    /// Where its `.` is, once that is on screen.
    pub pos: Option<GlyphPos>,
}

/// A probe with its position as numbers.
pub struct ProbeView {
    pub sent: u64,
    pub pos: Option<PosView>,
}

impl View for Probe {
    type V = ProbeView;

    open spec fn view(&self) -> ProbeView {
        ProbeView {
            sent: self.sent,
            pos: match self.pos {
                Some(p) => Some(p@),
                None => None,
            },
        }
    }
}

/// The probes by sequence number, with positions as numbers.
pub open spec fn probes_view(m: Map<u32, Probe>) -> Map<u32, ProbeView> {
    m.map_values(|p: Probe| p@)
}

/// The time from `from` to `to`; none where the clock has not moved on.
pub open spec fn span(from: u64, to: u64) -> u64 {
    if to > from {
        (to - from) as u64
    } else {
        0
    }
}

/// The time from `from` to `to`.
pub fn elapsed(from: u64, to: u64) -> (r: u64)
    ensures
        r == span(from, to),
{
    if to > from {
        to - from
    } else {
        0
    }
}

/// The probes that are still inside the late window at `now`.
pub open spec fn awaited(probes: Map<u32, ProbeView>, now: u64) -> Map<u32, ProbeView> {
    probes.restrict(
        probes.dom().filter(|k: u32| span(probes[k].sent, now) < LATE_WINDOW),
    )
}

/// Retire timed-out probes past the late window: they stay lost.
pub fn retire(probes: &mut HashMap<u32, Probe>, now: u64)
    ensures
        probes_view(final(probes)@) == awaited(probes_view(old(probes)@), now),
{
    let ghost before = probes@;
    let mut stale: Vec<u32> = Vec::new();
    for e in it: probes.iter()
        invariant
            before == probes@,
            it.seq().len() == before.dom().len(),
            forall|i: int|
                0 <= i < it.seq().len() ==> before.contains_key(*(#[trigger] it.seq()[i]).0)
                    && before[*it.seq()[i].0] == *it.seq()[i].1,
            forall|k: u32| #[trigger]
                before.contains_key(k) ==> it.seq().contains((&k, &before[k])),
            forall|j: int|
                0 <= j < stale@.len() ==> before.contains_key(#[trigger] stale@[j]) && span(
                    before[stale@[j]].sent,
                    now,
                ) >= LATE_WINDOW,
            forall|i: int|
                0 <= i < it.index() && span((#[trigger] it.seq()[i]).1.sent, now) >= LATE_WINDOW
                    ==> stale@.contains(*it.seq()[i].0),
    {
        let (k, p) = e;
        if elapsed(p.sent, now) >= LATE_WINDOW {
            let ghost old_stale = stale@;
            stale.push(*k);
            proof {
                assert(stale@.last() == *k);
                assert forall|x: u32| old_stale.contains(x) implies stale@.contains(x) by {
                    let j = choose|j: int| 0 <= j < old_stale.len() && old_stale[j] == x;
                    assert(stale@[j] == x);
                }
            }
        }
    }
    let ghost doomed = stale@;
    let mut j: usize = 0;
    while j < stale.len()
        invariant
            doomed == stale@,
            j <= stale@.len(),
            forall|k: u32| #[trigger]
                probes@.contains_key(k) <==> before.contains_key(k) && !doomed.take(
                    j as int,
                ).contains(k),
            forall|k: u32| #[trigger] probes@.contains_key(k) ==> probes@[k] == before[k],
        decreases stale@.len() - j,
    {
        probes.remove(&stale[j]);
        proof {
            let a = doomed.take(j as int);
            let b = doomed.take(j + 1);
            assert forall|k: u32| b.contains(k) <==> a.contains(k) || k == doomed[j as int] by {
                if a.contains(k) {
                    let i = choose|i: int| 0 <= i < a.len() && a[i] == k;
                    assert(b[i] == k);
                }
                if k == doomed[j as int] {
                    assert(b[j as int] == k);
                }
                if b.contains(k) && k != doomed[j as int] {
                    let i = choose|i: int| 0 <= i < b.len() && b[i] == k;
                    assert(a[i] == k);
                }
            }
        }
        j += 1;
    }
    proof {
        assert(doomed.take(j as int) =~= doomed);
        let want = awaited(probes_view(before), now);
        assert(probes_view(probes@) =~= want);
    }
}

/// What becomes of the tallies when a reply to probe `rseq` comes late.
pub open spec fn late_stats(
    stats: StatsView,
    probes: Map<u32, ProbeView>,
    rseq: u32,
    at: u64,
    steps: usize,
) -> StatsView {
    if probes.contains_key(rseq) {
        stats.with_late(span(probes[rseq].sent, at), steps)
    } else {
        stats
    }
}

/// What is written when a reply to probe `rseq` comes late: its `.` becomes
/// a `,` in the color of its RTT.
pub open spec fn late_text(
    strip: StripView,
    palette: Palette,
    probes: Map<u32, ProbeView>,
    rseq: u32,
    at: u64,
) -> Seq<char> {
    if probes.contains_key(rseq) {
        match probes[rseq].pos {
            Some(pos) => strip.repaint_text(
                pos,
                ',',
                Some(palette.color_of(span(probes[rseq].sent, at))),
            ),
            None => Seq::empty(),
        }
    } else {
        Seq::empty()
    }
}

/// A duplicated late reply counts once: with the probe gone after the first,
/// a second reply to the same number changes no tally and no probe, and
/// writes nothing, whenever it comes.
pub proof fn law_a_second_reply_changes_nothing(
    stats: StatsView,
    strip: StripView,
    palette: Palette,
    probes: Map<u32, ProbeView>,
    rseq: u32,
    at: u64,
    steps: usize,
)
    ensures
        ({
            let left = probes.remove(rseq);
            &&& left.remove(rseq) == left
            &&& late_stats(stats, left, rseq, at, steps) == stats
            &&& late_text(strip, palette, left, rseq, at) == Seq::<char>::empty()
        }),
{
    assert(probes.remove(rseq).remove(rseq) =~= probes.remove(rseq));
}

/// A reply to an older, timed-out probe: late, not lost. A sequence number
/// we do not know is not ours to interpret. `steps` places the RTT in the
/// histogram.
pub fn handle_late(
    rseq: u32,
    at: u64,
    probes: &mut HashMap<u32, Probe>,
    stats: &mut Stats,
    strip: &Strip,
    palette: &Palette,
    steps: usize,
) -> (r: String)
    requires
        old(stats).wf(),
        old(probes)@.contains_key(rseq) ==> old(stats)@.samples.len() < u64::MAX,
        old(probes)@.contains_key(rseq) ==> old(stats)@.late < u64::MAX,
        palette.wf(),
        strip@.ansi && old(probes)@.contains_key(rseq) ==> (old(probes)@[rseq]@.pos matches Some(
            p,
        ) ==> p.row <= strip@.row),
    ensures
        final(stats).wf(),
        probes_view(final(probes)@) == probes_view(old(probes)@).remove(rseq),
        final(stats)@ == late_stats(
            old(stats)@,
            probes_view(old(probes)@),
            rseq,
            at,
            steps,
        ),
        r@ == late_text(strip@, *palette, probes_view(old(probes)@), rseq, at),
{
    let ghost before = probes@;
    let found = probes.remove(&rseq);
    assert(probes_view(probes@) =~= probes_view(before).remove(rseq));
    match found {
        Some(p) => {
            let rtt: u64 = elapsed(p.sent, at);
            stats.lost_becomes_late(rtt, steps);
            match p.pos {
                Some(pos) => strip.repaint(pos, ',', Some(clock_rgb(palette, rtt))),
                None => String::new(),
            }
        },
        None => String::new(),
    }
}

} // verus!
