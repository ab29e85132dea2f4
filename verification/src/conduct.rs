//! What a run does, event by event, in plain numbers: how replies are timed,
//! tallied and drawn, how the timeout and the gap follow from them, and what
//! stays as it was.

use crate::color::{clocked, law_color_is_that_of_the_closest_cell};
use crate::late::late_text;
use crate::probe::Recv;
use crate::run::{
    later, law_late_reply_takes_back_a_loss, law_recv_keeps_the_books, law_send_keeps_the_books,
    law_settle_keeps_the_books, Next, Outcome, Phase, Session, SessionView,
};
use crate::stats::{law_recent_p95_is_the_95th_percentile, Sample};
use crate::text::{all_digits, decimal, digits_value, law_numbers_read_back};
use crate::tune::Pacer;
use vstd::prelude::*;

verus! {

/// What a run was asked for, and what it draws with, never changes.
pub open spec fn same_terms(s: SessionView, t: SessionView) -> bool {
    &&& t.palette == s.palette
    &&& t.count == s.count
    &&& t.end == s.end
    &&& t.delay == s.delay
    &&& t.udp == s.udp
    &&& t.strip.ansi == s.strip.ansi
    &&& t.strip.mode == s.strip.mode
    &&& t.strip.width == s.strip.width
    &&& t.strip.height == s.strip.height
}

/// Whatever happens, the terms stay.
pub proof fn law_terms_stay(
    s: SessionView,
    ev: Recv,
    steps: usize,
    time: u64,
    rseq: u32,
)
    ensures
        same_terms(s, s.after_send(time)),
        same_terms(s, s.after_send_error()),
        same_terms(s, s.after_recv(ev, steps)),
        same_terms(s, s.after_late(rseq, time, steps)),
        same_terms(s, s.after_settle(time)),
{
}

/// Sending counts one probe and puts it in flight, stamped with the instant
/// before the send; nothing else is touched.
pub proof fn law_a_send_is_one_probe_more(s: SessionView, sent_at: u64, k: u32)
    ensures
        ({
            let t = s.after_send(sent_at);
            &&& t.stats.sent == s.stats.sent + 1
            &&& t.stats.samples == s.stats.samples
            &&& t.stats.late == s.stats.late
            &&& t.stats.lost == s.stats.lost
            &&& t.stats.voided == s.stats.voided
            &&& t.phase == (Phase::InFlight { sent_at })
            &&& t.probes.contains_key(s.seq)
            &&& t.probes[s.seq].sent == sent_at
            &&& t.probes[s.seq].pos is None
            &&& k != s.seq ==> (t.probes.contains_key(k) <==> s.probes.contains_key(k))
            &&& k != s.seq ==> t.probes[k] == s.probes[k]
            &&& t.seq == s.seq
            &&& t.strip == s.strip
            &&& t.tuner == s.tuner
            &&& t.pacer == s.pacer
            &&& !t.send_err_noted
        }),
{
}

/// The deadline is the timeout after the send, as far as the clock goes.
pub proof fn law_an_instant_later(now: u64, after: u64)
    ensures
        now + after <= u64::MAX ==> later(now, after) == now + after,
        now + after > u64::MAX ==> later(now, after) == u64::MAX,
{
}

/// A refused send counts one probe, as voided, and moves on to the next
/// number; the first of an outage is noted in the system's words.
pub proof fn law_a_refused_send_is_voided(s: SessionView, error: Seq<char>)
    ensures
        ({
            let t = s.after_send_error();
            &&& t.stats.sent == s.stats.sent + 1
            &&& t.stats.voided == s.stats.voided + 1
            &&& t.stats.samples == s.stats.samples
            &&& t.stats.late == s.stats.late
            &&& t.stats.lost == s.stats.lost
            &&& t.seq == (s.seq + 1) % 0x1_0000_0000
            &&& t.phase == s.phase
            &&& t.probes == s.probes
            &&& t.tuner == s.tuner
            &&& t.pacer == s.pacer
            &&& t.send_err_noted
            &&& s.send_err_noted ==> t.strip == s.strip && s.send_error_text(error).len() == 0
            &&& !s.send_err_noted ==> t.strip == s.strip.noted() && s.send_error_text(error)
                == s.strip.note_text("[send error: "@ + error + " — pausing]"@)
        }),
{
}

/// A reply is timed from its send: the one sample that it adds is the time
/// from the stamp of the probe in flight to its arrival. It is tallied as a
/// reply and as nothing else, and the probe is no longer waited for.
pub proof fn law_a_reply_is_timed_from_its_send(
    s: SessionView,
    sent_at: u64,
    at: u64,
    steps: usize,
    interrupted: bool,
    k: u32,
)
    requires
        s.phase == (Phase::InFlight { sent_at }),
    ensures
        ({
            let ev = Recv::Reply { seq: s.seq, at };
            let t = s.after_recv(ev, steps);
            let x = t.stats.samples.last();
            &&& t.stats.samples.len() == s.stats.samples.len() + 1
            &&& t.stats.samples.drop_last() == s.stats.samples
            &&& sent_at <= at ==> sent_at + x.rtt == at
            &&& sent_at > at ==> x.rtt == 0
            &&& x.rtt > 100 && steps < 20_300 ==> x.bucket == steps
            &&& t.stats.sent == s.stats.sent
            &&& t.stats.late == s.stats.late
            &&& t.stats.lost == s.stats.lost
            &&& t.stats.voided == s.stats.voided
            &&& !t.probes.contains_key(s.seq)
            &&& k != s.seq ==> (t.probes.contains_key(k) <==> s.probes.contains_key(k))
            &&& k != s.seq && s.probes.contains_key(k) ==> t.probes[k] == s.probes[k]
            &&& t.phase == (Phase::Settling { outcome: Outcome::Replied })
            &&& s.recv_next(ev, interrupted) == Next::Settle
            &&& t.seq == s.seq
            &&& t.tuner == s.tuner
            &&& t.pacer == s.pacer
            &&& t.strip == s.strip.advanced()
            &&& t.send_err_noted == s.send_err_noted
        }),
{
    let t = s.after_recv(Recv::Reply { seq: s.seq, at }, steps);
    assert(t.stats.samples.drop_last() =~= s.stats.samples);
}

/// A reply is drawn as a `!` in the color of its RTT: that of `k`
/// milliseconds where the time from the send to the arrival is closest to
/// that, of `k` times 10 µs below 1 ms; the last cell stands for everything
/// slower.
pub proof fn law_a_reply_wears_the_color_of_its_rtt(
    s: SessionView,
    sent_at: u64,
    at: u64,
    k: int,
)
    requires
        s.wf(),
        s.phase == (Phase::InFlight { sent_at }),
        sent_at <= at,
    ensures
        ({
            let text = s.recv_text(Recv::Reply { seq: s.seq, at });
            let d = at - sent_at;
            &&& d >= 1_000_000 && 1 <= k <= 1499 && k * 1_000_000 - 500_000 < d < k * 1_000_000
                + 500_000 ==> text == s.strip.put_text('!', Some(s.palette.ms_cell(k)))
            &&& d < 1_000_000 && 1 <= k <= 99 && k * 10_000 - 5_000 < d < k * 10_000 + 5_000
                ==> text == s.strip.put_text('!', Some(s.palette.sub_ms_cell(k)))
            &&& d < 10_000 ==> text == s.strip.put_text('!', Some(s.palette.sub_ms_cell(1)))
            &&& d >= 1_499_000_000 ==> text == s.strip.put_text(
                '!',
                Some(s.palette.ms_cell(1499)),
            )
        }),
{
    law_color_is_that_of_the_closest_cell(s.palette, clocked((at - sent_at) as u64), k);
}

/// A probe that is not answered in time is one loss, drawn as a `.` without
/// color. It stays known, with its stamp and the place of its `.`: it may
/// still be answered.
pub proof fn law_a_timeout_is_one_loss(
    s: SessionView,
    overshoot: u64,
    steps: usize,
    interrupted: bool,
    k: u32,
)
    requires
        s.wf(),
        s.phase is InFlight,
        overshoot <= 300_000_000,
    ensures
        ({
            let ev = Recv::TimedOut { overshoot };
            let t = s.after_recv(ev, steps);
            &&& t.stats.lost == s.stats.lost + 1
            &&& t.stats.samples == s.stats.samples
            &&& t.stats.sent == s.stats.sent
            &&& t.stats.late == s.stats.late
            &&& t.stats.voided == s.stats.voided
            &&& t.probes.contains_key(s.seq)
            &&& s.phase == (Phase::InFlight { sent_at: t.probes[s.seq].sent })
            &&& t.probes[s.seq].pos == Some(s.strip.cursor())
            &&& k != s.seq ==> (t.probes.contains_key(k) <==> s.probes.contains_key(k))
            &&& k != s.seq ==> t.probes[k] == s.probes[k]
            &&& t.phase == (Phase::Settling { outcome: Outcome::Lost })
            &&& s.recv_next(ev, interrupted) == Next::Settle
            &&& s.recv_text(ev) == s.strip.put_text('.', None)
            &&& t.strip == s.strip.advanced()
            &&& t.seq == s.seq
            &&& t.tuner == s.tuner
            &&& t.pacer == s.pacer
        }),
{
}

/// A probe that the OS held up by more than 300 ms is voided and forgotten,
/// and noted with the whole milliseconds it was held: the result is those as
/// they stand there.
pub proof fn law_a_stall_is_noted(
    s: SessionView,
    overshoot: u64,
    steps: usize,
    interrupted: bool,
    k: u32,
) -> (ms: Seq<char>)
    requires
        s.wf(),
        s.phase is InFlight,
        overshoot > 300_000_000,
    ensures
        all_digits(ms),
        digits_value(ms) * 1_000_000 <= overshoot < (digits_value(ms) + 1) * 1_000_000,
        ({
            let ev = Recv::TimedOut { overshoot };
            let t = s.after_recv(ev, steps);
            &&& s.recv_text(ev) == s.strip.note_text("[stall "@ + ms + "ms — sample voided]"@)
            &&& t.stats.voided == s.stats.voided + 1
            &&& t.stats.samples == s.stats.samples
            &&& t.stats.sent == s.stats.sent
            &&& t.stats.late == s.stats.late
            &&& t.stats.lost == s.stats.lost
            &&& !t.probes.contains_key(s.seq)
            &&& k != s.seq ==> (t.probes.contains_key(k) <==> s.probes.contains_key(k))
            &&& k != s.seq && s.probes.contains_key(k) ==> t.probes[k] == s.probes[k]
            &&& t.phase == (Phase::Settling { outcome: Outcome::Voided })
            &&& s.recv_next(ev, interrupted) == Next::Settle
            &&& t.strip == s.strip.noted()
            &&& t.seq == s.seq
        }),
{
    let ms = (overshoot / 1_000_000) as nat;
    law_numbers_read_back(ms, u64::MAX);
    decimal(ms)
}

/// A signal changes nothing; it ends the run where the user wants out.
pub proof fn law_a_signal_changes_nothing(s: SessionView, steps: usize, interrupted: bool)
    ensures
        s.after_recv(Recv::Interrupted, steps) == s,
        s.recv_text(Recv::Interrupted).len() == 0,
        interrupted ==> s.recv_next(Recv::Interrupted, interrupted) == Next::Stop,
        !interrupted ==> s.recv_next(Recv::Interrupted, interrupted) == Next::Listen,
{
}

/// A reply to another number, while a probe is in flight, is a late reply and
/// no more: the probe in flight goes on being waited for.
pub proof fn law_other_replies_are_late(
    s: SessionView,
    rseq: u32,
    at: u64,
    steps: usize,
    interrupted: bool,
)
    requires
        rseq != s.seq,
    ensures
        ({
            let ev = Recv::Reply { seq: rseq, at };
            &&& s.after_recv(ev, steps) == s.after_late(rseq, at, steps)
            &&& s.recv_text(ev) == late_text(s.strip, s.palette, s.probes, rseq, at)
            &&& s.recv_next(ev, interrupted) == Next::Listen
        }),
{
}

/// A late reply is timed from its own send, takes one loss back, and is known
/// no longer; nothing else is touched. An unknown number changes nothing.
pub proof fn law_a_late_reply_is_timed_from_its_send(
    s: SessionView,
    rseq: u32,
    at: u64,
    steps: usize,
    k: u32,
)
    requires
        s.wf(),
        s.phase is InFlight ==> rseq != s.seq,
    ensures
        s.probes.contains_key(rseq) ==> {
            let t = s.after_late(rseq, at, steps);
            let x = t.stats.samples.last();
            &&& t.stats.samples.len() == s.stats.samples.len() + 1
            &&& t.stats.samples.drop_last() == s.stats.samples
            &&& s.probes[rseq].sent <= at ==> s.probes[rseq].sent + x.rtt == at
            &&& s.probes[rseq].sent > at ==> x.rtt == 0
            &&& x.rtt > 100 && steps < 20_300 ==> x.bucket == steps
            &&& t.stats.lost == s.stats.lost - 1
            &&& t.stats.late == s.stats.late + 1
            &&& t.stats.sent == s.stats.sent
            &&& t.stats.voided == s.stats.voided
            &&& !t.probes.contains_key(rseq)
            &&& k != rseq ==> (t.probes.contains_key(k) <==> s.probes.contains_key(k))
            &&& k != rseq && s.probes.contains_key(k) ==> t.probes[k] == s.probes[k]
            &&& t.strip == s.strip
            &&& t.phase == s.phase
            &&& t.seq == s.seq
            &&& t.tuner == s.tuner
            &&& t.pacer == s.pacer
        },
        !s.probes.contains_key(rseq) ==> s.after_late(rseq, at, steps) == s && late_text(
            s.strip,
            s.palette,
            s.probes,
            rseq,
            at,
        ).len() == 0,
{
    let t = s.after_late(rseq, at, steps);
    if s.probes.contains_key(rseq) {
        law_late_reply_takes_back_a_loss(s, rseq, at, steps);
        assert(t.stats.samples.drop_last() =~= s.stats.samples);
    } else {
        assert(t.probes =~= s.probes);
    }
}

/// A late reply is drawn over its own `.`, as a `,` in the color of its RTT.
pub proof fn law_a_late_reply_wears_the_color_of_its_rtt(
    s: SessionView,
    rseq: u32,
    at: u64,
    k: int,
)
    requires
        s.wf(),
        s.phase is InFlight ==> rseq != s.seq,
        s.probes.contains_key(rseq),
        s.probes[rseq].sent <= at,
    ensures
        s.probes[rseq].pos is Some,
        ({
            let text = late_text(s.strip, s.palette, s.probes, rseq, at);
            let pos = s.probes[rseq].pos->0;
            let d = at - s.probes[rseq].sent;
            &&& d >= 1_000_000 && 1 <= k <= 1499 && k * 1_000_000 - 500_000 < d < k * 1_000_000
                + 500_000 ==> text == s.strip.repaint_text(pos, ',', Some(s.palette.ms_cell(k)))
            &&& d < 1_000_000 && 1 <= k <= 99 && k * 10_000 - 5_000 < d < k * 10_000 + 5_000
                ==> text == s.strip.repaint_text(pos, ',', Some(s.palette.sub_ms_cell(k)))
            &&& d >= 1_499_000_000 ==> text == s.strip.repaint_text(
                pos,
                ',',
                Some(s.palette.ms_cell(1499)),
            )
        }),
{
    assert(s.waiting().contains(rseq));
    law_color_is_that_of_the_closest_cell(
        s.palette,
        clocked((at - s.probes[rseq].sent) as u64),
        k,
    );
}

/// Settling moves on to the next number, with no probe in flight; the tallies
/// stay; and of the probes that may still be answered, those sent less than
/// 10 s ago stay known, as they were, and no others.
pub proof fn law_settling_retires_and_moves_on(s: SessionView, now: u64, k: u32)
    ensures
        ({
            let t = s.after_settle(now);
            &&& t.seq == (s.seq + 1) % 0x1_0000_0000
            &&& t.phase == Phase::Idle
            &&& t.stats == s.stats
            &&& t.send_err_noted == s.send_err_noted
            &&& t.probes.contains_key(k) <==> s.probes.contains_key(k) && now < s.probes[k].sent
                + 10_000_000_000
            &&& t.probes.contains_key(k) ==> t.probes[k] == s.probes[k]
        }),
{
}

/// Replies anchor the timeout to the path. With `v` the p95 of the last 64
/// round trips (at least 95 in a hundred took no longer, fewer than that were
/// faster), the timeout after a reply is exactly four times `v` where the
/// bounds let it, else the bound.
pub proof fn law_a_reply_sets_the_timeout_to_four_times_p95(s: SessionView, now: u64, v: u64)
    requires
        s.wf(),
        s.phase == (Phase::Settling { outcome: Outcome::Replied }),
        ({
            let log = s.stats.samples;
            let n = if log.len() < 64 {
                log.len() as int
            } else {
                64
            };
            let recent = log.skip(log.len() - n);
            &&& 100 * recent.filter(|x: Sample| x.rtt <= v).len() >= 95 * n
            &&& 100 * recent.filter(|x: Sample| x.rtt < v).len() < 95 * n
        }),
    ensures
        ({
            let cur = s.after_settle(now).tuner.cur;
            &&& s.tuner.floor <= 4 * v <= s.tuner.ceil ==> cur == 4 * v
            &&& 4 * v < s.tuner.floor ==> cur == s.tuner.floor
            &&& 4 * v > s.tuner.ceil ==> cur == s.tuner.ceil
            &&& s.tuner.floor == 250_000_000 && s.tuner.ceil == 2_000_000_000 && 62_500_000 <= v
                <= 500_000_000 ==> cur == v + v + v + v
        }),
        s.after_settle(now).tuner.floor == s.tuner.floor,
        s.after_settle(now).tuner.ceil == s.tuner.ceil,
{
    law_recent_p95_is_the_95th_percentile(s.stats.samples, v);
}

/// On a steady path, where the last 64 replies all took `v`, the timeout after
/// a reply is four times that, within the bounds.
pub proof fn law_a_steady_path_gets_four_round_trips(s: SessionView, now: u64, v: u64)
    requires
        s.wf(),
        s.phase == (Phase::Settling { outcome: Outcome::Replied }),
        forall|i: int|
            0 <= i < s.stats.samples.len() && i >= s.stats.samples.len() - 64 ==> (
            #[trigger] s.stats.samples[i]).rtt == v,
        s.tuner.floor <= 4 * v <= s.tuner.ceil,
    ensures
        s.after_settle(now).tuner.cur == 4 * v,
{
    let log = s.stats.samples;
    let n = if log.len() < 64 {
        log.len() as int
    } else {
        64
    };
    let recent = log.skip(log.len() - n);
    assert forall|i: int| 0 <= i < recent.len() implies (#[trigger] recent[i]).rtt == v by {
        assert(recent[i] == log[log.len() - n + i]);
    }
    lemma_all_alike(recent, v);
    law_a_reply_sets_the_timeout_to_four_times_p95(s, now, v);
}

proof fn lemma_all_alike(log: Seq<Sample>, v: u64)
    requires
        forall|i: int| 0 <= i < log.len() ==> (#[trigger] log[i]).rtt == v,
    ensures
        log.filter(|x: Sample| x.rtt <= v).len() == log.len(),
        log.filter(|x: Sample| x.rtt < v).len() == 0,
    decreases log.len(),
{
    reveal(Seq::filter);
    if log.len() > 0 {
        let l = log.drop_last();
        assert forall|i: int| 0 <= i < l.len() implies (#[trigger] l[i]).rtt == v by {
            assert(l[i] == log[i]);
        }
        lemma_all_alike(l, v);
        assert(log[log.len() - 1].rtt == v);
    }
}

/// A loss makes the timeout half as long again, up to the ceiling; a voided
/// sample leaves it alone. The bounds never move.
pub proof fn law_a_loss_grows_the_timeout_by_half(s: SessionView, now: u64)
    requires
        s.wf(),
    ensures
        ({
            let t = s.after_settle(now).tuner;
            &&& s.phase == (Phase::Settling { outcome: Outcome::Lost }) && s.tuner.cur + s.tuner.cur
                / 2 <= s.tuner.ceil ==> t.cur == s.tuner.cur + s.tuner.cur / 2
            &&& s.phase == (Phase::Settling { outcome: Outcome::Lost }) && s.tuner.cur + s.tuner.cur
                / 2 > s.tuner.ceil ==> t.cur == s.tuner.ceil
            &&& s.phase == (Phase::Settling { outcome: Outcome::Voided }) ==> t == s.tuner
            &&& t.floor == s.tuner.floor
            &&& t.ceil == s.tuner.ceil
        }),
{
}

/// On UDP, replies narrow the gap: nineteen in a row only count, and the
/// twentieth takes a tenth off it and starts the count anew.
pub proof fn law_the_twentieth_reply_narrows_the_gap(s: SessionView, now: u64)
    requires
        s.wf(),
        s.udp,
        s.phase == (Phase::Settling { outcome: Outcome::Replied }),
    ensures
        ({
            let p = s.after_settle(now).pacer;
            &&& s.pacer.streak < 19 ==> p.streak == s.pacer.streak + 1 && p.delay == s.pacer.delay
            &&& s.pacer.streak >= 19 ==> p.streak == 0 && 10 * p.delay <= 9 * s.pacer.delay < 10
                * p.delay + 10
            &&& p.peak == s.pacer.peak
            &&& p.noted == s.pacer.noted
        }),
        s.settle_text().len() == 0,
        s.after_settle(now).strip == s.strip,
{
}

/// On UDP, a drop widens the gap by half, by 10 ms at least, to 2 s at most,
/// and starts the count of replies anew; the first one is noted.
pub proof fn law_a_drop_widens_the_gap(s: SessionView, now: u64)
    requires
        s.wf(),
        s.udp,
        s.phase == (Phase::Settling { outcome: Outcome::Lost }),
    ensures
        ({
            let p = s.after_settle(now).pacer;
            let d = s.pacer.delay;
            &&& d <= 20_000_000 ==> p.delay == d + 10_000_000
            &&& d > 20_000_000 && d + d / 2 <= 2_000_000_000 ==> p.delay == d + d / 2
            &&& d > 20_000_000 && d + d / 2 > 2_000_000_000 ==> p.delay == 2_000_000_000
            &&& p.streak == 0
            &&& p.noted
            &&& p.peak >= p.delay && p.peak >= s.pacer.peak
            &&& p.peak == p.delay || p.peak == s.pacer.peak
        }),
        s.pacer.noted ==> s.settle_text().len() == 0 && s.after_settle(now).strip == s.strip,
        !s.pacer.noted ==> s.settle_text() == s.strip.note_text(
            "[drops on udp — auto-pacing engaged]"@,
        ) && s.after_settle(now).strip == s.strip.noted(),
{
}

/// A voided sample does not steer the gap, and without UDP nothing does.
pub proof fn law_nothing_else_moves_the_gap(s: SessionView, now: u64)
    requires
        s.wf(),
        !s.udp || s.phase == (Phase::Settling { outcome: Outcome::Voided }),
    ensures
        s.after_settle(now).pacer == s.pacer,
        s.after_settle(now).strip == s.strip,
        s.settle_text().len() == 0,
{
}

/// One probe, sent and answered: when it was sent, when its reply landed, its
/// place in the histogram, when it was settled.
pub struct Exchange {
    pub sent_at: u64,
    pub at: u64,
    pub steps: usize,
    pub now: u64,
}

/// The run after an exchange.
pub open spec fn exchanged(s: SessionView, x: Exchange) -> SessionView {
    s.after_send(x.sent_at).after_recv(Recv::Reply { seq: s.seq, at: x.at }, x.steps).after_settle(
        x.now,
    )
}

/// The run after exchanges, one after the other.
pub open spec fn after_exchanges(s: SessionView, xs: Seq<Exchange>) -> SessionView
    decreases xs.len(),
{
    if xs.len() == 0 {
        s
    } else {
        exchanged(after_exchanges(s, xs.drop_last()), xs.last())
    }
}

/// An exchange keeps a run sound and ready for the next.
proof fn lemma_exchange(s: SessionView, x: Exchange)
    requires
        s.wf(),
        s.phase is Idle,
        s.has_room(),
    ensures
        exchanged(s, x).wf(),
        exchanged(s, x).phase is Idle,
        exchanged(s, x).stats.sent == s.stats.sent + 1,
        exchanged(s, x).count == s.count,
        exchanged(s, x).udp == s.udp,
        s.udp && s.pacer.streak < 19 ==> exchanged(s, x).pacer == (Pacer {
            streak: (s.pacer.streak + 1) as u32,
            ..s.pacer
        }),
        s.udp && s.pacer.streak >= 19 ==> {
            let p = exchanged(s, x).pacer;
            p.streak == 0 && 10 * p.delay <= 9 * s.pacer.delay < 10 * p.delay + 10
        },
{
    let a = s.after_send(x.sent_at);
    law_send_keeps_the_books(s, x.sent_at);
    let ev = Recv::Reply { seq: s.seq, at: x.at };
    let b = a.after_recv(ev, x.steps);
    law_recv_keeps_the_books(a, ev, x.steps);
    law_settle_keeps_the_books(b, x.now);
    if s.udp {
        law_the_twentieth_reply_narrows_the_gap(b, x.now);
    }
}

/// There is room for so many probes more.
pub open spec fn has_room_for(s: SessionView, n: nat) -> bool {
    &&& s.count matches Some(c) ==> s.stats.sent + n <= c
    &&& s.stats.sent + n <= 0x3fff_ffff_ffff_ffff
}

proof fn lemma_clean_streak(s: SessionView, xs: Seq<Exchange>)
    requires
        s.wf(),
        s.phase is Idle,
        s.udp,
        s.pacer.streak == 0,
        xs.len() <= 19,
        has_room_for(s, xs.len()),
    ensures
        ({
            let t = after_exchanges(s, xs);
            &&& t.wf()
            &&& t.phase is Idle
            &&& t.udp
            &&& t.count == s.count
            &&& t.stats.sent == s.stats.sent + xs.len()
            &&& t.pacer == (Pacer { streak: xs.len() as u32, ..s.pacer })
        }),
    decreases xs.len(),
{
    if xs.len() > 0 {
        lemma_clean_streak(s, xs.drop_last());
        lemma_exchange(after_exchanges(s, xs.drop_last()), xs.last());
    }
}

/// A clean streak on UDP: twenty replies in a row, and no loss between, take
/// a tenth off the gap, whatever else they were; fewer leave it alone.
pub proof fn law_twenty_clean_replies_take_a_tenth_off(s: SessionView, xs: Seq<Exchange>)
    requires
        s.wf(),
        s.phase is Idle,
        s.udp,
        s.pacer.streak == 0,
        xs.len() <= 20,
        has_room_for(s, xs.len()),
    ensures
        xs.len() < 20 ==> after_exchanges(s, xs).pacer.delay == s.pacer.delay,
        xs.len() == 20 ==> {
            let p = after_exchanges(s, xs).pacer;
            &&& 10 * p.delay <= 9 * s.pacer.delay < 10 * p.delay + 10
            &&& p.streak == 0
        },
{
    if xs.len() == 20 {
        lemma_clean_streak(s, xs.drop_last());
        lemma_exchange(after_exchanges(s, xs.drop_last()), xs.last());
    } else {
        lemma_clean_streak(s, xs);
    }
}

/// An exchange, start to end: one probe sent and one reply heard, timed from
/// the send; nothing lost, late or voided.
pub proof fn law_an_exchange_is_one_reply(s: SessionView, x: Exchange)
    requires
        s.wf(),
        s.phase is Idle,
        s.has_room(),
        x.sent_at <= x.at,
    ensures
        ({
            let t = exchanged(s, x);
            &&& t.wf()
            &&& t.phase is Idle
            &&& t.seq == (s.seq + 1) % 0x1_0000_0000
            &&& t.stats.sent == s.stats.sent + 1
            &&& t.stats.samples.len() == s.stats.samples.len() + 1
            &&& x.sent_at + t.stats.samples.last().rtt == x.at
            &&& t.stats.lost == s.stats.lost
            &&& t.stats.late == s.stats.late
            &&& t.stats.voided == s.stats.voided
            &&& !t.probes.contains_key(s.seq)
        }),
{
    lemma_exchange(s, x);
}

/// The gap before the next probe is the longer of the one asked for and the
/// one that pacing came to.
pub proof fn law_the_longer_gap_is_held(s: SessionView)
    ensures
        s.gap() >= s.delay,
        s.gap() >= s.pacer.delay,
        s.gap() == s.delay || s.gap() == s.pacer.delay,
{
}

/// Another probe is due exactly while the user has not interrupted, the end
/// (if there is one) is ahead, and fewer probes went out than asked for (if
/// a number was).
pub proof fn law_a_run_goes_on_until_its_bounds(s: SessionView, interrupted: bool, now: u64)
    ensures
        interrupted ==> !s.goes_on(interrupted, now),
        s.end is Some && now >= s.end->0 ==> !s.goes_on(interrupted, now),
        s.count is Some && s.stats.sent >= s.count->0 ==> !s.goes_on(interrupted, now),
        !interrupted && (s.end is None || now < s.end->0) && (s.count is None || s.stats.sent
            < s.count->0) ==> s.goes_on(interrupted, now),
{
}

/// What is said of a run is said of its fields.
pub proof fn law_a_run_is_its_fields(s: Session, k: u32)
    ensures
        s@.stats == s.stats@,
        s@.strip == s.strip@,
        s@.palette == s.palette,
        s@.seq == s.seq,
        s@.phase == s.phase,
        s@.count == s.count,
        s@.end == s.end,
        s@.delay == s.delay,
        s@.udp == s.udp,
        s@.tuner == s.tuner,
        s@.pacer == s.pacer,
        s@.send_err_noted == s.send_err_noted,
        s@.probes.contains_key(k) <==> s.probes@.contains_key(k),
        s.probes@.contains_key(k) ==> s@.probes[k].sent == s.probes@[k].sent,
{
}

} // verus!
