//! A run, as a state machine: one probe in flight, the next sent the instant
//! the reply lands. The caller owns the socket, the clock and the terminal;
//! it reports what happened, writes what it is handed, and does what comes
//! next. All instants and spans are nanoseconds.

use crate::args::{Args, Limit};
use crate::color::{clock_rgb, Palette};
use crate::late::{
    awaited, elapsed, handle_late, late_stats, late_text, probes_view, retire, span, Probe,
    ProbeView, LATE_WINDOW,
};
use crate::probe::Recv;
use crate::stats::{recent_p95_of, Stats, StatsView};
use crate::term::{Strip, StripView};
use crate::text::{decimal, push_decimal};
use crate::tune::{clamped, grown, Pacer, Tuner, TIMEOUT_MULT};
use std::collections::HashMap;
use vstd::prelude::*;

verus! {

/// Woken later than this past a deadline, the OS held us: the sample is
/// compromised.
pub const STALL_SLOP: u64 = 300_000_000;

/// Below this, sleeping can't hit the mark (OS timer slack): spin instead.
pub const SPIN_MAX: u64 = 1_000_000;

/// The most probes one run can count.
pub const SENT_MAX: u64 = 0x3fff_ffff_ffff_ffff;

/// How a probe ended.
#[derive(Clone, Copy, Debug, PartialEq, Eq, Structural)]
pub enum Outcome {
    Replied,
    Lost,
    Voided,
}

/// Where a run stands between two events.
#[derive(Clone, Copy, Debug, PartialEq, Eq, Structural)]
pub enum Phase {
    /// No probe in flight.
    Idle,
    /// The probe of the current sequence number is in flight since `sent_at`.
    InFlight { sent_at: u64 },
    /// The probe in flight has ended; what follows from that is not yet
    /// drawn.
    Settling { outcome: Outcome },
}

/// What to do after an event on the socket.
#[derive(Clone, Copy, Debug, PartialEq, Eq, Structural)]
pub enum Next {
    /// Keep listening until the deadline.
    Listen,
    /// The probe has ended: settle.
    Settle,
    /// The user wants out.
    Stop,
}

/// The instant `after` from `now`; the end of time where that is beyond it.
pub open spec fn later(now: u64, after: u64) -> u64 {
    if now + after <= u64::MAX {
        (now + after) as u64
    } else {
        u64::MAX
    }
}

fn instant_after(now: u64, after: u64) -> (r: u64)
    ensures
        r == later(now, after),
{
    if after <= u64::MAX - now {
        now + after
    } else {
        u64::MAX
    }
}

/// Everything a run knows.
pub struct Session {
    pub stats: Stats,
    pub strip: Strip,
    pub probes: HashMap<u32, Probe>,
    pub palette: Palette,
    pub seq: u32,
    pub phase: Phase,
    pub count: Option<u64>,
    pub end: Option<u64>,
    pub delay: u64,
    pub udp: bool,
    pub tuner: Tuner,
    pub pacer: Pacer,
    pub send_err_noted: bool,
}

/// A run as mathematics.
pub struct SessionView {
    pub stats: StatsView,
    pub strip: StripView,
    pub probes: Map<u32, ProbeView>,
    pub palette: Palette,
    pub seq: u32,
    pub phase: Phase,
    pub count: Option<u64>,
    pub end: Option<u64>,
    pub delay: u64,
    pub udp: bool,
    pub tuner: Tuner,
    pub pacer: Pacer,
    pub send_err_noted: bool,
}

impl View for Session {
    type V = SessionView;

    open spec fn view(&self) -> SessionView {
        SessionView {
            stats: self.stats@,
            strip: self.strip@,
            probes: probes_view(self.probes@),
            palette: self.palette,
            seq: self.seq,
            phase: self.phase,
            count: self.count,
            end: self.end,
            delay: self.delay,
            udp: self.udp,
            tuner: self.tuner,
            pacer: self.pacer,
            send_err_noted: self.send_err_noted,
        }
    }
}

/// The sequence number after `seq`; they go round.
pub open spec fn seq_after(seq: u32) -> u32 {
    if seq == u32::MAX {
        0
    } else {
        (seq + 1) as u32
    }
}

/// The annotation for a send the local stack refused.
pub open spec fn send_error_note(error: Seq<char>) -> Seq<char> {
    "[send error: "@ + error + " — pausing]"@
}

/// The annotation for a sample the OS compromised.
pub open spec fn stall_note(overshoot: u64) -> Seq<char> {
    "[stall "@ + decimal((overshoot / 1_000_000) as nat) + "ms — sample voided]"@
}

/// The annotation for the first drop on UDP.
pub open spec fn pacing_note() -> Seq<char> {
    "[drops on udp — auto-pacing engaged]"@
}

impl SessionView {
    /// Probes in flight.
    pub open spec fn flying(self) -> int {
        if self.phase is InFlight {
            1
        } else {
            0
        }
    }

    /// The timed-out probes that may still be answered.
    pub open spec fn waiting(self) -> Set<u32> {
        if self.phase is InFlight {
            self.probes.dom().remove(self.seq)
        } else {
            self.probes.dom()
        }
    }

    /// Rows of the strip are bounded by the probes sent: each draws one glyph
    /// or one note, and at most one more note follows from it.
    pub open spec fn rows_accounted(self) -> bool {
        match self.phase {
            Phase::Idle => self.strip.row <= 4 * self.stats.sent,
            Phase::InFlight { .. } => self.strip.row <= 4 * (self.stats.sent - 1),
            Phase::Settling { .. } => self.strip.row <= 4 * (self.stats.sent - 1) + 2,
        }
    }

    /// No more probes were sent than were asked for, every probe sent is
    /// accounted for exactly once, every waiting probe
    /// is among the lost and has its `.` on the strip, and every part of the
    /// state is sound.
    pub open spec fn wf(self) -> bool {
        &&& self.strip.wf()
        &&& self.palette.wf()
        &&& self.tuner.wf()
        &&& self.pacer.wf()
        &&& !self.udp ==> self.pacer == (Pacer { delay: 0, peak: 0, streak: 0, noted: false })
        &&& self.stats.sent == self.stats.samples.len() + self.stats.lost + self.stats.voided
            + self.flying()
        &&& 0 <= self.stats.sent <= SENT_MAX
        &&& self.count matches Some(c) ==> self.stats.sent <= c
        &&& 0 <= self.stats.late <= self.stats.samples.len()
        &&& 0 <= self.stats.lost
        &&& 0 <= self.stats.voided
        &&& self.rows_accounted()
        &&& self.probes.dom().finite()
        &&& self.waiting().len() <= self.stats.lost
        &&& forall|k: u32| #[trigger]
            self.waiting().contains(k) ==> (self.probes[k].pos matches Some(p) && p.row
                <= self.strip.row)
        &&& self.phase matches Phase::InFlight { sent_at } ==> {
            &&& self.probes.contains_key(self.seq)
            &&& self.probes[self.seq] == (ProbeView { sent: sent_at, pos: None })
        }
        &&& self.phase == (Phase::Settling { outcome: Outcome::Replied })
            ==> self.stats.samples.len() > 0
    }

    /// Whether another probe is due: not interrupted, before the end, below
    /// the count.
    pub open spec fn goes_on(self, interrupted: bool, now: u64) -> bool {
        &&& !interrupted
        &&& self.end matches Some(e) ==> now < e
        &&& self.count matches Some(c) ==> self.stats.sent < c
    }

    /// There is room for another probe: below the count, and countable.
    pub open spec fn has_room(self) -> bool {
        &&& self.count matches Some(c) ==> self.stats.sent < c
        &&& self.stats.sent < SENT_MAX
    }

    /// After a probe went out at `sent_at`.
    pub open spec fn after_send(self, sent_at: u64) -> SessionView {
        SessionView {
            stats: StatsView { sent: self.stats.sent + 1, ..self.stats },
            probes: self.probes.insert(self.seq, ProbeView { sent: sent_at, pos: None }),
            phase: Phase::InFlight { sent_at },
            send_err_noted: false,
            ..self
        }
    }

    /// After the local stack could not send: that says nothing about the
    /// path. The probe is voided; the user is told once per outage.
    pub open spec fn after_send_error(self) -> SessionView {
        SessionView {
            stats: StatsView {
                sent: self.stats.sent + 1,
                voided: self.stats.voided + 1,
                ..self.stats
            },
            strip: if self.send_err_noted {
                self.strip
            } else {
                self.strip.noted()
            },
            seq: seq_after(self.seq),
            send_err_noted: true,
            ..self
        }
    }

    pub open spec fn send_error_text(self, error: Seq<char>) -> Seq<char> {
        if self.send_err_noted {
            Seq::empty()
        } else {
            self.strip.note_text(send_error_note(error))
        }
    }

    /// After a late reply to probe `rseq`.
    pub open spec fn after_late(self, rseq: u32, at: u64, steps: usize) -> SessionView {
        SessionView {
            stats: late_stats(self.stats, self.probes, rseq, at, steps),
            probes: self.probes.remove(rseq),
            ..self
        }
    }

    /// The RTT of a reply to the probe in flight.
    pub open spec fn flight_rtt(self, at: u64) -> u64 {
        match self.phase {
            Phase::InFlight { sent_at } => span(sent_at, at),
            _ => 0,
        }
    }

    /// After the reply to the probe in flight.
    pub open spec fn after_reply(self, at: u64, steps: usize) -> SessionView {
        SessionView {
            stats: self.stats.with_reply(self.flight_rtt(at), steps),
            strip: self.strip.advanced(),
            probes: self.probes.remove(self.seq),
            phase: Phase::Settling { outcome: Outcome::Replied },
            ..self
        }
    }

    /// After the OS held us past the deadline: the sample is voided, never
    /// rendered as loss.
    pub open spec fn after_stall(self) -> SessionView {
        SessionView {
            stats: StatsView { voided: self.stats.voided + 1, ..self.stats },
            strip: self.strip.noted(),
            probes: self.probes.remove(self.seq),
            phase: Phase::Settling { outcome: Outcome::Voided },
            ..self
        }
    }

    /// After the probe in flight timed out. It may still be answered, so it
    /// stays known, with the place of its `.`.
    pub open spec fn after_timeout(self) -> SessionView {
        SessionView {
            stats: StatsView { lost: self.stats.lost + 1, ..self.stats },
            strip: self.strip.advanced(),
            probes: self.probes.insert(
                self.seq,
                ProbeView { pos: Some(self.strip.cursor()), ..self.probes[self.seq] },
            ),
            phase: Phase::Settling { outcome: Outcome::Lost },
            ..self
        }
    }

    /// After an event on the socket with a probe in flight.
    pub open spec fn after_recv(self, ev: Recv, steps: usize) -> SessionView {
        match ev {
            Recv::Reply { seq, at } => if seq == self.seq {
                self.after_reply(at, steps)
            } else {
                self.after_late(seq, at, steps)
            },
            Recv::TimedOut { overshoot } => if overshoot > STALL_SLOP {
                self.after_stall()
            } else {
                self.after_timeout()
            },
            Recv::Interrupted => self,
        }
    }

    /// What that event writes.
    pub open spec fn recv_text(self, ev: Recv) -> Seq<char> {
        match ev {
            Recv::Reply { seq, at } => if seq == self.seq {
                self.strip.put_text('!', Some(self.palette.color_of(self.flight_rtt(at))))
            } else {
                late_text(self.strip, self.palette, self.probes, seq, at)
            },
            Recv::TimedOut { overshoot } => if overshoot > STALL_SLOP {
                self.strip.note_text(stall_note(overshoot))
            } else {
                self.strip.put_text('.', None)
            },
            Recv::Interrupted => Seq::empty(),
        }
    }

    /// What to do next.
    pub open spec fn recv_next(self, ev: Recv, interrupted: bool) -> Next {
        match ev {
            Recv::Reply { seq, .. } => if seq == self.seq {
                Next::Settle
            } else {
                Next::Listen
            },
            Recv::TimedOut { .. } => Next::Settle,
            Recv::Interrupted => if interrupted {
                Next::Stop
            } else {
                Next::Listen
            },
        }
    }

    /// The outcome that waits to be settled.
    pub open spec fn outcome(self) -> Outcome {
        match self.phase {
            Phase::Settling { outcome } => outcome,
            _ => Outcome::Voided,
        }
    }

    /// Replies re-anchor the timeout to the path, losses grow it, voided
    /// samples say nothing.
    pub open spec fn tuned(self) -> Tuner {
        match self.outcome() {
            Outcome::Replied => Tuner {
                cur: clamped(
                    recent_p95_of(self.stats.samples) * TIMEOUT_MULT,
                    self.tuner.floor as int,
                    self.tuner.ceil as int,
                ) as u64,
                ..self.tuner
            },
            Outcome::Lost => Tuner {
                cur: grown(self.tuner.cur as int, self.tuner.ceil as int) as u64,
                ..self.tuner
            },
            Outcome::Voided => self.tuner,
        }
    }

    /// The same for the gap between UDP probes.
    pub open spec fn paced(self) -> Pacer {
        if self.udp {
            match self.outcome() {
                Outcome::Replied => self.pacer.after_reply(),
                Outcome::Lost => self.pacer.after_loss(),
                Outcome::Voided => self.pacer,
            }
        } else {
            self.pacer
        }
    }

    /// This is the drop that engages pacing.
    pub open spec fn first_drop(self) -> bool {
        self.udp && self.outcome() == Outcome::Lost && !self.pacer.noted
    }

    /// After everything that follows from the end of a probe, with `now` on
    /// the clock.
    pub open spec fn after_settle(self, now: u64) -> SessionView {
        SessionView {
            strip: if self.first_drop() {
                self.strip.noted()
            } else {
                self.strip
            },
            probes: awaited(self.probes, now),
            seq: seq_after(self.seq),
            phase: Phase::Idle,
            tuner: self.tuned(),
            pacer: self.paced(),
            ..self
        }
    }

    pub open spec fn settle_text(self) -> Seq<char> {
        if self.first_drop() {
            self.strip.note_text(pacing_note())
        } else {
            Seq::empty()
        }
    }

    /// The gap to hold before the next probe.
    pub open spec fn gap(self) -> u64 {
        if self.delay > self.pacer.delay {
            self.delay
        } else {
            self.pacer.delay
        }
    }
}

/// A run starts sound.
proof fn lemma_start_wf(s: SessionView)
    requires
        s.strip.wf(),
        s.strip.row == 0,
        s.palette.wf(),
        s.tuner.wf(),
        s.pacer == (Pacer { delay: 0, peak: 0, streak: 0, noted: false }),
        s.stats == (StatsView { samples: Seq::empty(), sent: 0, late: 0, lost: 0, voided: 0 }),
        s.probes == Map::<u32, ProbeView>::empty(),
        s.phase == Phase::Idle,
    ensures
        s.wf(),
{
    assert(s.probes.dom() =~= Set::<u32>::empty());
}

/// Sending keeps a run sound.
pub proof fn law_send_keeps_the_books(s: SessionView, sent_at: u64)
    requires
        s.wf(),
        s.phase is Idle,
        s.has_room(),
    ensures
        s.after_send(sent_at).wf(),
{
    let t = s.after_send(sent_at);
    assert(t.waiting() =~= s.waiting().remove(s.seq));
    assert forall|k: u32| #[trigger] t.waiting().contains(k) implies (t.probes[k].pos matches Some(
        p,
    ) && p.row <= t.strip.row) by {
        assert(s.waiting().contains(k));
    }
}

/// A refused send keeps a run sound.
pub proof fn law_send_error_keeps_the_books(s: SessionView)
    requires
        s.wf(),
        s.phase is Idle,
        s.has_room(),
    ensures
        s.after_send_error().wf(),
{
    let t = s.after_send_error();
    assert(t.waiting() =~= s.waiting());
    assert forall|k: u32| #[trigger] t.waiting().contains(k) implies (t.probes[k].pos matches Some(
        p,
    ) && p.row <= t.strip.row) by {
        assert(s.waiting().contains(k));
    }
}

/// A late reply keeps a run sound, whether or not a probe is in flight; and
/// the loss it takes back was counted: the tally never has to stop at zero.
pub proof fn law_late_reply_takes_back_a_loss(s: SessionView, rseq: u32, at: u64, steps: usize)
    requires
        s.wf(),
        s.phase is InFlight ==> rseq != s.seq,
    ensures
        s.after_late(rseq, at, steps).wf(),
        s.probes.contains_key(rseq) ==> {
            let t = s.after_late(rseq, at, steps);
            &&& t.stats.lost == s.stats.lost - 1
            &&& t.stats.late == s.stats.late + 1
            &&& t.stats.samples.len() == s.stats.samples.len() + 1
        },
        !s.probes.contains_key(rseq) ==> s.after_late(rseq, at, steps).stats == s.stats,
{
    let t = s.after_late(rseq, at, steps);
    assert(t.waiting() =~= s.waiting().remove(rseq));
    if s.probes.contains_key(rseq) {
        assert(s.waiting().contains(rseq));
    }
    assert forall|k: u32| #[trigger] t.waiting().contains(k) implies (t.probes[k].pos matches Some(
        p,
    ) && p.row <= t.strip.row) by {
        assert(s.waiting().contains(k));
    }
}

/// Whatever the socket reports, a run stays sound: the probe in flight
/// either stays in flight or is counted once, as reply, loss or voided.
pub proof fn law_recv_keeps_the_books(s: SessionView, ev: Recv, steps: usize)
    requires
        s.wf(),
        s.phase is InFlight,
    ensures
        s.after_recv(ev, steps).wf(),
{
    let t = s.after_recv(ev, steps);
    match ev {
        Recv::Reply { seq, at } => {
            if seq != s.seq {
                law_late_reply_takes_back_a_loss(s, seq, at, steps);
            } else {
                assert(t.waiting() =~= s.waiting());
                assert forall|k: u32| #[trigger] t.waiting().contains(k) implies (
                t.probes[k].pos matches Some(p) && p.row <= t.strip.row) by {
                    assert(s.waiting().contains(k));
                }
            }
        },
        Recv::TimedOut { overshoot } => {
            if overshoot > STALL_SLOP {
                assert(t.waiting() =~= s.waiting());
            } else {
                assert(t.waiting() =~= s.waiting().insert(s.seq));
            }
            assert forall|k: u32| #[trigger] t.waiting().contains(k) implies (
            t.probes[k].pos matches Some(p) && p.row <= t.strip.row) by {
                if k != s.seq {
                    assert(s.waiting().contains(k));
                }
            }
        },
        Recv::Interrupted => {},
    }
}

/// Settling keeps a run sound.
pub proof fn law_settle_keeps_the_books(s: SessionView, now: u64)
    requires
        s.wf(),
        s.phase is Settling,
    ensures
        s.after_settle(now).wf(),
{
    let t = s.after_settle(now);
    assert(t.waiting().subset_of(s.waiting()));
    vstd::set_lib::lemma_len_subset(t.waiting(), s.waiting());
    assert forall|k: u32| #[trigger] t.waiting().contains(k) implies (t.probes[k].pos matches Some(
        p,
    ) && p.row <= t.strip.row) by {
        assert(s.waiting().contains(k));
    }
}

/// A stalled sample is never rendered as loss: it leaves the losses as they
/// are and draws no glyph.
pub proof fn law_a_stall_is_never_a_loss(s: SessionView, overshoot: u64, steps: usize)
    requires
        s.wf(),
        s.phase is InFlight,
        overshoot > STALL_SLOP,
    ensures
        ({
            let t = s.after_recv(Recv::TimedOut { overshoot }, steps);
            &&& t.stats.lost == s.stats.lost
            &&& t.stats.voided == s.stats.voided + 1
            &&& t.stats.samples == s.stats.samples
            &&& !t.probes.contains_key(s.seq)
            &&& t.tuned() == s.tuner
            &&& t.paced() == s.pacer
            &&& s.recv_text(Recv::TimedOut { overshoot }) == s.strip.note_text(
                stall_note(overshoot),
            )
        }),
{
}

/// Between probes, every probe sent is a reply, a loss or voided, and no two
/// of them; late replies are among the replies.
pub proof fn law_every_probe_is_accounted_for(s: SessionView)
    requires
        s.wf(),
    ensures
        s.phase !is InFlight ==> s.stats.sent == s.stats.samples.len() + s.stats.lost
            + s.stats.voided,
        s.phase is InFlight ==> s.stats.sent == s.stats.samples.len() + s.stats.lost
            + s.stats.voided + 1,
        s.stats.late <= s.stats.samples.len(),
{
}

/// A run ends where it was told to: it never sends more probes than it was
/// asked for, and another probe is due only while there are some left to
/// send and the end has not come, and never after an interrupt.
pub proof fn law_bounds_are_kept(s: SessionView, interrupted: bool, now: u64)
    requires
        s.wf(),
    ensures
        s.count matches Some(c) ==> s.stats.sent <= c,
        s.goes_on(interrupted, now) ==> !interrupted,
        s.goes_on(interrupted, now) && s.stats.sent < SENT_MAX ==> s.has_room(),
        s.goes_on(interrupted, now) ==> (s.end matches Some(e) ==> now < e),
        s.count == Some(s.stats.sent as u64) ==> !s.goes_on(interrupted, now),
{
}

/// Without a delay asked for, and without UDP's pacing, there is no gap: the
/// next probe goes out as soon as the last one has ended.
pub proof fn law_no_gap_unless_asked(s: SessionView)
    requires
        s.wf(),
        s.delay == 0,
        !s.udp,
    ensures
        s.gap() == 0,
{
}

/// An outage is noted once: the second refusal in a row writes nothing, and
/// a send that succeeds makes the next refusal news again.
pub proof fn law_an_outage_is_noted_once(s: SessionView, error: Seq<char>, sent_at: u64)
    ensures
        s.after_send_error().send_error_text(error) == Seq::<char>::empty(),
        s.after_send_error().after_send_error().strip == s.after_send_error().strip,
        s.after_send(sent_at).send_error_text(error) == s.strip.note_text(send_error_note(error)),
{
}

/// One probe in flight: a run that has sent waits on that probe, and on no
/// other, until it has ended; only settling it makes room for the next one,
/// which has the next number.
pub proof fn law_one_probe_in_flight(
    s: SessionView,
    sent_at: u64,
    ev: Recv,
    steps: usize,
    interrupted: bool,
    now: u64,
)
    requires
        s.wf(),
    ensures
        s.flying() <= 1,
        s.after_send(sent_at).flying() == 1,
        s.after_send(sent_at).seq == s.seq,
        s.phase is InFlight ==> {
            let t = s.after_recv(ev, steps);
            &&& t.seq == s.seq
            &&& if s.recv_next(ev, interrupted) == Next::Settle {
                t.phase is Settling
            } else {
                t.phase == s.phase
            }
        },
        s.after_settle(now).phase == Phase::Idle,
        s.after_settle(now).seq == seq_after(s.seq),
{
}

/// A send that the local stack refused says nothing about the path: it is
/// neither reply nor loss, and it steers neither the timeout nor the pace.
pub proof fn law_a_refused_send_does_not_steer(s: SessionView)
    ensures
        s.after_send_error().stats.samples == s.stats.samples,
        s.after_send_error().stats.lost == s.stats.lost,
        s.after_send_error().stats.voided == s.stats.voided + 1,
        s.after_send_error().tuner == s.tuner,
        s.after_send_error().pacer == s.pacer,
{
}

/// Past the late window a probe stays lost: once it is retired, a reply to it
/// changes nothing and writes nothing.
pub proof fn law_past_the_late_window_it_stays_lost(
    s: SessionView,
    rseq: u32,
    now: u64,
    at: u64,
    steps: usize,
)
    requires
        s.probes.contains_key(rseq),
        span(s.probes[rseq].sent, now) >= LATE_WINDOW,
    ensures
        ({
            let t = s.after_settle(now);
            &&& t.after_late(rseq, at, steps) == t
            &&& late_text(t.strip, t.palette, t.probes, rseq, at) == Seq::<char>::empty()
        }),
{
    let t = s.after_settle(now);
    assert(!t.probes.contains_key(rseq));
    assert(t.probes.remove(rseq) =~= t.probes);
}

/// A duplicated late reply counts once, and changes nothing the second time.
pub proof fn law_a_late_reply_counts_once(
    s: SessionView,
    rseq: u32,
    at: u64,
    steps: usize,
    again: u64,
    again_steps: usize,
)
    ensures
        ({
            let t = s.after_late(rseq, at, steps);
            &&& t.after_late(rseq, again, again_steps) == t
            &&& late_text(t.strip, t.palette, t.probes, rseq, again) == Seq::<char>::empty()
        }),
{
    let t = s.after_late(rseq, at, steps);
    assert(t.probes.remove(rseq) =~= t.probes);
}

/// Late or lost, never both: a probe that timed out and is then answered
/// within the late window ends as a late reply, and the loss is gone from
/// the tally as if it had never been.
pub proof fn law_late_undoes_lost(s: SessionView, overshoot: u64, now: u64, at: u64, steps: usize)
    requires
        s.wf(),
        s.phase is InFlight,
        overshoot <= STALL_SLOP,
        span(s.probes[s.seq].sent, now) < LATE_WINDOW,
    ensures
        ({
            let t = s.after_recv(Recv::TimedOut { overshoot }, steps).after_settle(now).after_late(
                s.seq,
                at,
                steps,
            );
            &&& t.stats.lost == s.stats.lost
            &&& t.stats.late == s.stats.late + 1
            &&& t.stats.samples.len() == s.stats.samples.len() + 1
            &&& t.stats.samples.last().rtt == s.flight_rtt(at)
        }),
        // and its own `.` is the one that becomes a `,`
        ({
            let b = s.after_recv(Recv::TimedOut { overshoot }, steps).after_settle(now);
            late_text(b.strip, b.palette, b.probes, s.seq, at) == b.strip.repaint_text(
                s.strip.cursor(),
                ',',
                Some(s.palette.color_of(s.flight_rtt(at))),
            )
        }),
{
    let a = s.after_recv(Recv::TimedOut { overshoot }, steps);
    law_recv_keeps_the_books(s, Recv::TimedOut { overshoot }, steps);
    law_settle_keeps_the_books(a, now);
    let b = a.after_settle(now);
    assert(b.probes.contains_key(s.seq));
    law_late_reply_takes_back_a_loss(b, s.seq, at, steps);
}

impl Session {
    /// The parts are sound, and so is the whole.
    pub open spec fn wf(&self) -> bool {
        self.stats.wf() && self@.wf()
    }

    /// Start a run at `start`. A count or duration of zero means unlimited.
    pub fn new(args: &Args, start: u64, strip: Strip, palette: Palette) -> (s: Session)
        requires
            strip.wf(),
            strip@.row == 0,
            palette.wf(),
        ensures
            s.wf(),
            s@.stats == (StatsView { samples: Seq::empty(), sent: 0, late: 0, lost: 0, voided: 0 }),
            s@.strip == strip@,
            s@.probes == Map::<u32, ProbeView>::empty(),
            s@.palette == palette,
            s@.seq == 0,
            s@.phase == Phase::Idle,
            s@.count == match args.count {
                Some(c) => if c > 0 {
                    Some(c)
                } else {
                    None
                },
                None => None,
            },
            s@.end == match args.secs {
                Some(Limit::After(n)) => Some(later(start, n)),
                _ => None,
            },
            s@.delay == args.delay,
            s@.udp == args.udp,
            s@.tuner == Tuner::starting(args.fixed_timeout),
            s@.pacer == (Pacer { delay: 0, peak: 0, streak: 0, noted: false }),
            !s@.send_err_noted,
    {
        let s = Session {
            stats: Stats::new(),
            strip,
            probes: HashMap::new(),
            palette,
            seq: 0,
            phase: Phase::Idle,
            count: match args.count {
                Some(c) => if c > 0 {
                    Some(c)
                } else {
                    None
                },
                None => None,
            },
            end: match args.secs {
                Some(Limit::After(n)) => Some(instant_after(start, n)),
                _ => None,
            },
            delay: args.delay,
            udp: args.udp,
            tuner: Tuner::new(args.fixed_timeout),
            pacer: Pacer::new(),
            send_err_noted: false,
        };
        proof {
            assert(s@.probes =~= Map::<u32, ProbeView>::empty());
            lemma_start_wf(s@);
        }
        s
    }

    /// Whether another probe is due.
    pub fn more(&self, interrupted: bool, now: u64) -> (r: bool)
        ensures
            r == self@.goes_on(interrupted, now),
    {
        if interrupted {
            return false;
        }
        let before_end = match self.end {
            Some(e) => now < e,
            None => true,
        };
        let below_count = match self.count {
            Some(c) => self.stats.sent < c,
            None => true,
        };
        before_end && below_count
    }

    /// The probe of the current sequence number went out; it was stamped
    /// `sent_at` before the send, so that transit is never understated.
    /// Returns the deadline for its reply.
    pub fn sent(&mut self, sent_at: u64) -> (deadline: u64)
        requires
            old(self).wf(),
            old(self)@.phase is Idle,
            old(self)@.has_room(),
        ensures
            final(self).wf(),
            final(self)@ == old(self)@.after_send(sent_at),
            deadline == later(sent_at, old(self)@.tuner.cur),
    {
        let ghost before = self@;
        self.send_err_noted = false;
        self.stats.sent = self.stats.sent + 1;
        let probe = Probe { sent: sent_at, pos: None };
        self.probes.insert(self.seq, probe);
        self.phase = Phase::InFlight { sent_at };
        proof {
            law_send_keeps_the_books(before, sent_at);
            assert(self@.probes =~= before.after_send(sent_at).probes);
        }
        instant_after(sent_at, self.tuner.cur)
    }

    /// The probe could not be sent. An error that is not transient ends the
    /// run (`None`). Else the probe is voided, and the run pauses: the
    /// result is how long, and what to write. The run must survive the
    /// incident it exists to document.
    pub fn send_failed(&mut self, transient: bool, error: &str) -> (r: Option<(u64, String)>)
        requires
            old(self).wf(),
            old(self)@.phase is Idle,
            old(self)@.has_room(),
        ensures
            final(self).wf(),
            r is Some <==> transient,
            !transient ==> final(self)@ == old(self)@,
            transient ==> final(self)@ == old(self)@.after_send_error(),
            r matches Some((pause, text)) ==> pause == old(self)@.tuner.cur && text@ == old(
                self,
            )@.send_error_text(error@),
    {
        if !transient {
            return None;
        }
        let ghost before = self@;
        self.stats.sent = self.stats.sent + 1;
        self.stats.voided = self.stats.voided + 1;
        let mut text = String::new();
        if !self.send_err_noted {
            let mut m = String::new();
            m.append("[send error: ");
            m.append(error);
            m.append(" — pausing]");
            assert(m@ =~= send_error_note(error@));
            text = self.strip.note(m.as_str());
            self.send_err_noted = true;
        }
        self.seq = self.next_seq();
        proof {
            law_send_error_keeps_the_books(before);
        }
        Some((self.tuner.cur, text))
    }

    fn next_seq(&self) -> (r: u32)
        ensures
            r == seq_after(self.seq),
    {
        if self.seq == u32::MAX {
            0
        } else {
            self.seq + 1
        }
    }

    /// The RTT that a reply to `rseq` at `at` would have, if that probe is
    /// known.
    pub fn rtt_of(&self, rseq: u32, at: u64) -> (r: Option<u64>)
        ensures
            r == if self@.probes.contains_key(rseq) {
                Some(span(self@.probes[rseq].sent, at))
            } else {
                None
            },
    {
        match self.probes.get(&rseq) {
            Some(p) => Some(elapsed(p.sent, at)),
            None => None,
        }
    }

    /// An event on the socket, with a probe in flight. `steps` places the RTT
    /// of a reply in the histogram. Returns what to do next and what to
    /// write.
    pub fn on_recv(&mut self, ev: Recv, steps: usize, interrupted: bool) -> (r: (Next, String))
        requires
            old(self).wf(),
            old(self)@.phase is InFlight,
        ensures
            final(self).wf(),
            final(self)@ == old(self)@.after_recv(ev, steps),
            r.0 == old(self)@.recv_next(ev, interrupted),
            r.1@ == old(self)@.recv_text(ev),
    {
        let ghost before = self@;
        proof {
            law_recv_keeps_the_books(before, ev, steps);
        }
        match ev {
            Recv::Reply { seq: rseq, at } => {
                if rseq == self.seq {
                    let sent_at: u64 = match self.phase {
                        Phase::InFlight { sent_at } => sent_at,
                        _ => at,
                    };
                    let rtt: u64 = elapsed(sent_at, at);
                    self.stats.record_rtt(rtt, steps);
                    let (_pos, text) = self.strip.put('!', Some(clock_rgb(&self.palette, rtt)));
                    self.probes.remove(&rseq);
                    self.phase = Phase::Settling { outcome: Outcome::Replied };
                    assert(self@.probes =~= before.after_recv(ev, steps).probes);
                    (Next::Settle, text)
                } else {
                    let text = self.late(rseq, at, steps);
                    (Next::Listen, text)
                }
            },
            Recv::TimedOut { overshoot } => {
                if overshoot > STALL_SLOP {
                    self.stats.voided = self.stats.voided + 1;
                    let k: u32 = self.seq;
                    self.probes.remove(&k);
                    let mut m = String::new();
                    m.append("[stall ");
                    push_decimal(&mut m, overshoot / 1_000_000);
                    m.append("ms — sample voided]");
                    assert(m@ =~= stall_note(overshoot));
                    let text = self.strip.note(m.as_str());
                    self.phase = Phase::Settling { outcome: Outcome::Voided };
                    assert(self@.probes =~= before.after_recv(ev, steps).probes);
                    (Next::Settle, text)
                } else {
                    self.stats.lost = self.stats.lost + 1;
                    let (pos, text) = self.strip.put('.', None);
                    let k: u32 = self.seq;
                    let sent: u64 = match self.probes.get(&k) {
                        Some(p) => p.sent,
                        None => 0,
                    };
                    self.probes.insert(k, Probe { sent, pos: Some(pos) });
                    self.phase = Phase::Settling { outcome: Outcome::Lost };
                    assert(self@.probes =~= before.after_recv(ev, steps).probes);
                    (Next::Settle, text)
                }
            },
            Recv::Interrupted => {
                let next = if interrupted {
                    Next::Stop
                } else {
                    Next::Listen
                };
                (next, String::new())
            },
        }
    }

    /// A reply to a probe that is not in flight.
    fn late(&mut self, rseq: u32, at: u64, steps: usize) -> (text: String)
        requires
            old(self).wf(),
            old(self)@.phase is InFlight ==> rseq != old(self)@.seq,
        ensures
            final(self).wf(),
            final(self)@ == old(self)@.after_late(rseq, at, steps),
            text@ == late_text(
                old(self)@.strip,
                old(self)@.palette,
                old(self)@.probes,
                rseq,
                at,
            ),
    {
        let ghost before = self@;
        proof {
            law_late_reply_takes_back_a_loss(before, rseq, at, steps);
            if self.probes@.contains_key(rseq) {
                assert(before.waiting().contains(rseq));
                assert(before.probes[rseq] == self.probes@[rseq]@);
            }
        }
        handle_late(
            rseq,
            at,
            &mut self.probes,
            &mut self.stats,
            &self.strip,
            &self.palette,
            steps,
        )
    }

    /// Draw what follows from the end of a probe: tune the timeout, pace,
    /// retire, move on to the next sequence number. Returns what to write.
    pub fn settle(&mut self, now: u64) -> (text: String)
        requires
            old(self).wf(),
            old(self)@.phase is Settling,
        ensures
            final(self).wf(),
            final(self)@ == old(self)@.after_settle(now),
            text@ == old(self)@.settle_text(),
    {
        let ghost before = self@;
        proof {
            law_settle_keeps_the_books(before, now);
        }
        let outcome: Outcome = match self.phase {
            Phase::Settling { outcome } => outcome,
            _ => Outcome::Voided,
        };
        let mut text = String::new();
        match outcome {
            Outcome::Replied => {
                let p95 = self.stats.recent_p95();
                self.tuner.replied(p95);
            },
            Outcome::Lost => {
                self.tuner.lost();
            },
            Outcome::Voided => {},
        }
        if self.udp {
            match outcome {
                Outcome::Replied => {
                    self.pacer.replied();
                },
                Outcome::Lost => {
                    if self.pacer.lost() {
                        text = self.strip.note("[drops on udp — auto-pacing engaged]");
                    }
                },
                Outcome::Voided => {},
            }
        }
        retire(&mut self.probes, now);
        self.seq = self.next_seq();
        self.phase = Phase::Idle;
        text
    }

    /// The gap to hold before the next probe, if there is one and another
    /// probe is due.
    pub fn gap_due(&self, interrupted: bool, now: u64) -> (r: Option<u64>)
        ensures
            r == if self@.gap() > 0 && self@.goes_on(interrupted, now) {
                Some(self@.gap())
            } else {
                None
            },
    {
        let gap: u64 = if self.delay > self.pacer.delay {
            self.delay
        } else {
            self.pacer.delay
        };
        if gap > 0 && self.more(interrupted, now) {
            Some(gap)
        } else {
            None
        }
    }

    /// An event on the socket while a gap is held: late replies are
    /// timestamped on arrival. Returns what to write.
    pub fn on_gap_recv(&mut self, gap: &mut Gap, ev: Recv, steps: usize) -> (text: String)
        requires
            old(self).wf(),
            old(self)@.phase is Idle,
        ensures
            final(self).wf(),
            final(self)@ == match ev {
                Recv::Reply { seq, at } => old(self)@.after_late(seq, at, steps),
                _ => old(self)@,
            },
            text@ == match ev {
                Recv::Reply { seq, at } => late_text(
                    old(self)@.strip,
                    old(self)@.palette,
                    old(self)@.probes,
                    seq,
                    at,
                ),
                _ => Seq::empty(),
            },
            *final(gap) == (Gap {
                listening: old(gap).listening && ev !is TimedOut,
                ..*old(gap)
            }),
    {
        match ev {
            Recv::Reply { seq: rseq, at } => self.late(rseq, at, steps),
            Recv::TimedOut { .. } => {
                gap.listening = false;
                String::new()
            },
            Recv::Interrupted => String::new(),
        }
    }

    /// The gap that pacing settled at and its peak, if drops engaged it.
    pub fn pace(&self) -> (r: Option<(u64, u64)>)
        ensures
            r == if self@.pacer.peak > 0 {
                Some((self@.pacer.delay, self@.pacer.peak))
            } else {
                None
            },
    {
        if self.pacer.peak > 0 {
            Some((self.pacer.delay, self.pacer.peak))
        } else {
            None
        }
    }

    /// Whether the target ever answered.
    pub fn had_replies(&self) -> (r: bool)
        requires
            self.wf(),
        ensures
            r == (self@.stats.samples.len() > 0),
    {
        self.stats.replies() > 0
    }
}

/// A gap between probes that is being held.
#[derive(Clone, Copy, Debug, PartialEq, Eq)]
pub struct Gap {
    /// When it ends.
    pub until: u64,
    /// Still listening on the socket; the rest is spun away.
    pub listening: bool,
}

/// What to do while a gap is held.
#[derive(Clone, Copy, Debug, PartialEq, Eq, Structural)]
pub enum GapStep {
    /// Listen on the socket until then.
    Listen { until: u64 },
    /// Spin until then; the gap is over.
    Spin { until: u64 },
    /// The user wants out: drop the rest of the gap.
    Leave,
}

/// Hold the inter-probe gap. Short gaps spin (the OS can't wake a sleeper
/// on a microsecond mark); longer gaps keep listening on the socket, so
/// late replies are timestamped on arrival and ^C stays responsive. Socket
/// wakeups carry ~1 ms of timer slack: listening stops 1 ms before the mark,
/// and the final stretch is spun to land on the microsecond.
pub fn wait_gap(gap: u64, now: u64) -> (r: Gap)
    ensures
        r == (Gap { until: later(now, gap), listening: gap >= SPIN_MAX }),
        r.wf(),
{
    Gap { until: instant_after(now, gap), listening: gap >= SPIN_MAX }
}

impl Gap {
    pub open spec fn wf(self) -> bool {
        self.listening ==> self.until >= SPIN_MAX
    }

    /// What to do next. An interrupt counts only while listening.
    pub fn step(&self, interrupted: bool) -> (r: GapStep)
        requires
            self.wf(),
        ensures
            r == if self.listening {
                if interrupted {
                    GapStep::Leave
                } else {
                    GapStep::Listen { until: (self.until - SPIN_MAX) as u64 }
                }
            } else {
                GapStep::Spin { until: self.until }
            },
    {
        if self.listening {
            if interrupted {
                GapStep::Leave
            } else {
                GapStep::Listen { until: self.until - SPIN_MAX }
            }
        } else {
            GapStep::Spin { until: self.until }
        }
    }
}

} // verus!
