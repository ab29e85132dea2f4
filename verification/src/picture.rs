//! The screen follows the run: every timed-out probe that may still be
//! answered has a `.` of its own on the terminal, until a late reply turns
//! that `.`, and no other, into a `,`. That holds as long as every note fits
//! a line of the terminal: the strip counts one row for each.

use crate::late::{awaited, late_text, span, ProbeView};
use crate::probe::Recv;
use crate::run::{pacing_note, send_error_note, stall_note, SessionView, STALL_SLOP};
use crate::screen::{
    is_plain, law_note_breaks_the_strip, law_put_shows_the_glyph, law_repaint_is_in_place,
    lemma_decimal, same_cell, Screen,
};
use crate::term::{before, PosView};
use crate::text::decimal;
use vstd::prelude::*;

verus! {

/// The cell of a waiting probe's `.`.
pub open spec fn dot_of(s: SessionView, k: u32) -> PosView {
    s.probes[k].pos->0
}

/// The `.` of waiting probe `k` is on the terminal, behind the cursor.
pub open spec fn has_dot(s: SessionView, sc: Screen, k: u32) -> bool {
    &&& s.probes[k].pos is Some
    &&& 0 <= dot_of(s, k).col < s.strip.width
    &&& before(dot_of(s, k), s.strip.cursor())
    &&& sc.cells.contains_pair((dot_of(s, k).row, dot_of(s, k).col), '.')
}

/// The terminal shows what the run knows: it is as wide as the strip has it,
/// the cursor is where the strip has it, every waiting probe has its `.`, and no two share a cell.
pub open spec fn depicts(sc: Screen, s: SessionView) -> bool {
    &&& sc.width == s.strip.width
    &&& sc.cursor() == s.strip.cursor()
    &&& forall|k: u32| #[trigger] s.waiting().contains(k) ==> has_dot(s, sc, k)
    &&& forall|j: u32, k: u32|
        #![trigger s.waiting().contains(j), s.waiting().contains(k)]
        s.waiting().contains(j) && s.waiting().contains(k) && j != k ==> dot_of(s, j) != dot_of(
            s,
            k,
        )
}

/// The cells of all waiting probes are untouched, the strip moved on, and
/// nobody new waits.
proof fn lemma_still_depicts(s: SessionView, t: SessionView, sc: Screen, td: Screen)
    requires
        depicts(sc, s),
        t.strip.width == s.strip.width,
        td.width == sc.width,
        td.cursor() == t.strip.cursor(),
        s.strip.cursor() == t.strip.cursor() || before(s.strip.cursor(), t.strip.cursor()),
        forall|k: u32| #[trigger]
            t.waiting().contains(k) ==> s.waiting().contains(k) && t.probes[k] == s.probes[k]
                && same_cell(td, sc, dot_of(s, k).row, dot_of(s, k).col),
    ensures
        depicts(td, t),
{
    assert forall|k: u32| #[trigger] t.waiting().contains(k) implies has_dot(t, td, k) by {
        assert(s.waiting().contains(k));
        assert(has_dot(s, sc, k));
    }
    assert forall|j: u32, k: u32|
        #![trigger t.waiting().contains(j), t.waiting().contains(k)]
        t.waiting().contains(j) && t.waiting().contains(k) && j != k implies dot_of(t, j) != dot_of(
        t,
        k,
    ) by {
        assert(s.waiting().contains(j) && s.waiting().contains(k));
    }
}

/// A run starts with a true picture: nothing waits.
pub proof fn law_start_is_depicted(s: SessionView, sc: Screen)
    requires
        s.wf(),
        s.phase is Idle,
        s.probes == Map::<u32, ProbeView>::empty(),
        sc.width == s.strip.width,
        sc.cursor() == s.strip.cursor(),
    ensures
        depicts(sc, s),
{
}

/// Sending draws nothing, and leaves the picture true. (A sequence number
/// that comes round again takes the place of a probe that still waited under
/// it.)
pub proof fn law_send_leaves_the_picture(s: SessionView, sc: Screen, sent_at: u64)
    requires
        s.wf(),
        s.phase is Idle,
        depicts(sc, s),
    ensures
        depicts(sc, s.after_send(sent_at)),
{
    let t = s.after_send(sent_at);
    lemma_still_depicts(s, t, sc, sc);
}

/// A note about a refused send leaves the picture true, if the error's own
/// text is plain and the note fits a line.
pub proof fn law_send_error_leaves_the_picture(s: SessionView, sc: Screen, error: Seq<char>)
    requires
        s.wf(),
        s.phase is Idle,
        depicts(sc, s),
        is_plain(error),
        !s.send_err_noted ==> send_error_note(error).len() <= s.strip.width,
    ensures
        depicts(sc.shown(s.send_error_text(error)), s.after_send_error()),
{
    let t = s.after_send_error();
    let td = sc.shown(s.send_error_text(error));
    reveal_strlit("[send error: ");
    reveal_strlit(" — pausing]");
    if !s.send_err_noted {
        assert(is_plain(send_error_note(error)));
        law_note_breaks_the_strip(s.strip, sc, send_error_note(error));
        lemma_note_keeps_dots(s, sc, td);
    }
    lemma_still_depicts(s, t, sc, td);
}

/// Where the rows of the strip so far are untouched, so are the dots.
proof fn lemma_note_keeps_dots(s: SessionView, sc: Screen, td: Screen)
    requires
        depicts(sc, s),
        forall|r: int, c: int|
            r < s.strip.row || (r == s.strip.row && s.strip.col > 0) ==> #[trigger] same_cell(
                td,
                sc,
                r,
                c,
            ),
    ensures
        forall|k: u32| #[trigger]
            s.waiting().contains(k) ==> same_cell(td, sc, dot_of(s, k).row, dot_of(s, k).col),
{
    assert forall|k: u32| #[trigger] s.waiting().contains(k) implies same_cell(
        td,
        sc,
        dot_of(s, k).row,
        dot_of(s, k).col,
    ) by {
        assert(has_dot(s, sc, k));
    }
}

/// A late reply turns its own `.` into a `,` where that is still on screen,
/// touches no other cell, and leaves the picture true.
pub proof fn law_late_reply_repaints_its_own_dot(
    s: SessionView,
    sc: Screen,
    rseq: u32,
    at: u64,
    steps: usize,
)
    requires
        s.wf(),
        s.phase is InFlight ==> rseq != s.seq,
        depicts(sc, s),
    ensures
        ({
            let td = sc.shown(late_text(s.strip, s.palette, s.probes, rseq, at));
            &&& depicts(td, s.after_late(rseq, at, steps))
            &&& s.probes.contains_key(rseq) && s.strip.ansi && s.strip.shows(dot_of(s, rseq))
                ==> td.cells == sc.cells.insert(
                (dot_of(s, rseq).row, dot_of(s, rseq).col),
                ',',
            )
            &&& !(s.probes.contains_key(rseq) && s.strip.ansi && s.strip.shows(dot_of(s, rseq)))
                ==> td.cells == sc.cells
        }),
{
    let t = s.after_late(rseq, at, steps);
    let td = sc.shown(late_text(s.strip, s.palette, s.probes, rseq, at));
    if s.probes.contains_key(rseq) {
        assert(s.waiting().contains(rseq));
        assert(has_dot(s, sc, rseq));
        law_repaint_is_in_place(
            s.strip,
            sc,
            dot_of(s, rseq),
            ',',
            Some(s.palette.color_of(span(s.probes[rseq].sent, at))),
        );
        assert forall|k: u32| #[trigger] t.waiting().contains(k) implies s.waiting().contains(k)
            && t.probes[k] == s.probes[k] && same_cell(
            td,
            sc,
            dot_of(s, k).row,
            dot_of(s, k).col,
        ) by {
            assert(s.waiting().contains(k) && s.waiting().contains(rseq) && k != rseq);
            assert(dot_of(s, k) != dot_of(s, rseq));
        }
    }
    lemma_still_depicts(s, t, sc, td);
}

proof fn lemma_stall_note_is_plain(overshoot: u64)
    ensures
        is_plain(stall_note(overshoot)),
{
    reveal_strlit("[stall ");
    reveal_strlit("ms — sample voided]");
    let ms = decimal((overshoot / 1_000_000) as nat);
    lemma_decimal((overshoot / 1_000_000) as nat);
    let a = "[stall "@;
    let t = stall_note(overshoot);
    assert forall|i: int| 0 <= i < t.len() implies #[trigger] t[i] != '\n' && t[i] != '\x1b' by {
        if a.len() <= i < a.len() + ms.len() {
            assert(t[i] == ms[i - a.len()]);
        }
    }
}

/// Whatever the socket reports, the terminal goes on showing what the run
/// knows: a loss gets its `.`, and nothing disturbs the others. (The note of
/// a stall has to fit a line.)
pub proof fn law_recv_leaves_the_picture(s: SessionView, sc: Screen, ev: Recv, steps: usize)
    requires
        s.wf(),
        s.phase is InFlight,
        depicts(sc, s),
        ev matches Recv::TimedOut { overshoot } ==> overshoot > STALL_SLOP ==> stall_note(
            overshoot,
        ).len() <= s.strip.width,
    ensures
        depicts(sc.shown(s.recv_text(ev)), s.after_recv(ev, steps)),
{
    let t = s.after_recv(ev, steps);
    let td = sc.shown(s.recv_text(ev));
    match ev {
        Recv::Reply { seq, at } => {
            if seq == s.seq {
                law_put_shows_the_glyph(
                    s.strip,
                    sc,
                    '!',
                    Some(s.palette.color_of(s.flight_rtt(at))),
                );
                assert forall|k: u32| #[trigger] t.waiting().contains(k) implies s.waiting().contains(
                    k,
                ) && t.probes[k] == s.probes[k] && same_cell(
                    td,
                    sc,
                    dot_of(s, k).row,
                    dot_of(s, k).col,
                ) by {
                    assert(s.waiting().contains(k));
                    assert(has_dot(s, sc, k));
                }
                lemma_still_depicts(s, t, sc, td);
            } else {
                law_late_reply_repaints_its_own_dot(s, sc, seq, at, steps);
            }
        },
        Recv::TimedOut { overshoot } => {
            if overshoot > STALL_SLOP {
                lemma_stall_note_is_plain(overshoot);
                law_note_breaks_the_strip(s.strip, sc, stall_note(overshoot));
                lemma_note_keeps_dots(s, sc, td);
                assert forall|k: u32| #[trigger] t.waiting().contains(k) implies s.waiting().contains(
                    k,
                ) && t.probes[k] == s.probes[k] by {
                    assert(s.waiting().contains(k));
                }
                lemma_still_depicts(s, t, sc, td);
            } else {
                law_put_shows_the_glyph(s.strip, sc, '.', None);
                assert forall|k: u32| #[trigger] t.waiting().contains(k) implies has_dot(
                    t,
                    td,
                    k,
                ) by {
                    if k != s.seq {
                        assert(s.waiting().contains(k));
                        assert(has_dot(s, sc, k));
                    }
                }
                assert forall|j: u32, k: u32|
                    #![trigger t.waiting().contains(j), t.waiting().contains(k)]
                    t.waiting().contains(j) && t.waiting().contains(k) && j != k implies dot_of(t, j)
                    != dot_of(t, k) by {
                    if j != s.seq {
                        assert(s.waiting().contains(j));
                        assert(has_dot(s, sc, j));
                    }
                    if k != s.seq {
                        assert(s.waiting().contains(k));
                        assert(has_dot(s, sc, k));
                    }
                }
            }
        },
        Recv::Interrupted => {},
    }
}

/// So does settling. (The note of the first drop has to fit a line.)
pub proof fn law_settle_leaves_the_picture(s: SessionView, sc: Screen, now: u64)
    requires
        s.wf(),
        s.phase is Settling,
        depicts(sc, s),
        s.first_drop() ==> pacing_note().len() <= s.strip.width,
    ensures
        depicts(sc.shown(s.settle_text()), s.after_settle(now)),
{
    let t = s.after_settle(now);
    let td = sc.shown(s.settle_text());
    if s.first_drop() {
        reveal_strlit("[drops on udp — auto-pacing engaged]");
        assert(is_plain(pacing_note()));
        law_note_breaks_the_strip(s.strip, sc, pacing_note());
        lemma_note_keeps_dots(s, sc, td);
    }
    assert forall|k: u32| #[trigger] t.waiting().contains(k) implies s.waiting().contains(k)
        && t.probes[k] == s.probes[k] by {
        assert(awaited(s.probes, now).contains_key(k));
    }
    lemma_still_depicts(s, t, sc, td);
}

} // verus!
