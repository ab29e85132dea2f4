//! Output is pipeable: where there is no terminal, nothing that a run writes
//! holds an escape.

use crate::color::{Millis, Palette};
use crate::late::late_text;
use crate::probe::Recv;
use crate::report::{
    banner_text, figure_text, footer_text, losses_line, pace_line, replies_line, ticks, Figure,
    Figures, RttFigures,
};
use crate::run::{pacing_note, send_error_note, stall_note, SessionView};
use crate::screen::lemma_decimal;
use crate::stats::{summary_of, StatsView};
use crate::term::{
    ansi_under, glyph_text, has_no_escape, law_paint_without_color_is_plain, mode_under,
    ColorChoice, ColorMode,
};
use crate::text::decimal;
use vstd::prelude::*;

verus! {

/// Color is switched off, or left to a terminal that is not there.
pub open spec fn is_piped(choice: ColorChoice, is_tty: bool) -> bool {
    choice == ColorChoice::Never || (choice == ColorChoice::Auto && !is_tty)
}

broadcast proof fn lemma_joined(a: Seq<char>, b: Seq<char>)
    requires
        has_no_escape(a),
        has_no_escape(b),
    ensures
        #[trigger] has_no_escape(a + b),
{
}

broadcast proof fn lemma_number(n: nat)
    ensures
        #[trigger] has_no_escape(decimal(n)),
{
    lemma_decimal(n);
}

/// A piped run starts with a strip that knows no terminal, and keeps it;
/// every text that comes out of it (glyphs, notes, whatever the socket
/// reports) is without escapes, and late replies cause no output at all. The
/// words of an error are the system's: they have to be plain themselves.
pub proof fn law_a_piped_run_writes_no_escape(
    choice: ColorChoice,
    is_tty: bool,
    s: SessionView,
    ev: Recv,
    steps: usize,
    error: Seq<char>,
    time: u64,
    rseq: u32,
)
    requires
        is_piped(choice, is_tty),
        s.wf(),
        s.strip.ansi == ansi_under(choice, is_tty),
        has_no_escape(error),
    ensures
        has_no_escape(s.send_error_text(error)),
        has_no_escape(s.recv_text(ev)),
        has_no_escape(s.settle_text()),
        late_text(s.strip, s.palette, s.probes, rseq, time) == Seq::<char>::empty(),
        s.after_send(time).strip.ansi == s.strip.ansi,
        s.after_send_error().strip.ansi == s.strip.ansi,
        s.after_recv(ev, steps).strip.ansi == s.strip.ansi,
        s.after_late(rseq, time, steps).strip.ansi == s.strip.ansi,
        s.after_settle(time).strip.ansi == s.strip.ansi,
{
    broadcast use {lemma_joined, lemma_number};

    reveal_strlit("\n");
    reveal_strlit("[send error: ");
    reveal_strlit(" — pausing]");
    reveal_strlit("[stall ");
    reveal_strlit("ms — sample voided]");
    reveal_strlit("[drops on udp — auto-pacing engaged]");
    assert(s.strip.mode == ColorMode::Plain);
    assert(has_no_escape(send_error_note(error)));
    assert(has_no_escape(pacing_note()));
    match ev {
        Recv::Reply { seq, at } => {
            let color = s.palette.color_of(s.flight_rtt(at));
            law_paint_without_color_is_plain(seq!['!'], color);
            assert(glyph_text('!', Some(color), s.strip.mode) == seq!['!']);
        },
        Recv::TimedOut { overshoot } => {
            assert(has_no_escape(stall_note(overshoot)));
            assert(glyph_text('.', None, s.strip.mode) == seq!['.']);
        },
        Recv::Interrupted => {},
    }
}

/// The figures of a footer print without escapes.
pub open spec fn plain_figures(
    rtts: Option<RttFigures>,
    figures: Figures,
    pace: Option<(String, String)>,
) -> bool {
    &&& rtts matches Some(f) ==> has_no_escape(f.min@) && has_no_escape(f.avg.text@)
        && has_no_escape(f.p95.text@) && has_no_escape(f.max@)
    &&& has_no_escape(figures.late_share@)
    &&& has_no_escape(figures.lost_share@)
    &&& has_no_escape(figures.elapsed@)
    &&& has_no_escape(figures.rate@)
    &&& has_no_escape(figures.timeout@)
    &&& pace matches Some((current, peak)) ==> has_no_escape(current@) && has_no_escape(peak@)
}

/// A figure without color is its text.
proof fn lemma_figure(f: Figure, palette: Palette)
    ensures
        figure_text(f, palette, ColorMode::Plain) == f.text@,
{
    law_paint_without_color_is_plain(f.text@, palette.shade_of(f.rtt));
}

proof fn lemma_replies_line(stats: StatsView, rtts: Option<RttFigures>, palette: Palette)
    requires
        rtts matches Some(f) ==> has_no_escape(f.min@) && has_no_escape(f.avg.text@)
            && has_no_escape(f.p95.text@) && has_no_escape(f.max@),
    ensures
        has_no_escape(replies_line(stats, rtts, palette, ColorMode::Plain)),
{
    broadcast use {lemma_joined, lemma_number};

    reveal_strlit(" probes  ");
    reveal_strlit(" replies  min/avg/p95/max = ");
    reveal_strlit("/");
    reveal_strlit(" ms");
    reveal_strlit(" probes  0 replies");
    if let Some(f) = rtts {
        law_paint_without_color_is_plain(f.min@, palette.color_of(summary_of(stats.samples).min));
        lemma_figure(f.avg, palette);
        lemma_figure(f.p95, palette);
        law_paint_without_color_is_plain(f.max@, palette.color_of(summary_of(stats.samples).max));
    }
}

proof fn lemma_losses_line(stats: StatsView, figures: Figures)
    requires
        plain_figures(None, figures, None),
    ensures
        has_no_escape(losses_line(stats, figures)),
{
    broadcast use {lemma_joined, lemma_number};

    let lost = "late "@ + decimal(stats.late as nat) + " ("@ + figures.late_share@ + "%)  lost "@
        + decimal(stats.lost as nat) + " ("@ + figures.lost_share@ + "%)"@;
    assert(has_no_escape(lost)) by {
        reveal_strlit("late ");
        reveal_strlit(" (");
        reveal_strlit("%)  lost ");
        reveal_strlit("%)");
    }
    let voided = if stats.voided > 0 {
        "  voided "@ + decimal(stats.voided as nat)
    } else {
        Seq::empty()
    };
    assert(has_no_escape(voided)) by {
        reveal_strlit("  voided ");
    }
    let pace = lost + voided + "  elapsed "@ + figures.elapsed@ + "s  rate "@ + figures.rate@;
    assert(has_no_escape(pace)) by {
        reveal_strlit("  elapsed ");
        reveal_strlit("s  rate ");
    }
    assert(has_no_escape(pace + "/s  timeout "@ + figures.timeout@ + "ms (autotuned)"@)) by {
        reveal_strlit("/s  timeout ");
        reveal_strlit("ms (autotuned)");
    }
}

/// The opening line and the footer of a piped run hold no escape either,
/// whatever the terminal claims and whatever palette is forced, if the words
/// that they are made of hold none.
pub proof fn law_piped_words_hold_no_escape(
    choice: ColorChoice,
    is_tty: bool,
    force_256: bool,
    truecolor: bool,
    target: Seq<char>,
    ip: Seq<char>,
    udp_port: Option<u16>,
    stats: StatsView,
    rtts: Option<RttFigures>,
    figures: Figures,
    pace: Option<(String, String)>,
    palette: Palette,
)
    requires
        is_piped(choice, is_tty),
        has_no_escape(target),
        has_no_escape(ip),
        plain_figures(rtts, figures, pace),
    ensures
        has_no_escape(banner_text(target, ip, udp_port)),
        has_no_escape(
            footer_text(
                target,
                ip,
                stats,
                rtts,
                figures,
                pace,
                palette,
                mode_under(ansi_under(choice, is_tty), force_256, truecolor),
            ),
        ),
{
    broadcast use {lemma_joined, lemma_number};

    reveal_strlit("s80 ");
    reveal_strlit(" (");
    reveal_strlit(")");
    reveal_strlit(" [udp:");
    reveal_strlit("]");
    reveal_strlit(" — ^C for stats");
    reveal_strlit("\n--- s80 ");
    reveal_strlit(") ---\n");
    reveal_strlit("\n");
    reveal_strlit("auto-pace settled at ");
    reveal_strlit("ms (peak ");
    reveal_strlit("ms) — drops triggered pacing; they still count as lost above");
    lemma_replies_line(stats, rtts, palette);
    lemma_losses_line(stats, figures);
    if let Some((current, peak)) = pace {
        assert(has_no_escape(pace_line(current@, peak@)));
    }
}

/// The ticks of the help text are bare where color is off.
pub proof fn law_plain_ticks_hold_no_escape(palette: Palette, rtts: Seq<Millis>)
    ensures
        has_no_escape(ticks(palette, rtts, ColorMode::Plain)),
    decreases rtts.len(),
{
    broadcast use lemma_joined;

    if rtts.len() > 0 {
        law_plain_ticks_hold_no_escape(palette, rtts.drop_last());
        reveal_strlit("!");
        law_paint_without_color_is_plain("!"@, palette.shade_of(rtts.last()));
    }
}

} // verus!
