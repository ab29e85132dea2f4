//! What a run says in words: the banner, the help text, the footer. Figures
//! that are fractions come as text.

use crate::args::USAGE;
use crate::color::{clock_rgb, rtt_rgb, Millis, Palette};
use crate::stats::{
    law_summary_ignores_order, summarizes, summary_of, Stats, StatsView, Summary,
};
use crate::term::{paint, painted, ColorMode};
use crate::text::{all_digits, decimal, digits_value, law_numbers_read_back, push_decimal};
use vstd::prelude::*;

verus! {

/// The line a run opens with.
pub open spec fn banner_text(target: Seq<char>, ip: Seq<char>, udp_port: Option<u16>) -> Seq<char> {
    "s80 "@ + target + " ("@ + ip + ")"@ + (match udp_port {
        Some(p) => " [udp:"@ + decimal(p as nat) + "]"@,
        None => Seq::empty(),
    }) + " — ^C for stats"@
}

/// The line a run opens with.
pub fn banner(target: &str, ip: &str, udp_port: Option<u16>) -> (r: String)
    ensures
        r@ == banner_text(target@, ip@, udp_port),
{
    let mut s = String::new();
    s.append("s80 ");
    s.append(target);
    s.append(" (");
    s.append(ip);
    s.append(")");
    if let Some(p) = udp_port {
        s.append(" [udp:");
        push_decimal(&mut s, p as u64);
        s.append("]");
    }
    s.append(" — ^C for stats");
    assert(s@ =~= banner_text(target@, ip@, udp_port));
    s
}

/// The name, drawn.
pub const ART: &'static str = r" ____    ___    ___
/ ___|  ( _ )  / _ \
\___ \  / _ \ | | | |
 ___) || (_) || |_| |
|____/  \___/  \___/";

/// A tick for each RTT, in its color.
pub open spec fn ticks(palette: Palette, rtts: Seq<Millis>, mode: ColorMode) -> Seq<char>
    decreases rtts.len(),
{
    if rtts.len() == 0 {
        Seq::empty()
    } else {
        ticks(palette, rtts.drop_last(), mode) + painted(
            "!"@,
            palette.shade_of(rtts.last()),
            mode,
        )
    }
}

/// Help gets the banner: the name, then ticks swept through the colormap,
/// then the usage.
pub open spec fn help_text(palette: Palette, sweep: Seq<Millis>, mode: ColorMode) -> Seq<char> {
    ART@ + "\n"@ + ticks(palette, sweep, mode) + "  0 -> 1500 ms\n\n"@ + USAGE@
}

/// The help text. `sweep` holds the RTTs whose colors are shown.
pub fn help(palette: &Palette, sweep: &Vec<Millis>, mode: ColorMode) -> (r: String)
    requires
        palette.wf(),
    ensures
        r@ == help_text(*palette, sweep@, mode),
{
    let mut s = String::new();
    s.append(ART);
    s.append("\n");
    let mut i: usize = 0;
    assert(s@ =~= ART@ + "\n"@ + ticks(*palette, sweep@.take(0), mode));
    while i < sweep.len()
        invariant
            palette.wf(),
            i <= sweep@.len(),
            s@ == ART@ + "\n"@ + ticks(*palette, sweep@.take(i as int), mode),
        decreases sweep@.len() - i,
    {
        let tick = paint("!", rtt_rgb(palette, sweep[i]), mode);
        s.append(tick.as_str());
        assert(sweep@.take(i + 1).drop_last() =~= sweep@.take(i as int));
        assert(s@ =~= ART@ + "\n"@ + ticks(*palette, sweep@.take(i + 1), mode));
        i += 1;
    }
    assert(sweep@.take(i as int) =~= sweep@);
    s.append("  0 -> 1500 ms\n\n");
    s.append(USAGE);
    assert(s@ =~= help_text(*palette, sweep@, mode));
    s
}

/// A figure in milliseconds, and how it prints.
pub struct Figure {
    pub rtt: Millis,
    pub text: String,
}

/// The RTT figures of a footer: how the least and the greatest RTT print, and
/// those that are fractions.
pub struct RttFigures {
    pub min: String,
    pub avg: Figure,
    pub p95: Figure,
    pub max: String,
}

/// The other figures of a footer that are fractions, as they print: shares
/// of the completed probes in percent, seconds, probes per second,
/// milliseconds.
pub struct Figures {
    pub late_share: String,
    pub lost_share: String,
    pub elapsed: String,
    pub rate: String,
    pub timeout: String,
}

/// Each figure wears the color its RTT would get as a `!`.
pub open spec fn figure_text(f: Figure, palette: Palette, mode: ColorMode) -> Seq<char> {
    painted(f.text@, palette.shade_of(f.rtt), mode)
}

/// The same for an RTT that the clock measured.
pub open spec fn extreme_text(rtt: u64, text: Seq<char>, palette: Palette, mode: ColorMode) -> Seq<
    char,
> {
    painted(text, palette.color_of(rtt), mode)
}

/// What was sent and heard, and how fast.
pub open spec fn replies_line(
    stats: StatsView,
    rtts: Option<RttFigures>,
    palette: Palette,
    mode: ColorMode,
) -> Seq<char> {
    match rtts {
        Some(f) => decimal(stats.sent as nat) + " probes  "@ + decimal(stats.samples.len())
            + " replies  min/avg/p95/max = "@ + extreme_text(
            summary_of(stats.samples).min,
            f.min@,
            palette,
            mode,
        ) + "/"@ + figure_text(f.avg, palette, mode) + "/"@ + figure_text(f.p95, palette, mode)
            + "/"@ + extreme_text(summary_of(stats.samples).max, f.max@, palette, mode) + " ms"@,
        None => decimal(stats.sent as nat) + " probes  0 replies"@,
    }
}

/// What went wrong, and the run's pace. Voided probes are mentioned where
/// there are any.
pub open spec fn losses_line(stats: StatsView, figures: Figures) -> Seq<char> {
    "late "@ + decimal(stats.late as nat) + " ("@ + figures.late_share@ + "%)  lost "@ + decimal(
        stats.lost as nat,
    ) + " ("@ + figures.lost_share@ + "%)"@ + (if stats.voided > 0 {
        "  voided "@ + decimal(stats.voided as nat)
    } else {
        Seq::empty()
    }) + "  elapsed "@ + figures.elapsed@ + "s  rate "@ + figures.rate@ + "/s  timeout "@
        + figures.timeout@ + "ms (autotuned)"@
}

/// Where pacing settled, and its peak, in milliseconds.
pub open spec fn pace_line(current: Seq<char>, peak: Seq<char>) -> Seq<char> {
    "auto-pace settled at "@ + current + "ms (peak "@ + peak
        + "ms) — drops triggered pacing; they still count as lost above"@
}

/// The footer, line by line.
pub open spec fn footer_text(
    target: Seq<char>,
    ip: Seq<char>,
    stats: StatsView,
    rtts: Option<RttFigures>,
    figures: Figures,
    pace: Option<(String, String)>,
    palette: Palette,
    mode: ColorMode,
) -> Seq<char> {
    "\n--- s80 "@ + target + " ("@ + ip + ") ---\n"@ + replies_line(stats, rtts, palette, mode)
        + "\n"@ + losses_line(stats, figures) + (match pace {
        Some((current, peak)) => "\n"@ + pace_line(current@, peak@),
        None => Seq::empty(),
    })
}

fn push_figure(s: &mut String, f: &Figure, palette: &Palette, mode: ColorMode)
    requires
        palette.wf(),
    ensures
        final(s)@ == old(s)@ + figure_text(*f, *palette, mode),
{
    let t = paint(f.text.as_str(), rtt_rgb(palette, f.rtt), mode);
    s.append(t.as_str());
}

fn push_extreme(s: &mut String, rtt: u64, text: &str, palette: &Palette, mode: ColorMode)
    requires
        palette.wf(),
    ensures
        final(s)@ == old(s)@ + extreme_text(rtt, text@, *palette, mode),
{
    let t = paint(text, clock_rgb(palette, rtt), mode);
    s.append(t.as_str());
}

fn push_replies_line(
    s: &mut String,
    stats: &Stats,
    rtts: &Option<RttFigures>,
    palette: &Palette,
    mode: ColorMode,
)
    requires
        stats.wf(),
        palette.wf(),
        rtts is Some ==> stats@.samples.len() > 0,
    ensures
        final(s)@ == old(s)@ + replies_line(stats@, *rtts, *palette, mode),
{
    let mut line = String::new();
    push_decimal(&mut line, stats.sent);
    assert(line@ =~= decimal(stats.sent as nat));
    let (least, greatest): (u64, u64) = match stats.summary() {
        Some(all) => (all.min, all.max),
        None => (0, 0),
    };
    match rtts {
        Some(f) => {
            line.append(" probes  ");
            push_decimal(&mut line, stats.replies());
            line.append(" replies  min/avg/p95/max = ");
            push_extreme(&mut line, least, f.min.as_str(), palette, mode);
            line.append("/");
            push_figure(&mut line, &f.avg, palette, mode);
            line.append("/");
            push_figure(&mut line, &f.p95, palette, mode);
            line.append("/");
            push_extreme(&mut line, greatest, f.max.as_str(), palette, mode);
            line.append(" ms");
        },
        None => {
            line.append(" probes  0 replies");
        },
    }
    s.append(line.as_str());
}

fn push_losses_line(s: &mut String, stats: &Stats, figures: &Figures)
    ensures
        final(s)@ == old(s)@ + losses_line(stats@, *figures),
{
    let mut line = String::new();
    line.append("late ");
    assert(line@ =~= "late "@);
    push_decimal(&mut line, stats.late);
    line.append(" (");
    line.append(figures.late_share.as_str());
    line.append("%)  lost ");
    push_decimal(&mut line, stats.lost);
    line.append(" (");
    line.append(figures.lost_share.as_str());
    line.append("%)");
    let mut voided = String::new();
    if stats.voided > 0 {
        voided.append("  voided ");
        assert(voided@ =~= "  voided "@);
        push_decimal(&mut voided, stats.voided);
    }
    line.append(voided.as_str());
    line.append("  elapsed ");
    line.append(figures.elapsed.as_str());
    line.append("s  rate ");
    line.append(figures.rate.as_str());
    line.append("/s  timeout ");
    line.append(figures.timeout.as_str());
    line.append("ms (autotuned)");
    s.append(line.as_str());
}

fn push_pace_line(s: &mut String, current: &str, peak: &str)
    ensures
        final(s)@ == old(s)@ + pace_line(current@, peak@),
{
    let mut line = String::new();
    line.append("auto-pace settled at ");
    assert(line@ =~= "auto-pace settled at "@);
    line.append(current);
    line.append("ms (peak ");
    line.append(peak);
    line.append("ms) — drops triggered pacing; they still count as lost above");
    s.append(line.as_str());
}

/// The footer of a run. There are RTT figures if and only if there was a
/// reply; `pace` is there if drops engaged pacing.
pub fn footer(
    target: &str,
    ip: &str,
    stats: &Stats,
    rtts: &Option<RttFigures>,
    figures: &Figures,
    pace: &Option<(String, String)>,
    palette: &Palette,
    mode: ColorMode,
) -> (r: String)
    requires
        stats.wf(),
        palette.wf(),
        rtts is Some <==> stats@.samples.len() > 0,
    ensures
        r@ == footer_text(
            target@,
            ip@,
            stats@,
            *rtts,
            *figures,
            *pace,
            *palette,
            mode,
        ),
{
    let mut s = String::new();
    s.append("\n--- s80 ");
    assert(s@ =~= "\n--- s80 "@);
    s.append(target);
    s.append(" (");
    s.append(ip);
    s.append(") ---\n");
    push_replies_line(&mut s, stats, rtts, palette, mode);
    s.append("\n");
    push_losses_line(&mut s, stats, figures);
    let mut end = String::new();
    match pace {
        Some((current, peak)) => {
            end.append("\n");
            assert(end@ =~= "\n"@);
            push_pace_line(&mut end, current.as_str(), peak.as_str());
        },
        None => {},
    }
    s.append(end.as_str());
    s
}

/// The first line of figures, read from the left: the number of probes, the
/// number of replies, then the least RTT, the average, the p95 and the
/// greatest, each in the color of its RTT. `all` is the summary of the run.
/// The result is the two numbers as they stand there.
pub proof fn law_replies_line_reads(
    stats: StatsView,
    f: RttFigures,
    palette: Palette,
    mode: ColorMode,
    all: Summary,
) -> (d: (Seq<char>, Seq<char>))
    requires
        stats.sent >= 0,
        summarizes(all, stats.samples),
    ensures
        all_digits(d.0) && digits_value(d.0) == stats.sent,
        all_digits(d.1) && digits_value(d.1) == stats.samples.len(),
        replies_line(stats, Some(f), palette, mode) == d.0 + " probes  "@ + d.1
            + " replies  min/avg/p95/max = "@ + painted(f.min@, palette.color_of(all.min), mode)
            + "/"@ + painted(f.avg.text@, palette.shade_of(f.avg.rtt), mode) + "/"@ + painted(
            f.p95.text@,
            palette.shade_of(f.p95.rtt),
            mode,
        ) + "/"@ + painted(f.max@, palette.color_of(all.max), mode) + " ms"@,
        replies_line(stats, None, palette, mode) == d.0 + " probes  0 replies"@,
{
    law_numbers_read_back(stats.sent as nat, u64::MAX);
    law_numbers_read_back(stats.samples.len(), u64::MAX);
    law_summary_ignores_order(stats.samples, stats.samples, all, summary_of(stats.samples));
    (decimal(stats.sent as nat), decimal(stats.samples.len()))
}

/// The second line, read from the left: the late replies and their share, the
/// losses and theirs, the voided probes if there are any, then how long the
/// run took, its rate and its timeout. The result is the numbers as they
/// stand there.
pub proof fn law_losses_line_reads(stats: StatsView, f: Figures) -> (d: (
    Seq<char>,
    Seq<char>,
    Seq<char>,
))
    requires
        stats.late >= 0,
        stats.lost >= 0,
        stats.voided >= 0,
    ensures
        all_digits(d.0) && digits_value(d.0) == stats.late,
        all_digits(d.1) && digits_value(d.1) == stats.lost,
        all_digits(d.2) && digits_value(d.2) == stats.voided,
        stats.voided == 0 ==> losses_line(stats, f) == "late "@ + d.0 + " ("@ + f.late_share@
            + "%)  lost "@ + d.1 + " ("@ + f.lost_share@ + "%)"@ + "  elapsed "@ + f.elapsed@
            + "s  rate "@ + f.rate@ + "/s  timeout "@ + f.timeout@ + "ms (autotuned)"@,
        stats.voided > 0 ==> losses_line(stats, f) == "late "@ + d.0 + " ("@ + f.late_share@
            + "%)  lost "@ + d.1 + " ("@ + f.lost_share@ + "%)"@ + ("  voided "@ + d.2)
            + "  elapsed "@ + f.elapsed@ + "s  rate "@ + f.rate@ + "/s  timeout "@ + f.timeout@
            + "ms (autotuned)"@,
{
    law_numbers_read_back(stats.late as nat, u64::MAX);
    law_numbers_read_back(stats.lost as nat, u64::MAX);
    law_numbers_read_back(stats.voided as nat, u64::MAX);
    let upto = "late "@ + decimal(stats.late as nat) + " ("@ + f.late_share@ + "%)  lost "@
        + decimal(stats.lost as nat) + " ("@ + f.lost_share@ + "%)"@;
    assert(upto + Seq::<char>::empty() =~= upto);
    (decimal(stats.late as nat), decimal(stats.lost as nat), decimal(stats.voided as nat))
}

/// The footer is a title, the two lines, and a third where drops engaged
/// pacing.
pub proof fn law_footer_line_by_line(
    target: Seq<char>,
    ip: Seq<char>,
    stats: StatsView,
    rtts: Option<RttFigures>,
    figures: Figures,
    current: String,
    peak: String,
    palette: Palette,
    mode: ColorMode,
)
    ensures
        ({
            let two = "\n--- s80 "@ + target + " ("@ + ip + ") ---\n"@ + replies_line(
                stats,
                rtts,
                palette,
                mode,
            ) + "\n"@ + losses_line(stats, figures);
            &&& footer_text(target, ip, stats, rtts, figures, None, palette, mode) == two
            &&& footer_text(
                target,
                ip,
                stats,
                rtts,
                figures,
                Some((current, peak)),
                palette,
                mode,
            ) == two + ("\n"@ + ("auto-pace settled at "@ + current@ + "ms (peak "@ + peak@
                + "ms) — drops triggered pacing; they still count as lost above"@))
        }),
{
    let two = "\n--- s80 "@ + target + " ("@ + ip + ") ---\n"@ + replies_line(
        stats,
        rtts,
        palette,
        mode,
    ) + "\n"@ + losses_line(stats, figures);
    assert(two + Seq::<char>::empty() =~= two);
}

/// The opening line names the target and its address, and for UDP the port:
/// the result is the port as it stands there.
pub proof fn law_banner_reads(target: Seq<char>, ip: Seq<char>, port: u16) -> (d: Seq<char>)
    ensures
        all_digits(d) && digits_value(d) == port,
        banner_text(target, ip, None) == "s80 "@ + target + " ("@ + ip + ")"@
            + " — ^C for stats"@,
        banner_text(target, ip, Some(port)) == "s80 "@ + target + " ("@ + ip + ")"@ + (" [udp:"@ + d
            + "]"@) + " — ^C for stats"@,
{
    law_numbers_read_back(port as nat, u64::MAX);
    let upto = "s80 "@ + target + " ("@ + ip + ")"@;
    assert(upto + Seq::<char>::empty() =~= upto);
    decimal(port as nat)
}

/// The help text sweeps through the wheel: one tick for each RTT, in the
/// order and the color of each.
pub proof fn law_one_tick_for_each_rtt(
    palette: Palette,
    rtts: Seq<Millis>,
    rtt: Millis,
    mode: ColorMode,
)
    ensures
        ticks(palette, Seq::<Millis>::empty(), mode) == Seq::<char>::empty(),
        ticks(palette, rtts.push(rtt), mode) == ticks(palette, rtts, mode) + painted(
            "!"@,
            palette.shade_of(rtt),
            mode,
        ),
        help_text(palette, rtts, mode) == ART@ + "\n"@ + ticks(palette, rtts, mode)
            + "  0 -> 1500 ms\n\n"@ + USAGE@,
{
    assert(rtts.push(rtt).drop_last() =~= rtts);
}

} // verus!
