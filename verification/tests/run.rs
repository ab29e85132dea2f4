//! Whole runs, event by event.

use s80::args::{parse_args, Args, Limit, Parsed, Reading, Word};
use s80::color::Palette;
use s80::probe::Recv;
use s80::run::{wait_gap, Gap, GapStep, Next, Outcome, Phase, Session};
use s80::term::{ColorMode, Strip};

const MS: u64 = 1_000_000;

/// A wheel with one color below 1 ms and one above.
fn palette() -> Palette {
    Palette::new(vec![(0, 0, 255); 100], vec![(0, 255, 0); 1500])
}

fn args(words: &[&str]) -> Args {
    let words: Vec<Word> = words
        .iter()
        .map(|t| Word {
            text: t.to_string(),
            secs: Reading::Span(2_000 * MS),
            millis: Reading::Span(5 * MS),
        })
        .collect();
    match parse_args(&words) {
        Ok(Parsed::Run(a)) => a,
        _ => panic!("not a run"),
    }
}

fn session(words: &[&str]) -> Session {
    Session::new(&args(words), 0, Strip::new(true, ColorMode::C256, Some((80, 24))), palette())
}

fn tally(s: &Session) -> (u64, u64, u64, u64, u64) {
    (s.stats.sent, s.stats.replies(), s.stats.late, s.stats.lost, s.stats.voided)
}

#[test]
fn replies_clock_the_run() {
    let mut s = session(&["gw", "-c", "2"]);
    assert!(s.more(false, 0));
    assert!(!s.more(true, 0));
    assert_eq!(s.sent(100), 100 + 1000 * MS);
    assert_eq!(s.rtt_of(0, 100 + 7 * MS), Some(7 * MS));
    assert_eq!(s.rtt_of(1, 100), None);
    let (next, text) = s.on_recv(Recv::Reply { seq: 0, at: 100 + 7 * MS }, 11162, false);
    assert_eq!(next, Next::Settle);
    assert_eq!(text, "\x1b[38;5;46m!\x1b[0m");
    assert_eq!(s.settle(100 + 7 * MS), "");
    assert_eq!(tally(&s), (1, 1, 0, 0, 0));
    // 4 x 7 ms is under the floor of 250 ms
    assert_eq!(s.tuner.cur, 250 * MS);
    assert_eq!(s.seq, 1);
    assert_eq!(s.gap_due(false, 0), None);
    assert!(s.more(false, 0));
    assert_eq!(s.sent(8 * MS), 258 * MS);
    // a sub-ms reply is on the blue side
    let (_, text) = s.on_recv(Recv::Reply { seq: 1, at: 8 * MS + 500_000 }, 8521, false);
    assert_eq!(text, "\x1b[38;5;21m!\x1b[0m");
    s.settle(9 * MS);
    assert!(!s.more(false, 0));
    assert!(s.had_replies());
    assert_eq!(s.pace(), None);
}

#[test]
fn a_timeout_then_a_late_reply() {
    let mut s = session(&["gw"]);
    s.sent(0);
    let (next, text) = s.on_recv(Recv::TimedOut { overshoot: 300 * MS }, 0, false);
    assert_eq!((next, text.as_str()), (Next::Settle, "."));
    assert_eq!(s.phase, Phase::Settling { outcome: Outcome::Lost });
    s.settle(1300 * MS);
    assert_eq!(tally(&s), (1, 0, 0, 1, 0));
    assert_eq!(s.tuner.cur, 1500 * MS);
    assert!(!s.had_replies());
    // the next probe is in flight when the first one's reply arrives
    s.sent(1300 * MS);
    let (next, text) = s.on_recv(Recv::Reply { seq: 0, at: 1400 * MS }, 16_000, false);
    assert_eq!(next, Next::Listen);
    assert_eq!(text, "\x1b7\x1b[1G\x1b[38;5;46m,\x1b[0m\x1b8");
    assert_eq!(tally(&s), (2, 1, 1, 0, 0));
    // again: unknown by now
    let (next, text) = s.on_recv(Recv::Reply { seq: 0, at: 1401 * MS }, 16_000, false);
    assert_eq!((next, text.as_str()), (Next::Listen, ""));
    assert_eq!(tally(&s), (2, 1, 1, 0, 0));
    let (next, _) = s.on_recv(Recv::Reply { seq: 1, at: 1500 * MS }, 16_000, false);
    assert_eq!(next, Next::Settle);
    s.settle(1500 * MS);
    assert_eq!(tally(&s), (2, 2, 1, 0, 0));
}

#[test]
fn past_the_late_window_it_stays_lost() {
    let mut s = session(&["gw"]);
    s.sent(0);
    s.on_recv(Recv::TimedOut { overshoot: 0 }, 0, false);
    s.settle(9_999 * MS);
    assert_eq!(s.rtt_of(0, 10_000 * MS), Some(10_000 * MS));
    s.sent(9_999 * MS);
    s.on_recv(Recv::TimedOut { overshoot: 0 }, 0, false);
    s.settle(10_000 * MS);
    assert_eq!(s.rtt_of(0, 10_001 * MS), None);
    assert_eq!(s.rtt_of(1, 10_001 * MS), Some(2 * MS));
    assert_eq!(tally(&s), (2, 0, 0, 2, 0));
}

#[test]
fn a_stall_is_voided() {
    let mut s = session(&["gw"]);
    s.sent(0);
    let (next, text) = s.on_recv(Recv::TimedOut { overshoot: 300 * MS + 1 }, 0, false);
    assert_eq!((next, text.as_str()), (Next::Settle, "[stall 300ms — sample voided]\n"));
    s.settle(0);
    assert_eq!(tally(&s), (1, 0, 0, 0, 1));
    assert_eq!(s.tuner.cur, 1000 * MS);
    assert_eq!(s.rtt_of(0, 1), None);
}

#[test]
fn interrupts() {
    let mut s = session(&["gw"]);
    s.sent(0);
    assert_eq!(s.on_recv(Recv::Interrupted, 0, false), (Next::Listen, String::new()));
    assert_eq!(s.on_recv(Recv::Interrupted, 0, true), (Next::Stop, String::new()));
    assert_eq!(tally(&s), (1, 0, 0, 0, 0));
}

#[test]
fn send_errors_pause_and_are_noted_once() {
    let mut s = session(&["gw"]);
    assert_eq!(s.send_failed(false, "broken"), None);
    assert_eq!(tally(&s), (0, 0, 0, 0, 0));
    assert_eq!(
        s.send_failed(true, "Network is down"),
        Some((1000 * MS, "[send error: Network is down — pausing]\n".to_string()))
    );
    assert_eq!(s.send_failed(true, "Network is down"), Some((1000 * MS, String::new())));
    assert_eq!(tally(&s), (2, 0, 0, 0, 2));
    assert_eq!(s.seq, 2);
    assert_eq!((s.tuner.cur, s.pace()), (1000 * MS, None));
    s.sent(0);
    assert_eq!(s.phase, Phase::InFlight { sent_at: 0 });
    s.on_recv(Recv::Reply { seq: 2, at: 1 }, 0, false);
    s.settle(1);
    let (_, text) = s.send_failed(true, "again").unwrap();
    assert_eq!(text, "\n[send error: again — pausing]\n");
}

#[test]
fn udp_drops_engage_pacing() {
    let mut s = session(&["gw", "-u"]);
    s.sent(0);
    s.on_recv(Recv::TimedOut { overshoot: 0 }, 0, false);
    assert_eq!(s.settle(0), "\n[drops on udp — auto-pacing engaged]\n");
    assert_eq!(s.gap_due(false, 0), Some(10 * MS));
    assert_eq!(s.gap_due(true, 0), None);
    assert_eq!(s.pace(), Some((10 * MS, 10 * MS)));
    s.sent(0);
    s.on_recv(Recv::TimedOut { overshoot: 0 }, 0, false);
    assert_eq!(s.settle(0), "");
    assert_eq!(s.gap_due(false, 0), Some(20 * MS));
}

#[test]
fn icmp_drops_do_not() {
    let mut s = session(&["gw", "-d", "5"]);
    s.sent(0);
    s.on_recv(Recv::TimedOut { overshoot: 0 }, 0, false);
    assert_eq!(s.settle(0), "");
    assert_eq!(s.gap_due(false, 0), Some(5 * MS));
    assert_eq!(s.pace(), None);
}

#[test]
fn zero_means_unlimited() {
    let s = session(&["gw", "-c", "0"]);
    assert_eq!((s.count, s.end), (None, None));
    assert!(s.more(false, u64::MAX));
    let mut a = args(&["gw", "-t", "2"]);
    let s = Session::new(&a, 7, Strip::new(false, ColorMode::Plain, None), palette());
    assert_eq!((s.count, s.end), (None, Some(2_000 * MS + 7)));
    assert!(s.more(false, 2_000 * MS + 6));
    assert!(!s.more(false, 2_000 * MS + 7));
    a.secs = Some(Limit::Unlimited);
    let s = Session::new(&a, 7, Strip::new(false, ColorMode::Plain, None), palette());
    assert_eq!(s.end, None);
    a.secs = Some(Limit::After(u64::MAX));
    let s = Session::new(&a, 7, Strip::new(false, ColorMode::Plain, None), palette());
    assert_eq!(s.end, Some(u64::MAX));
}

#[test]
fn gaps_listen_then_spin() {
    // short: spin at once, ^C or not
    let g = wait_gap(MS - 1, 50);
    assert_eq!(g, Gap { until: MS + 49, listening: false });
    assert_eq!(g.step(true), GapStep::Spin { until: MS + 49 });
    // long: listen until 1 ms before the mark
    let mut g = wait_gap(5 * MS, 100);
    assert_eq!(g.step(false), GapStep::Listen { until: 4 * MS + 100 });
    assert_eq!(g.step(true), GapStep::Leave);
    let mut s = session(&["gw"]);
    s.sent(0);
    s.on_recv(Recv::TimedOut { overshoot: 0 }, 0, false);
    s.settle(0);
    assert_eq!(s.on_gap_recv(&mut g, Recv::Interrupted, 0), "");
    assert!(g.listening);
    let text = s.on_gap_recv(&mut g, Recv::Reply { seq: 0, at: 3 * MS }, 10_313);
    assert_eq!(text, "\x1b7\x1b[1G\x1b[38;5;46m,\x1b[0m\x1b8");
    assert_eq!(tally(&s), (1, 1, 1, 0, 0));
    assert!(g.listening);
    assert_eq!(s.on_gap_recv(&mut g, Recv::TimedOut { overshoot: 1 }, 0), "");
    assert_eq!(g.step(false), GapStep::Spin { until: 5 * MS + 100 });
}

#[test]
fn sequence_numbers_go_round() {
    let mut s = session(&["gw", "-c", "0"]);
    s.seq = u32::MAX;
    s.sent(0);
    s.on_recv(Recv::Reply { seq: u32::MAX, at: 1 }, 0, false);
    s.settle(1);
    assert_eq!(s.seq, 0);
}

#[test]
fn a_piped_run_writes_no_escape() {
    let mut s = Session::new(
        &args(&["gw", "-u", "--256"]),
        0,
        Strip::new(false, ColorMode::Truecolor, Some((80, 24))),
        palette(),
    );
    let mut out = s.send_failed(true, "down").unwrap().1;
    s.sent(0);
    out += &s.on_recv(Recv::TimedOut { overshoot: 0 }, 0, false).1;
    out += &s.settle(0);
    s.sent(1);
    // a late reply counts, and writes nothing
    assert_eq!(s.on_recv(Recv::Reply { seq: 1, at: 5 }, 0, false).1, "");
    out += &s.on_recv(Recv::Reply { seq: 2, at: 9 }, 0, false).1;
    assert_eq!(
        out,
        "[send error: down — pausing]\n.\n[drops on udp — auto-pacing engaged]\n!"
    );
    assert_eq!(tally(&s), (3, 2, 1, 0, 1));
}

#[test]
fn no_more_probes_than_asked_for() {
    let mut s = session(&["gw", "-c", "3"]);
    let mut n = 0;
    while s.more(false, 0) {
        if n == 1 {
            s.send_failed(true, "down");
        } else {
            let at = s.sent(0);
            s.on_recv(Recv::Reply { seq: s.seq, at }, 0, false);
            s.settle(0);
        }
        n += 1;
    }
    assert_eq!((n, s.stats.sent), (3, 3));
    assert_eq!(s.gap_due(false, 0), None);
}
