//! The words of a run.

use s80::args::USAGE;
use s80::color::{Millis, Palette};
use s80::report::{banner, footer, help, Figure, Figures, RttFigures, ART};
use s80::stats::Stats;
use s80::term::ColorMode;

fn palette() -> Palette {
    Palette::new(vec![(0, 0, 255); 100], vec![(0, 255, 0); 1500])
}

fn ms(ns: u64) -> Millis {
    Millis { ns, short: false }
}

fn fig(ns: u64, text: &str) -> Figure {
    Figure { rtt: ms(ns), text: text.to_string() }
}

fn figures() -> Figures {
    Figures {
        late_share: "0.52".to_string(),
        lost_share: "1.04".to_string(),
        elapsed: "3.000".to_string(),
        rate: "64".to_string(),
        timeout: "250.000".to_string(),
    }
}

#[test]
fn banners() {
    assert_eq!(banner("gw", "10.0.0.1", None), "s80 gw (10.0.0.1) — ^C for stats");
    assert_eq!(
        banner("gw", "10.0.0.1", Some(33434)),
        "s80 gw (10.0.0.1) [udp:33434] — ^C for stats"
    );
}

#[test]
fn help_shows_the_wheel() {
    assert_eq!(
        help(&palette(), &vec![ms(10_000), ms(5_000_000)], ColorMode::Truecolor),
        format!(
            "{}\n\x1b[38;2;0;0;255m!\x1b[0m\x1b[38;2;0;255;0m!\x1b[0m  0 -> 1500 ms\n\n{}",
            ART, USAGE
        )
    );
    assert_eq!(
        help(&palette(), &vec![ms(1), ms(2), ms(3)], ColorMode::Plain),
        format!("{}\n!!!  0 -> 1500 ms\n\n{}", ART, USAGE)
    );
    assert_eq!(ART.lines().count(), 5);
}

#[test]
fn footer_without_replies() {
    let mut s = Stats::new();
    s.sent = 3;
    s.lost = 2;
    s.voided = 1;
    assert_eq!(
        footer("gw", "10.0.0.1", &s, &None, &figures(), &None, &palette(), ColorMode::Plain),
        "\n--- s80 gw (10.0.0.1) ---\n3 probes  0 replies\n\
         late 0 (0.52%)  lost 2 (1.04%)  voided 1  elapsed 3.000s  rate 64/s  \
         timeout 250.000ms (autotuned)"
    );
}

#[test]
fn footer_with_replies_and_pacing() {
    let mut s = Stats::new();
    s.sent = 2;
    s.record_rtt(2_000_000, 9908);
    s.record_rtt(500_000, 8521);
    let rtts = Some(RttFigures {
        min: "0.500".to_string(),
        avg: fig(1_250_000, "1.250"),
        p95: fig(2_000_000, "2.000"),
        max: "2.000".to_string(),
    });
    let pace = Some(("10.000".to_string(), "20.000".to_string()));
    assert_eq!(
        footer("gw", "10.0.0.1", &s, &rtts, &figures(), &pace, &palette(), ColorMode::C256),
        "\n--- s80 gw (10.0.0.1) ---\n2 probes  2 replies  min/avg/p95/max = \
         \x1b[38;5;21m0.500\x1b[0m/\x1b[38;5;46m1.250\x1b[0m/\x1b[38;5;46m2.000\x1b[0m/\
         \x1b[38;5;46m2.000\x1b[0m ms\n\
         late 0 (0.52%)  lost 0 (1.04%)  elapsed 3.000s  rate 64/s  timeout 250.000ms (autotuned)\n\
         auto-pace settled at 10.000ms (peak 20.000ms) — drops triggered pacing; \
         they still count as lost above"
    );
}
