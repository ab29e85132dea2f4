//! The color wheel, with its tables computed from the log formula.

use s80::color::{clock_ms, clock_rgb as lookup, rgb_to_256, rtt_rgb as shade, Millis, Palette};
use std::time::Duration;

fn hue_to_rgb(p: f64, q: f64, mut t: f64) -> f64 {
    if t < 0.0 {
        t += 1.0;
    }
    if t > 1.0 {
        t -= 1.0;
    }
    if t < 1.0 / 6.0 {
        return p + (q - p) * 6.0 * t;
    }
    if t < 1.0 / 2.0 {
        return q;
    }
    if t < 2.0 / 3.0 {
        return p + (q - p) * (2.0 / 3.0 - t) * 6.0;
    }
    p
}

fn compute_rgb(x: f64) -> (u8, u8, u8) {
    let i = (100.0 - (x.ln() / 6.0) * 100.0 + 30.0).round();
    let hue = i * 1.2 / 360.0;
    (
        (hue_to_rgb(0.0, 1.0, hue + 1.0 / 3.0) * 255.0).round() as u8,
        (hue_to_rgb(0.0, 1.0, hue) * 255.0).round() as u8,
        (hue_to_rgb(0.0, 1.0, hue - 1.0 / 3.0) * 255.0).round() as u8,
    )
}

fn wheel() -> Palette {
    let sub_ms = (0..100)
        .map(|k| if k == 0 { (0, 0, 0) } else { compute_rgb(k as f64 * 0.01) })
        .collect();
    let ms = (0..1500)
        .map(|x| if x == 0 { (0, 0, 0) } else { compute_rgb(x as f64) })
        .collect();
    Palette::new(sub_ms, ms)
}

fn millis(rtt_ms: f64) -> Millis {
    let ns = (rtt_ms * 1e6).round() as u64;
    if rtt_ms < 1.0 {
        Millis { ns: ns.min(999_999), short: (rtt_ms * 100.0).fract() < 0.5 }
    } else {
        Millis { ns, short: rtt_ms.fract() < 0.5 }
    }
}

fn rtt_rgb(rtt_ms: f64) -> (u8, u8, u8) {
    shade(&wheel(), millis(rtt_ms))
}

#[test]
fn one_ms_is_spring_green() {
    // x=1 -> i=130 -> hue 156 degrees -> rgb(0, 255, 153)
    assert_eq!(rtt_rgb(1.0), (0, 255, 153));
}

#[test]
fn slow_is_red() {
    let (r, g, b) = rtt_rgb(1499.0);
    assert!(r == 255 && g < 60 && b == 0, "got {:?}", (r, g, b));
}

#[test]
fn clamps() {
    assert_eq!(rtt_rgb(9999.0), rtt_rgb(1499.0));
}

#[test]
fn table_quantizes_to_integer_ms_like_web() {
    assert_eq!(rtt_rgb(4.4), rtt_rgb(4.0));
    assert_eq!(rtt_rgb(4.6), rtt_rgb(5.0));
    assert_eq!(rtt_rgb(700.0), compute_rgb(700.0));
}

#[test]
fn sub_ms_extends_into_blue() {
    // 60 µs LAN reply -> hue ~212 degrees, azure
    assert_eq!(rtt_rgb(0.06), (0, 117, 255));
    // 10 µs floor: everything below clamps to it, hue never wraps red
    assert_eq!(rtt_rgb(0.001), rtt_rgb(0.01));
    let (r, _, b) = rtt_rgb(0.01);
    assert!(b == 255 && r < 128, "floor color should stay blue");
    // seamless at the 1 ms boundary
    assert_eq!(rtt_rgb(0.995), rtt_rgb(1.0));
}

/// Tables in which every cell names itself.
fn numbered() -> Palette {
    let sub_ms = (0..100u32).map(|k| (k as u8, 0, 1)).collect();
    let ms = (0..1500u32).map(|k| ((k / 256) as u8, (k % 256) as u8, 2)).collect();
    Palette::new(sub_ms, ms)
}

#[test]
fn cells_are_the_nearest() {
    let p = numbered();
    assert_eq!(lookup(&p, 0), (1, 0, 1));
    assert_eq!(lookup(&p, 4_999), (1, 0, 1));
    assert_eq!(lookup(&p, 14_999), (1, 0, 1));
    assert_eq!(lookup(&p, 15_000), (2, 0, 1));
    assert_eq!(lookup(&p, 984_999), (98, 0, 1));
    assert_eq!(lookup(&p, 999_999), (99, 0, 1));
    assert_eq!(lookup(&p, 1_000_000), (0, 1, 2));
    assert_eq!(lookup(&p, 1_499_999), (0, 1, 2));
    assert_eq!(lookup(&p, 1_500_000), (0, 2, 2));
    assert_eq!(lookup(&p, 1_498_499_999), (5, 218, 2));
    assert_eq!(lookup(&p, 1_498_500_000), (5, 219, 2));
    assert_eq!(lookup(&p, u64::MAX), (5, 219, 2));
}

/// The cell of a number of milliseconds, in floating point.
fn float_cell(rtt_ms: f64) -> (u8, u8, u8) {
    if rtt_ms < 1.0 {
        let k = ((rtt_ms * 100.0).round() as usize).min(99).max(1);
        (k as u8, 0, 1)
    } else {
        let k = (rtt_ms.round() as usize).min(1499);
        ((k / 256) as u8, (k % 256) as u8, 2)
    }
}

#[test]
fn clock_spans_round_as_doubles_do() {
    let p = numbered();
    let check = |ns: u64| {
        let ms = Duration::from_nanos(ns).as_secs_f64() * 1000.0;
        assert_eq!(lookup(&p, ns), float_cell(ms), "{} ns", ns);
        assert_eq!(shade(&p, millis(ms)), float_cell(ms), "{} ns", ns);
    };
    for ns in 0..1_000_000 {
        check(ns);
    }
    for k in 1..1600 {
        for d in 0..5 {
            check(k * 1_000_000 + 499_998 + d);
            check(k * 1_000_000 - 2 + d);
        }
    }
    check(u64::MAX);
    // a half that the clock's span falls short of, and one that it reaches
    assert_eq!(clock_ms(35_000), Millis { ns: 35_000, short: true });
    assert_eq!(lookup(&p, 35_000), (3, 0, 1));
    assert_eq!(lookup(&p, 45_000), (5, 0, 1));
}

#[test]
fn halves_of_other_numbers() {
    let p = numbered();
    for ms in [0.035, 0.145, 0.285, 0.565, 0.575, 0.995, 0.9999999, 1.5, 500.5, 1172.5, 4.4999999] {
        assert_eq!(shade(&p, millis(ms)), float_cell(ms), "{} ms", ms);
    }
    assert_eq!(shade(&p, Millis { ns: 500_500_000, short: false }), (1, 245, 2));
    assert_eq!(shade(&p, Millis { ns: 500_500_000, short: true }), (1, 244, 2));
}

#[test]
fn cube_levels() {
    assert_eq!(rgb_to_256(0, 0, 0), 16);
    assert_eq!(rgb_to_256(255, 255, 255), 231);
    assert_eq!(rgb_to_256(0, 255, 153), 16 + 6 * 5 + 2);
    assert_eq!(rgb_to_256(47, 48, 114), 16 + 6 + 1);
    assert_eq!(rgb_to_256(115, 154, 155), 16 + 36 * 2 + 6 * 2 + 3);
}
