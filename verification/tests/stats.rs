//! Tallies and percentiles, with bucket numbers from the log formula.

use s80::stats::{bucket as place, Stats, Summary, HIST_BUCKETS};

const HIST_MIN_MS: f64 = 0.0001;
const HIST_GROWTH: f64 = 1.001;

fn steps(rtt_ms: f64) -> usize {
    ((rtt_ms / HIST_MIN_MS).ln() / HIST_GROWTH.ln()) as usize
}

fn nanos(rtt_ms: f64) -> u64 {
    (rtt_ms * 1e6).round() as u64
}

fn bucket(rtt_ms: f64) -> usize {
    place(nanos(rtt_ms), steps(rtt_ms))
}

fn record(s: &mut Stats, rtt_ms: f64) {
    s.record_rtt(nanos(rtt_ms), steps(rtt_ms));
}

/// (min, avg, p95, max) in ms.
fn figures(s: &Summary) -> (f64, f64, f64, f64) {
    let (min, max) = (s.min as f64 / 1e6, s.max as f64 / 1e6);
    let mid = HIST_MIN_MS * HIST_GROWTH.powf(s.p95_bucket as f64 + 0.5);
    (min, s.sum as f64 / s.count as f64 / 1e6, mid.clamp(min, max), max)
}

#[test]
fn recent_p95_tracks_window() {
    let mut s = Stats::new();
    assert_eq!(s.recent_p95(), None);
    for _ in 0..64 {
        record(&mut s, 200.0);
    }
    assert_eq!(s.recent_p95(), Some(nanos(200.0)));
}

#[test]
fn summary_is_exact_where_it_claims_to_be() {
    let mut s = Stats::new();
    for x in 1..=100 {
        record(&mut s, x as f64);
    }
    let (min, avg, p95, max) = figures(&s.summary().unwrap());
    assert_eq!(min, 1.0);
    assert_eq!(max, 100.0);
    assert!((avg - 50.5).abs() < 1e-9);
    // p95 within one 0.1% bucket of the true value
    assert!((p95 - 95.0).abs() / 95.0 < 0.002, "p95 {p95}");
}

#[test]
fn histogram_stays_flat_at_scale() {
    let mut s = Stats::new();
    for i in 0..1_000_000u64 {
        record(&mut s, 0.01 + (i % 100) as f64 * 0.001);
    }
    assert_eq!(s.replies(), 1_000_000);
    let (_, _, p95, _) = figures(&s.summary().unwrap());
    assert!((p95 - 0.105).abs() / 0.105 < 0.01, "p95 {p95}");
}

#[test]
fn bucket_edges_are_sane() {
    assert_eq!(bucket(0.0), 0);
    assert_eq!(bucket(-1.0), 0);
    assert!(bucket(60_000.0) < HIST_BUCKETS);
    assert!(bucket(1e12) == HIST_BUCKETS - 1);
}

#[test]
fn first_bucket_ends_at_100_ns() {
    assert_eq!(place(100, 77), 0);
    assert_eq!(place(101, 9), 9);
    assert_eq!(place(101, HIST_BUCKETS - 1), HIST_BUCKETS - 1);
    assert_eq!(place(101, HIST_BUCKETS), HIST_BUCKETS - 1);
}

#[test]
fn window_forgets_the_oldest() {
    let mut s = Stats::new();
    for _ in 0..64 {
        s.record_rtt(900, 3);
    }
    for _ in 0..64 {
        s.record_rtt(100, 0);
    }
    assert_eq!(s.recent_p95(), Some(100));
    // 4 of 64 are above the rank of 61, the 5th shows
    for _ in 0..3 {
        s.record_rtt(700, 2);
    }
    assert_eq!(s.recent_p95(), Some(100));
    s.record_rtt(800, 2);
    assert_eq!(s.recent_p95(), Some(700));
}

#[test]
fn ranks_of_small_windows() {
    let mut s = Stats::new();
    s.record_rtt(5, 0);
    assert_eq!(s.recent_p95(), Some(5));
    s.record_rtt(1, 0);
    s.record_rtt(3, 0);
    // rank 3 of 3
    assert_eq!(s.recent_p95(), Some(5));
    for r in [2, 4, 6, 7, 8, 9, 10, 11, 12, 13, 14, 15, 16, 17, 18, 19, 20] {
        s.record_rtt(r, 0);
    }
    // rank 19 of 20
    assert_eq!(s.recent_p95(), Some(19));
}

#[test]
fn summary_of_a_few() {
    let mut s = Stats::new();
    assert_eq!(s.summary(), None);
    s.record_rtt(300, 1098);
    s.record_rtt(200, 693);
    s.record_rtt(100, 0);
    assert_eq!(
        s.summary(),
        Some(Summary { min: 100, max: 300, sum: 600, count: 3, p95_bucket: 1098 })
    );
    assert_eq!(s.completed(), 3);
}

#[test]
fn a_late_reply_takes_a_loss_back() {
    let mut s = Stats::new();
    s.sent = 2;
    s.lost = 2;
    s.lost_becomes_late(1_000, 2303);
    assert_eq!((s.sent, s.late, s.lost, s.voided, s.replies()), (2, 1, 1, 0, 1));
    assert_eq!(s.completed(), 2);
    s.lost = 0;
    s.lost_becomes_late(1_000, 2303);
    assert_eq!((s.late, s.lost, s.replies()), (2, 0, 2));
}

#[test]
fn summary_ignores_the_order() {
    let mut a = Stats::new();
    let mut b = Stats::new();
    for i in 1..=40u64 {
        a.record_rtt(i * 1_000_000, 9_000 + i as usize);
        let j = 41 - i;
        b.record_rtt(j * 1_000_000, 9_000 + j as usize);
    }
    let s = a.summary().unwrap();
    assert_eq!(s, b.summary().unwrap());
    assert_eq!((s.min, s.max, s.count), (1_000_000, 40_000_000, 40));
    assert_eq!((s.sum, s.p95_bucket), (820_000_000, 9_038));
}
