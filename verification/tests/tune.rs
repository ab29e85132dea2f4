//! Timeouts and gaps.

use s80::tune::{Pacer, Tuner};

const MS: u64 = 1_000_000;

#[test]
fn default_timeout_tracks_the_path() {
    let mut t = Tuner::new(None);
    assert_eq!((t.cur, t.floor, t.ceil), (1000 * MS, 250 * MS, 2000 * MS));
    t.replied(Some(100 * MS));
    assert_eq!(t.cur, 400 * MS);
    t.replied(Some(5 * MS));
    assert_eq!(t.cur, 250 * MS);
    t.replied(Some(700 * MS));
    assert_eq!(t.cur, 2000 * MS);
    t.replied(Some(u64::MAX));
    assert_eq!(t.cur, 2000 * MS);
    t.replied(None);
    assert_eq!(t.cur, 2000 * MS);
}

#[test]
fn requested_timeout_widens_the_bounds() {
    let t = Tuner::new(Some(10 * MS));
    assert_eq!((t.cur, t.floor, t.ceil), (10 * MS, 10 * MS, 2000 * MS));
    let t = Tuner::new(Some(5000 * MS));
    assert_eq!((t.cur, t.floor, t.ceil), (5000 * MS, 250 * MS, 5000 * MS));
}

#[test]
fn losses_grow_a_short_timeout_to_the_ceiling() {
    let mut t = Tuner::new(Some(10 * MS));
    t.lost();
    assert_eq!(t.cur, 15 * MS);
    t.lost();
    assert_eq!(t.cur, 22_500_000);
    for _ in 0..12 {
        t.lost();
    }
    assert_eq!(t.cur, 2000 * MS);
    t.lost();
    assert_eq!(t.cur, 2000 * MS);
    // halves of an odd nanosecond are dropped
    let mut t = Tuner::new(Some(10 * MS + 1));
    t.lost();
    assert_eq!(t.cur, 15 * MS + 1);
}

#[test]
fn drops_widen_the_gap() {
    let mut p = Pacer::new();
    assert!(p.lost());
    assert_eq!((p.delay, p.peak), (10 * MS, 10 * MS));
    assert!(!p.lost());
    assert_eq!(p.delay, 20 * MS);
    p.lost();
    assert_eq!(p.delay, 30 * MS);
    p.lost();
    assert_eq!(p.delay, 45 * MS);
    for _ in 0..30 {
        p.lost();
    }
    assert_eq!((p.delay, p.peak), (2000 * MS, 2000 * MS));
}

#[test]
fn clean_streaks_narrow_it() {
    let mut p = Pacer::new();
    for _ in 0..4 {
        p.lost();
    }
    for _ in 0..19 {
        p.replied();
    }
    assert_eq!((p.delay, p.streak), (45 * MS, 19));
    p.replied();
    assert_eq!((p.delay, p.peak, p.streak), (40_500_000, 45 * MS, 0));
    p.replied();
    p.lost();
    assert_eq!(p.streak, 0);
}
