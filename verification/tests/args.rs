//! The command line, word by word.

use s80::args::{parse_args, Args, Limit, Parsed, Reading, Word, USAGE};
use s80::term::ColorChoice;

/// A word with no number in it.
fn w(text: &str) -> Word {
    Word { text: text.to_string(), secs: Reading::NotANumber, millis: Reading::NotANumber }
}

fn secs(text: &str, secs: Reading) -> Word {
    Word { text: text.to_string(), secs, millis: Reading::NotANumber }
}

fn millis(text: &str, millis: Reading) -> Word {
    Word { text: text.to_string(), secs: Reading::NotANumber, millis }
}

fn run(words: Vec<Word>) -> Args {
    match parse_args(&words) {
        Ok(Parsed::Run(a)) => a,
        Ok(_) => panic!("not a run"),
        Err(m) => panic!("{}", m),
    }
}

fn err(words: Vec<Word>) -> String {
    match parse_args(&words) {
        Ok(_) => panic!("accepted"),
        Err(m) => m,
    }
}

#[test]
fn defaults_with_a_bare_target() {
    let a = run(vec![w("1.1.1.1")]);
    assert_eq!(a.target, "1.1.1.1");
    assert_eq!(a.count, Some(1000));
    assert_eq!(a.secs, None);
    assert_eq!(a.delay, 0);
    assert_eq!(a.fixed_timeout, None);
    assert_eq!(a.color, ColorChoice::Auto);
    assert!(!a.force_256);
    assert!(!a.udp);
    assert_eq!(a.port, 33434);
}

#[test]
fn every_option_short_and_long() {
    let a = run(vec![
        w("-c"),
        w("+5"),
        w("-t"),
        secs("1.5", Reading::Span(1_500_000_000)),
        w("-d"),
        millis("0.25", Reading::Span(250_000)),
        w("-T"),
        w("10"),
        w("-u"),
        w("--port"),
        w("53"),
        w("--color"),
        w("never"),
        w("--256"),
        w("gw"),
    ]);
    assert_eq!(a.target, "gw");
    assert_eq!(a.count, Some(5));
    assert_eq!(a.secs, Some(Limit::After(1_500_000_000)));
    assert_eq!(a.delay, 250_000);
    assert_eq!(a.fixed_timeout, Some(10_000_000));
    assert_eq!(a.color, ColorChoice::Never);
    assert!(a.force_256 && a.udp);
    assert_eq!(a.port, 53);

    let a = run(vec![
        w("gw"),
        w("--count"),
        w("0"),
        w("--secs"),
        secs("0", Reading::Zero),
        w("--delay"),
        millis("0", Reading::Zero),
        w("--timeout"),
        w("10000"),
        w("--udp"),
        w("--color"),
        w("always"),
    ]);
    assert_eq!(a.count, Some(0));
    assert_eq!(a.secs, Some(Limit::Unlimited));
    assert_eq!(a.delay, 0);
    assert_eq!(a.fixed_timeout, Some(10_000_000_000));
    assert_eq!(a.color, ColorChoice::Always);
    assert_eq!(run(vec![w("gw"), w("--color"), w("auto")]).color, ColorChoice::Auto);
}

#[test]
fn a_duration_replaces_the_default_count() {
    let a = run(vec![w("gw"), w("-t"), secs("0.0001", Reading::BelowMilli(100_000))]);
    assert_eq!(a.count, None);
    assert_eq!(a.secs, Some(Limit::After(100_000)));
}

#[test]
fn help_version_and_no_target() {
    assert!(matches!(parse_args(&vec![w("gw"), w("-h"), w("--nonsense")]), Ok(Parsed::Help)));
    assert!(matches!(parse_args(&vec![w("--help")]), Ok(Parsed::Help)));
    assert!(matches!(parse_args(&vec![w("-V")]), Ok(Parsed::Version)));
    assert!(matches!(parse_args(&vec![w("--version"), w("-h")]), Ok(Parsed::Version)));
    assert!(matches!(parse_args(&vec![]), Ok(Parsed::NoTarget)));
    assert!(matches!(parse_args(&vec![w("-u"), w("")]), Ok(Parsed::NoTarget)));
}

#[test]
fn missing_values() {
    for (flag, name) in [
        ("-t", "-t"),
        ("--secs", "-t"),
        ("-c", "-c"),
        ("--count", "-c"),
        ("-d", "-d"),
        ("--delay", "-d"),
        ("-T", "-T"),
        ("--timeout", "-T"),
        ("--color", "--color"),
        ("--port", "--port"),
    ] {
        assert_eq!(err(vec![w("gw"), w(flag)]), format!("s80: {} needs a value", name));
    }
}

#[test]
fn bad_seconds() {
    let t = |r| err(vec![w("gw"), w("-t"), secs("x", r)]);
    assert_eq!(t(Reading::NotANumber), "s80: -t wants a number of seconds");
    let range = "s80: -t wants a non-negative, non-astronomical number of seconds";
    assert_eq!(t(Reading::Negative), range);
    assert_eq!(t(Reading::NonFinite), range);
    assert_eq!(t(Reading::TooLong), range);
}

#[test]
fn bad_delays() {
    let d = |r| err(vec![w("gw"), w("-d"), millis("x", r)]);
    assert_eq!(d(Reading::NotANumber), "s80: -d wants milliseconds (fractional ok)");
    assert_eq!(d(Reading::Negative), "s80: -d wants a non-negative delay");
    assert_eq!(d(Reading::NonFinite), "s80: -d wants a non-negative delay");
    assert_eq!(
        d(Reading::BelowMilli(999)),
        "s80: smallest nonzero -d is 0.001 (1 µs) — below that a gap \
         disappears into syscall jitter, and s80 doesn't pretend"
    );
    assert_eq!(d(Reading::TooLong), "s80: -d is too large to be a delay");
}

#[test]
fn bad_counts_timeouts_ports_and_colors() {
    let e = |flag: &str, value: &str| err(vec![w("gw"), w(flag), w(value)]);
    for bad in ["", "+", "-1", "1x", " 1", "1_000", "18446744073709551616", "++1"] {
        assert_eq!(e("-c", bad), "s80: -c wants a probe count");
        assert_eq!(e("-T", bad), "s80: -T wants milliseconds");
        assert_eq!(e("--port", bad), "s80: --port wants a port number, 1-65535");
    }
    assert_eq!(e("-T", "9"), "s80: -T must be 10..10000 ms");
    assert_eq!(e("-T", "10001"), "s80: -T must be 10..10000 ms");
    assert_eq!(e("--port", "0"), "s80: --port wants a port number, 1-65535");
    assert_eq!(e("--port", "65536"), "s80: --port wants a port number, 1-65535");
    assert_eq!(e("--color", "sometimes"), "s80: unknown --color 'sometimes'");
    assert_eq!(
        run(vec![w("gw"), w("-c"), w("18446744073709551615")]).count,
        Some(u64::MAX)
    );
    assert_eq!(run(vec![w("gw"), w("--port"), w("0065535")]).port, 65535);
}

#[test]
fn unknown_options_and_second_targets() {
    assert_eq!(
        err(vec![w("-x"), w("gw")]),
        format!("s80: unknown option '-x'\n\n{}", USAGE)
    );
    assert_eq!(
        err(vec![w("a"), w("b")]),
        "s80: one target at a time (multi-target is coming)"
    );
    assert!(USAGE.starts_with("usage: s80 [options] <target>\n\n  -c, --count <n>     stop"));
    assert!(USAGE.ends_with("when possible)"));
}
