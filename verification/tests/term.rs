//! The strip, character by character.

use s80::term::{
    claims_truecolor, color_mode, paint, use_ansi, winsize, ColorChoice, ColorMode, Strip,
};

#[test]
fn paint_in_every_mode() {
    let rgb = (0, 255, 153);
    assert_eq!(paint("1.5", rgb, ColorMode::Truecolor), "\x1b[38;2;0;255;153m1.5\x1b[0m");
    assert_eq!(paint("1.5", rgb, ColorMode::C256), "\x1b[38;5;48m1.5\x1b[0m");
    assert_eq!(paint("1.5", rgb, ColorMode::Plain), "1.5");
}

#[test]
fn glyphs_wrap_at_the_width() {
    let mut s = Strip::new(true, ColorMode::C256, Some((10, 5)));
    for _ in 0..9 {
        assert_eq!(s.put('.', None).1, ".");
    }
    assert_eq!(s.put('!', Some((255, 0, 0))).1, "\x1b[38;5;196m!\x1b[0m\n");
    assert_eq!(s.put('.', None).1, ".");
}

#[test]
fn notes_break_the_strip() {
    let mut s = Strip::new(false, ColorMode::Truecolor, None);
    assert_eq!(s.note("[a]"), "[a]\n");
    s.put('.', None);
    assert_eq!(s.note("[b]"), "\n[b]\n");
    assert_eq!(s.note("[c]"), "[c]\n");
}

#[test]
fn repaint_goes_back_to_the_cell() {
    let mut s = Strip::new(true, ColorMode::Plain, Some((10, 3)));
    let (first, _) = s.put('.', None);
    assert_eq!(s.repaint(first, ',', None), "\x1b7\x1b[1G,\x1b8");
    let (second, _) = s.put('.', None);
    for _ in 0..8 {
        s.put('!', None);
    }
    assert_eq!(s.repaint(first, ',', None), "\x1b7\x1b[1A\x1b[1G,\x1b8");
    assert_eq!(s.repaint(second, ',', Some((1, 2, 3))), "\x1b7\x1b[1A\x1b[2G,\x1b8");
    s.note("x");
    assert_eq!(s.repaint(second, ',', None), "\x1b7\x1b[2A\x1b[2G,\x1b8");
    // three rows up is off a screen of three
    s.note("x");
    assert_eq!(s.repaint(second, ',', None), "");
}

#[test]
fn repaint_needs_a_terminal() {
    let mut s = Strip::new(false, ColorMode::Truecolor, Some((80, 24)));
    let (pos, text) = s.put('.', Some((1, 2, 3)));
    assert_eq!(text, ".");
    assert_eq!(s.repaint(pos, ',', Some((1, 2, 3))), "");
}

#[test]
fn sizes_are_never_degenerate() {
    // 10 columns at least
    let mut s = Strip::new(true, ColorMode::Plain, Some((1, 1)));
    for _ in 0..9 {
        assert_eq!(s.put('.', None).1, ".");
    }
    assert_eq!(s.put('.', None).1, ".\n");
    // 80 by default
    let mut s = Strip::new(true, ColorMode::Plain, None);
    for _ in 0..79 {
        assert_eq!(s.put('.', None).1, ".");
    }
    assert_eq!(s.put('.', None).1, ".\n");
    assert_eq!(winsize(Some((0, 24))), None);
    assert_eq!(winsize(Some((1, 0))), Some((1, 0)));
    assert_eq!(winsize(None), None);
}

#[test]
fn color_decisions() {
    assert!(use_ansi(ColorChoice::Always, false));
    assert!(!use_ansi(ColorChoice::Never, true));
    assert!(use_ansi(ColorChoice::Auto, true));
    assert!(!use_ansi(ColorChoice::Auto, false));
    assert_eq!(color_mode(false, true, true), ColorMode::Plain);
    assert_eq!(color_mode(true, false, true), ColorMode::Truecolor);
    assert_eq!(color_mode(true, true, true), ColorMode::C256);
    assert_eq!(color_mode(true, false, false), ColorMode::C256);
    assert!(claims_truecolor("truecolor"));
    assert!(claims_truecolor("x-24bit-y"));
    assert!(!claims_truecolor("truecolo24bi"));
    assert!(!claims_truecolor(""));
}

#[test]
fn a_glyph_is_painted_as_text() {
    for mode in [ColorMode::Truecolor, ColorMode::C256, ColorMode::Plain] {
        let s = Strip::new(true, mode, None);
        let mut buf = String::from("x");
        s.push_colored(&mut buf, '!', Some((9, 200, 77)));
        assert_eq!(buf, format!("x{}", paint("!", (9, 200, 77), mode)));
        s.push_colored(&mut buf, '.', None);
        assert_eq!(buf, format!("x{}.", paint("!", (9, 200, 77), mode)));
    }
}
