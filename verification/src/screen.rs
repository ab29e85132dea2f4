//! What the strip's characters do on a terminal: a model of the screen, and
//! the proof that glyphs land, and are repainted, where the strip says.

use crate::color::Rgb;
use crate::term::{color_off, color_on, glyph_text, ColorMode, PosView, StripView};
use crate::text::{all_digits, decimal, digit, digits_value};
use vstd::prelude::*;

verus! {

/// A screen `width` columns wide, with as many rows as it takes: what each
/// cell (row, column) shows, where the cursor is, and where it was last
/// saved. A character in the last column leaves the cursor at the edge, in
/// column `width`; the next one wraps to the row below.
#[verifier::ext_equal]
pub struct Screen {
    pub cells: Map<(int, int), char>,
    pub row: int,
    pub col: int,
    pub saved: (int, int),
    pub width: int,
}

/// The characters between `ESC [` and the letter that ends the sequence.
pub open spec fn is_param(c: char) -> bool {
    ('0' <= c <= '9') || c == ';'
}

/// The first position from `i` on that holds no parameter character.
pub open spec fn param_end(t: Seq<char>, i: int) -> int
    decreases t.len() - i,
{
    if 0 <= i < t.len() && is_param(t[i]) {
        param_end(t, i + 1)
    } else {
        i
    }
}

impl Screen {
    /// After the control sequence `ESC [ params letter`: `A` moves up, `G`
    /// to a column (counted from 1, the last one at most); colors change no
    /// cell.
    pub open spec fn controlled(self, params: Seq<char>, letter: char) -> Screen {
        if letter == 'A' {
            Screen { row: self.row - digits_value(params), ..self }
        } else if letter == 'G' {
            let col = digits_value(params) - 1;
            Screen {
                col: if col < self.width {
                    col
                } else {
                    self.width - 1
                },
                ..self
            }
        } else {
            self
        }
    }

    /// After a character that is no control.
    pub open spec fn typed(self, c: char) -> Screen {
        let (row, col) = if self.col < self.width {
            (self.row, self.col)
        } else {
            (self.row + 1, 0)
        };
        Screen { cells: self.cells.insert((row, col), c), row, col: col + 1, ..self }
    }

    /// After `text` was written.
    pub open spec fn shown(self, text: Seq<char>) -> Screen
        decreases text.len(),
    {
        if text.len() == 0 {
            self
        } else if text[0] == '\n' {
            (Screen { row: self.row + 1, col: 0, ..self }).shown(text.skip(1))
        } else if text[0] == '\x1b' && text.len() >= 2 && text[1] == '7' {
            (Screen { saved: (self.row, self.col), ..self }).shown(text.skip(2))
        } else if text[0] == '\x1b' && text.len() >= 2 && text[1] == '8' {
            (Screen { row: self.saved.0, col: self.saved.1, ..self }).shown(text.skip(2))
        } else if text[0] == '\x1b' && text.len() >= 2 && text[1] == '[' && 2 <= param_end(text, 2)
            < text.len() {
            let n = param_end(text, 2);
            self.controlled(text.subrange(2, n), text[n]).shown(text.skip(n + 1))
        } else {
            self.typed(text[0]).shown(text.skip(1))
        }
    }

    /// The cursor's position.
    pub open spec fn cursor(self) -> PosView {
        PosView { row: self.row, col: self.col }
    }
}

proof fn lemma_param_end(t: Seq<char>, i: int, n: int)
    requires
        0 <= i <= n < t.len(),
        forall|j: int| i <= j < n ==> is_param(#[trigger] t[j]),
        !is_param(t[n]),
    ensures
        param_end(t, i) == n,
    decreases n - i,
{
    if i < n {
        assert(is_param(t[i]));
        lemma_param_end(t, i + 1, n);
    }
}

/// A control sequence at the front takes effect, then the rest is written.
proof fn lemma_control(s: Screen, params: Seq<char>, letter: char, rest: Seq<char>)
    requires
        forall|j: int| 0 <= j < params.len() ==> is_param(#[trigger] params[j]),
        !is_param(letter),
    ensures
        s.shown(seq!['\x1b', '['] + params + seq![letter] + rest) == s.controlled(
            params,
            letter,
        ).shown(rest),
{
    let t = seq!['\x1b', '['] + params + seq![letter] + rest;
    let n = 2 + params.len() as int;
    assert forall|j: int| 2 <= j < n implies is_param(#[trigger] t[j]) by {
        assert(t[j] == params[j - 2]);
    }
    assert(t[n] == letter);
    lemma_param_end(t, 2, n);
    assert(t.subrange(2, n) =~= params);
    assert(t.skip(n + 1) =~= rest);
}

pub(crate) proof fn lemma_decimal(n: nat)
    ensures
        decimal(n).len() > 0,
        all_digits(decimal(n)),
        digits_value(decimal(n)) == n,
    decreases n,
{
    if n < 10 {
        assert(decimal(n).drop_last() =~= Seq::<char>::empty());
        assert(decimal(n).last() == digit(n));
        assert(digits_value(Seq::<char>::empty()) == 0);
    } else {
        lemma_decimal(n / 10);
        let d = decimal(n / 10);
        assert(decimal(n).drop_last() =~= d);
        assert(decimal(n).last() == digit(n % 10));
        assert forall|i: int| 0 <= i < decimal(n).len() implies '0' <= #[trigger] decimal(n)[i]
            <= '9' by {
            if i < d.len() {
                assert(decimal(n)[i] == d[i]);
            }
        }
    }
}

proof fn lemma_newline(s: Screen, rest: Seq<char>)
    ensures
        s.shown(seq!['\n'] + rest) == (Screen { row: s.row + 1, col: 0, ..s }).shown(rest),
        s.shown(Seq::empty()) == s,
{
    assert((seq!['\n'] + rest).skip(1) =~= rest);
}

/// Opening a color writes no cell.
proof fn lemma_color_on(s: Screen, rgb: Rgb, mode: ColorMode, rest: Seq<char>)
    ensures
        s.shown(color_on(rgb, mode) + rest) == s.shown(rest),
{
    reveal_strlit("\x1b[38;2;");
    reveal_strlit("\x1b[38;5;");
    reveal_strlit(";");
    reveal_strlit("m");
    let r = decimal(rgb.0 as nat);
    let g = decimal(rgb.1 as nat);
    let b = decimal(rgb.2 as nat);
    lemma_decimal(rgb.0 as nat);
    lemma_decimal(rgb.1 as nat);
    lemma_decimal(rgb.2 as nat);
    match mode {
        ColorMode::Truecolor => {
            let params = seq!['3', '8', ';', '2', ';'] + r + seq![';'] + g + seq![';'] + b;
            assert forall|j: int| 0 <= j < params.len() implies is_param(#[trigger] params[j]) by {
                let j1 = j - 5;
                let j2 = j1 - r.len() - 1;
                let j3 = j2 - g.len() - 1;
                if 0 <= j1 < r.len() {
                    assert(params[j] == r[j1]);
                } else if 0 <= j2 < g.len() {
                    assert(params[j] == g[j2]);
                } else if 0 <= j3 < b.len() {
                    assert(params[j] == b[j3]);
                }
            }
            lemma_control(s, params, 'm', rest);
            assert(color_on(rgb, mode) + rest =~= seq!['\x1b', '['] + params + seq!['m'] + rest);
        },
        ColorMode::C256 => {
            let n = decimal(crate::color::cube_color(rgb.0, rgb.1, rgb.2) as nat);
            lemma_decimal(crate::color::cube_color(rgb.0, rgb.1, rgb.2) as nat);
            let params = seq!['3', '8', ';', '5', ';'] + n;
            assert forall|j: int| 0 <= j < params.len() implies is_param(#[trigger] params[j]) by {
                if j >= 5 {
                    assert(params[j] == n[j - 5]);
                }
            }
            lemma_control(s, params, 'm', rest);
            assert(color_on(rgb, mode) + rest =~= seq!['\x1b', '['] + params + seq!['m'] + rest);
        },
        ColorMode::Plain => {
            assert(color_on(rgb, mode) + rest =~= rest);
        },
    }
}

/// Closing it neither.
proof fn lemma_color_off(s: Screen, mode: ColorMode, rest: Seq<char>)
    ensures
        s.shown(color_off(mode) + rest) == s.shown(rest),
{
    reveal_strlit("\x1b[0m");
    match mode {
        ColorMode::Plain => {
            assert(color_off(mode) + rest =~= rest);
        },
        _ => {
            lemma_control(s, seq!['0'], 'm', rest);
            assert(color_off(mode) + rest =~= seq!['\x1b', '['] + seq!['0'] + seq!['m'] + rest);
        },
    }
}

/// A glyph, colored or not, types one character.
proof fn lemma_glyph(s: Screen, glyph: char, rgb: Option<Rgb>, mode: ColorMode, rest: Seq<char>)
    requires
        glyph != '\n',
        glyph != '\x1b',
    ensures
        s.shown(glyph_text(glyph, rgb, mode) + rest) == s.typed(glyph).shown(rest),
{
    match rgb {
        Some(c) => {
            let tail = color_off(mode) + rest;
            let mid = seq![glyph] + tail;
            assert(glyph_text(glyph, rgb, mode) + rest =~= color_on(c, mode) + mid);
            lemma_color_on(s, c, mode, mid);
            assert(mid.skip(1) =~= tail);
            lemma_color_off(s.typed(glyph), mode, rest);
        },
        None => {
            let t = seq![glyph] + rest;
            assert(t.skip(1) =~= rest);
        },
    }
}

/// Putting a glyph shows it in the cell under the cursor and leaves every
/// other cell alone; the terminal's cursor goes where the strip's goes.
pub proof fn law_put_shows_the_glyph(s: StripView, sc: Screen, glyph: char, rgb: Option<Rgb>)
    requires
        s.wf(),
        sc.width == s.width,
        sc.cursor() == s.cursor(),
        glyph != '\n',
        glyph != '\x1b',
    ensures
        ({
            let t = sc.shown(s.put_text(glyph, rgb));
            &&& t.width == sc.width
            &&& t.cells == sc.cells.insert((s.row, s.col), glyph)
            &&& t.cursor() == s.advanced().cursor()
        }),
{
    let none = Seq::<char>::empty();
    reveal_strlit("\n");
    if s.col + 1 >= s.width {
        lemma_glyph(sc, glyph, rgb, s.mode, "\n"@);
        lemma_newline(sc.typed(glyph), none);
        assert("\n"@ =~= seq!['\n'] + none);
    } else {
        lemma_glyph(sc, glyph, rgb, s.mode, none);
        assert(glyph_text(glyph, rgb, s.mode) + none =~= glyph_text(glyph, rgb, s.mode));
    }
}

/// Repainting a glyph changes the very cell it was put in, and nothing else:
/// the cursor is back where it was. Off screen, or without a terminal,
/// nothing happens at all.
pub proof fn law_repaint_is_in_place(
    s: StripView,
    sc: Screen,
    pos: PosView,
    glyph: char,
    rgb: Option<Rgb>,
)
    requires
        s.wf(),
        sc.width == s.width,
        sc.cursor() == s.cursor(),
        pos.row <= s.row,
        0 <= pos.col < s.width,
        glyph != '\n',
        glyph != '\x1b',
    ensures
        ({
            let t = sc.shown(s.repaint_text(pos, glyph, rgb));
            &&& t.width == sc.width
            &&& t.cursor() == sc.cursor()
            &&& s.ansi && s.shows(pos) ==> t.cells == sc.cells.insert((pos.row, pos.col), glyph)
            &&& !(s.ansi && s.shows(pos)) ==> t == sc
        }),
{
    let none = Seq::<char>::empty();
    if s.ansi && s.shows(pos) {
        reveal_strlit("\x1b7");
        reveal_strlit("\x1b8");
        reveal_strlit("\x1b[");
        reveal_strlit("A");
        reveal_strlit("G");
        let dy = (s.row - pos.row) as nat;
        let column = decimal((pos.col + 1) as nat);
        lemma_decimal(dy);
        lemma_decimal((pos.col + 1) as nat);
        let last = "\x1b8"@;
        let drawn = glyph_text(glyph, rgb, s.mode) + last;
        let across = seq!['\x1b', '['] + column + seq!['G'] + drawn;
        let up = if dy > 0 {
            seq!['\x1b', '['] + decimal(dy) + seq!['A'] + across
        } else {
            across
        };
        let whole = "\x1b7"@ + up;
        assert(s.repaint_text(pos, glyph, rgb) =~= whole);
        let s1 = Screen { saved: (sc.row, sc.col), ..sc };
        assert(whole.skip(2) =~= up);
        assert(sc.shown(whole) == s1.shown(up));
        let s2 = Screen { row: pos.row, ..s1 };
        if dy > 0 {
            assert forall|j: int| 0 <= j < decimal(dy).len() implies is_param(
                #[trigger] decimal(dy)[j],
            ) by {}
            lemma_control(s1, decimal(dy), 'A', across);
        }
        assert(s1.shown(up) == s2.shown(across));
        assert forall|j: int| 0 <= j < column.len() implies is_param(#[trigger] column[j]) by {}
        lemma_control(s2, column, 'G', drawn);
        let s3 = Screen { col: pos.col, ..s2 };
        assert(s2.shown(across) == s3.shown(drawn));
        lemma_glyph(s3, glyph, rgb, s.mode, last);
        assert(last.skip(2) =~= none);
        let s4 = s3.typed(glyph);
        assert(s4.shown(last) == (Screen { row: s4.saved.0, col: s4.saved.1, ..s4 }).shown(none));
    }
}

/// A `.` that is repainted as a `,` while it is on screen is a `,` where the
/// `.` was: whatever was put in between, as long as it went to other cells.
pub proof fn law_late_dot_becomes_comma(s: StripView, sc: Screen, pos: PosView, rgb: Option<Rgb>)
    requires
        s.wf(),
        s.ansi,
        s.shows(pos),
        sc.width == s.width,
        sc.cursor() == s.cursor(),
        pos.row <= s.row,
        0 <= pos.col < s.width,
        sc.cells.contains_pair((pos.row, pos.col), '.'),
    ensures
        sc.shown(s.repaint_text(pos, ',', rgb)).cells == sc.cells.insert((pos.row, pos.col), ','),
{
    law_repaint_is_in_place(s, sc, pos, ',', rgb);
}

/// Text without controls.
pub open spec fn is_plain(text: Seq<char>) -> bool {
    forall|i: int| 0 <= i < text.len() ==> #[trigger] text[i] != '\n' && text[i] != '\x1b'
}

/// After `text` without controls.
pub open spec fn typed_all(s: Screen, text: Seq<char>) -> Screen
    decreases text.len(),
{
    if text.len() == 0 {
        s
    } else {
        typed_all(s.typed(text[0]), text.skip(1))
    }
}

/// Text without controls that fits the row stays in it.
proof fn lemma_plain(s: Screen, text: Seq<char>, rest: Seq<char>)
    requires
        is_plain(text),
        s.col + text.len() <= s.width,
    ensures
        s.shown(text + rest) == typed_all(s, text).shown(rest),
        typed_all(s, text).row == s.row,
        typed_all(s, text).width == s.width,
        forall|r: int, c: int|
            r != s.row ==> #[trigger] same_cell(typed_all(s, text), s, r, c),
    decreases text.len(),
{
    if text.len() == 0 {
        assert(text + rest =~= rest);
    } else {
        let w = text + rest;
        let a = s.typed(text[0]);
        assert(w[0] == text[0]);
        assert(text[0] != '\n' && text[0] != '\x1b');
        assert(w.skip(1) =~= text.skip(1) + rest);
        assert(is_plain(text.skip(1)));
        lemma_plain(a, text.skip(1), rest);
        assert forall|r: int, c: int| r != s.row implies #[trigger] same_cell(
            typed_all(s, text),
            s,
            r,
            c,
        ) by {
            assert(same_cell(typed_all(a, text.skip(1)), a, r, c));
        }
    }
}

/// Cell (`r`, `c`) shows the same on both screens.
pub open spec fn same_cell(a: Screen, b: Screen, r: int, c: int) -> bool {
    &&& a.cells.contains_key((r, c)) <==> b.cells.contains_key((r, c))
    &&& b.cells.contains_key((r, c)) ==> a.cells[(r, c)] == b.cells[(r, c)]
}

/// A note that fits a line leaves the terminal's cursor where the strip
/// expects it, and every glyph of the rows above where it was.
pub proof fn law_note_breaks_the_strip(s: StripView, sc: Screen, text: Seq<char>)
    requires
        s.wf(),
        sc.width == s.width,
        sc.cursor() == s.cursor(),
        is_plain(text),
        text.len() <= s.width,
    ensures
        ({
            let t = sc.shown(s.note_text(text));
            &&& t.width == sc.width
            &&& t.cursor() == s.noted().cursor()
            &&& forall|r: int, c: int|
                r < s.row || (r == s.row && s.col > 0) ==> #[trigger] same_cell(t, sc, r, c)
        }),
{
    let none = Seq::<char>::empty();
    reveal_strlit("\n");
    let tail = text + "\n"@;
    let a = if s.col > 0 {
        Screen { row: sc.row + 1, col: 0, ..sc }
    } else {
        sc
    };
    if s.col > 0 {
        lemma_newline(sc, tail);
        assert(s.note_text(text) =~= seq!['\n'] + tail);
    } else {
        assert(s.note_text(text) =~= tail);
    }
    assert(sc.shown(s.note_text(text)) == a.shown(tail));
    lemma_plain(a, text, "\n"@);
    lemma_newline(typed_all(a, text), none);
    assert("\n"@ =~= seq!['\n'] + none);
    let t = sc.shown(s.note_text(text));
    assert forall|r: int, c: int| r < s.row || (r == s.row && s.col > 0) implies #[trigger] same_cell(
        t,
        sc,
        r,
        c,
    ) by {
        assert(same_cell(typed_all(a, text), a, r, c));
    }
}

} // verus!
