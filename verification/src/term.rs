//! The tick strip: glyph stream with wrap tracking, so a late reply can
//! retroactively repaint its `.` into a `,` via cursor escapes. Every
//! operation returns the characters to write.

use crate::color::{cube_color, rgb_to_256, Rgb};
use crate::text::{
    all_digits, contains, decimal, digits_value, law_numbers_read_back, occurs, push_decimal,
};
use vstd::prelude::*;

verus! {

/// How a terminal is told a color.
#[derive(Clone, Copy, Debug, PartialEq, Eq, Structural)]
pub enum ColorMode {
    Truecolor,
    C256,
    Plain,
}

/// When the user wants color.
#[derive(Clone, Copy, Debug, PartialEq, Eq, Structural)]
pub enum ColorChoice {
    Auto,
    Always,
    Never,
}

/// Whether the terminal takes escapes at all under `choice`.
pub open spec fn ansi_under(choice: ColorChoice, is_tty: bool) -> bool {
    match choice {
        ColorChoice::Always => true,
        ColorChoice::Never => false,
        ColorChoice::Auto => is_tty,
    }
}

pub fn use_ansi(choice: ColorChoice, is_tty: bool) -> (r: bool)
    ensures
        r == ansi_under(choice, is_tty),
{
    match choice {
        ColorChoice::Always => true,
        ColorChoice::Never => false,
        ColorChoice::Auto => is_tty,
    }
}

/// The color mode: none without escapes, the 256-color palette where it is
/// forced or the terminal claims no better.
pub open spec fn mode_under(ansi: bool, force_256: bool, truecolor: bool) -> ColorMode {
    if !ansi {
        ColorMode::Plain
    } else if force_256 || !truecolor {
        ColorMode::C256
    } else {
        ColorMode::Truecolor
    }
}

pub fn color_mode(ansi: bool, force_256: bool, truecolor: bool) -> (r: ColorMode)
    ensures
        r == mode_under(ansi, force_256, truecolor),
{
    if !ansi {
        ColorMode::Plain
    } else if force_256 || !truecolor {
        ColorMode::C256
    } else {
        ColorMode::Truecolor
    }
}

/// Whether a value of `COLORTERM` promises 24-bit color.
pub fn claims_truecolor(colorterm: &str) -> (r: bool)
    ensures
        r == (occurs(colorterm@, "truecolor"@) || occurs(colorterm@, "24bit"@)),
{
    contains(colorterm, "truecolor") || contains(colorterm, "24bit")
}

/// The escape that opens a color.
pub open spec fn color_on(rgb: Rgb, mode: ColorMode) -> Seq<char> {
    match mode {
        ColorMode::Truecolor => "\x1b[38;2;"@ + decimal(rgb.0 as nat) + ";"@ + decimal(
            rgb.1 as nat,
        ) + ";"@ + decimal(rgb.2 as nat) + "m"@,
        ColorMode::C256 => "\x1b[38;5;"@ + decimal(cube_color(rgb.0, rgb.1, rgb.2) as nat) + "m"@,
        ColorMode::Plain => Seq::empty(),
    }
}

/// The escape that closes it.
pub open spec fn color_off(mode: ColorMode) -> Seq<char> {
    match mode {
        ColorMode::Plain => Seq::empty(),
        _ => "\x1b[0m"@,
    }
}

/// `text` in the foreground color `rgb`; plain where color is off.
pub open spec fn painted(text: Seq<char>, rgb: Rgb, mode: ColorMode) -> Seq<char> {
    color_on(rgb, mode) + text + color_off(mode)
}

fn push_color_on(buf: &mut String, rgb: Rgb, mode: ColorMode)
    ensures
        final(buf)@ == old(buf)@ + color_on(rgb, mode),
{
    match mode {
        ColorMode::Truecolor => {
            buf.append("\x1b[38;2;");
            push_decimal(buf, rgb.0 as u64);
            buf.append(";");
            push_decimal(buf, rgb.1 as u64);
            buf.append(";");
            push_decimal(buf, rgb.2 as u64);
            buf.append("m");
        },
        ColorMode::C256 => {
            buf.append("\x1b[38;5;");
            push_decimal(buf, rgb_to_256(rgb.0, rgb.1, rgb.2) as u64);
            buf.append("m");
        },
        ColorMode::Plain => {},
    }
    assert(buf@ =~= old(buf)@ + color_on(rgb, mode));
}

fn push_color_off(buf: &mut String, mode: ColorMode)
    ensures
        final(buf)@ == old(buf)@ + color_off(mode),
{
    match mode {
        ColorMode::Plain => {},
        _ => {
            buf.append("\x1b[0m");
        },
    }
    assert(buf@ =~= old(buf)@ + color_off(mode));
}

/// Wrap `text` in the foreground escape for `rgb` under `mode`
/// (plain text when color is off).
pub fn paint(text: &str, rgb: Rgb, mode: ColorMode) -> (r: String)
    ensures
        r@ == painted(text@, rgb, mode),
{
    let mut buf = String::new();
    push_color_on(&mut buf, rgb, mode);
    buf.append(text);
    push_color_off(&mut buf, mode);
    assert(buf@ =~= painted(text@, rgb, mode));
    buf
}

/// With color off, painting leaves the text as it is.
pub proof fn law_paint_without_color_is_plain(text: Seq<char>, rgb: Rgb)
    ensures
        painted(text, rgb, ColorMode::Plain) == text,
{
    assert(painted(text, rgb, ColorMode::Plain) =~= text);
}

/// A glyph as it goes to the terminal.
pub open spec fn glyph_text(glyph: char, rgb: Option<Rgb>, mode: ColorMode) -> Seq<char> {
    match rgb {
        Some(c) => painted(seq![glyph], c, mode),
        None => seq![glyph],
    }
}

/// A colored glyph is text of one character, painted; a glyph without color
/// gets no escape in any mode.
pub proof fn law_a_glyph_is_painted_as_text(glyph: char, rgb: Rgb, mode: ColorMode)
    ensures
        glyph_text(glyph, Some(rgb), mode) == painted(seq![glyph], rgb, mode),
        glyph_text(glyph, None, mode) == seq![glyph],
{
}

/// Where a glyph landed: its row, counted from the start of the strip, and
/// its column.
#[derive(Clone, Copy, Debug, PartialEq, Eq)]
pub struct GlyphPos {
    row: u64,
    col: u16,
}

/// A position as numbers.
pub struct PosView {
    pub row: int,
    pub col: int,
}

impl View for GlyphPos {
    type V = PosView;

    closed spec fn view(&self) -> PosView {
        PosView { row: self.row as int, col: self.col as int }
    }
}

/// The strip: terminal size, and where the cursor is.
pub struct Strip {
    ansi: bool,
    mode: ColorMode,
    width: u16,
    height: u16,
    col: u16,
    row: u64,
}

/// A strip as numbers.
pub struct StripView {
    pub ansi: bool,
    pub mode: ColorMode,
    pub width: int,
    pub height: int,
    pub col: int,
    pub row: int,
}

impl View for Strip {
    type V = StripView;

    closed spec fn view(&self) -> StripView {
        StripView {
            ansi: self.ansi,
            mode: self.mode,
            width: self.width as int,
            height: self.height as int,
            col: self.col as int,
            row: self.row as int,
        }
    }
}

impl StripView {
    /// The cursor is inside the line; the line and the screen are not
    /// degenerate; rows are countable. Color needs escapes.
    pub open spec fn wf(self) -> bool {
        &&& 10 <= self.width <= u16::MAX
        &&& 2 <= self.height <= u16::MAX
        &&& 0 <= self.col < self.width
        &&& 0 <= self.row <= u64::MAX
        &&& !self.ansi ==> self.mode == ColorMode::Plain
    }

    /// The cursor's position.
    pub open spec fn cursor(self) -> PosView {
        PosView { row: self.row, col: self.col }
    }

    /// After one more glyph: a full line wraps.
    pub open spec fn advanced(self) -> StripView {
        if self.col + 1 >= self.width {
            StripView { col: 0, row: self.row + 1, ..self }
        } else {
            StripView { col: self.col + 1, ..self }
        }
    }

    /// What one more glyph writes.
    pub open spec fn put_text(self, glyph: char, rgb: Option<Rgb>) -> Seq<char> {
        if self.col + 1 >= self.width {
            glyph_text(glyph, rgb, self.mode) + "\n"@
        } else {
            glyph_text(glyph, rgb, self.mode)
        }
    }

    /// After a note: on a fresh line below it.
    pub open spec fn noted(self) -> StripView {
        StripView { col: 0, row: self.row + (if self.col > 0 { 2int } else { 1 }), ..self }
    }

    /// What a note writes: it breaks the strip.
    pub open spec fn note_text(self, text: Seq<char>) -> Seq<char> {
        (if self.col > 0 {
            "\n"@
        } else {
            Seq::empty()
        }) + text + "\n"@
    }

    /// A position is still on the visible screen.
    pub open spec fn shows(self, pos: PosView) -> bool {
        self.row - pos.row < self.height
    }

    /// What repainting a glyph writes: save the cursor, go up and across to
    /// the cell, the glyph, restore the cursor. Nothing where the cell is off
    /// screen or there is no terminal.
    pub open spec fn repaint_text(self, pos: PosView, glyph: char, rgb: Option<Rgb>) -> Seq<char> {
        if self.ansi && self.shows(pos) {
            let dy = (self.row - pos.row) as nat;
            "\x1b7"@ + (if dy > 0 {
                "\x1b["@ + decimal(dy) + "A"@
            } else {
                Seq::empty()
            }) + "\x1b["@ + decimal((pos.col + 1) as nat) + "G"@ + glyph_text(glyph, rgb, self.mode)
                + "\x1b8"@
        } else {
            Seq::empty()
        }
    }
}

/// The terminal's size as the system reports it: a report of zero columns is
/// none.
pub fn winsize(reported: Option<(u16, u16)>) -> (r: Option<(u16, u16)>)
    ensures
        r == match reported {
            Some((cols, rows)) => if cols > 0 {
                Some((cols, rows))
            } else {
                None
            },
            None => None,
        },
{
    match reported {
        Some((cols, rows)) => if cols > 0 {
            Some((cols, rows))
        } else {
            None
        },
        None => None,
    }
}

impl Strip {
    /// The cursor is inside the line and the screen is not degenerate.
    pub open spec fn wf(&self) -> bool {
        self@.wf()
    }

    /// A fresh strip on a terminal of `size` (columns, rows): 80 by 24 where
    /// the size is unknown, never narrower than 10 or lower than 2.
    pub fn new(ansi: bool, mode: ColorMode, size: Option<(u16, u16)>) -> (s: Strip)
        ensures
            s.wf(),
            s@.ansi == ansi,
            s@.mode == if ansi {
                mode
            } else {
                ColorMode::Plain
            },
            s@.width == match size {
                Some((w, _)) => if w < 10 {
                    10
                } else {
                    w as int
                },
                None => 80,
            },
            s@.height == match size {
                Some((_, h)) => if h < 2 {
                    2
                } else {
                    h as int
                },
                None => 24,
            },
            s@.cursor() == (PosView { row: 0, col: 0 }),
    {
        let (width, height): (u16, u16) = match size {
            Some((w, h)) => (w, h),
            None => (80, 24),
        };
        Strip {
            ansi,
            mode: if ansi {
                mode
            } else {
                ColorMode::Plain
            },
            width: if width < 10 {
                10
            } else {
                width
            },
            height: if height < 2 {
                2
            } else {
                height
            },
            col: 0,
            row: 0,
        }
    }

    /// Append a glyph, in its color if it has one.
    pub fn push_colored(&self, buf: &mut String, glyph: char, rgb: Option<Rgb>)
        ensures
            final(buf)@ == old(buf)@ + glyph_text(glyph, rgb, self@.mode),
    {
        match rgb {
            Some(c) => {
                push_color_on(buf, c, self.mode);
                buf.push(glyph);
                push_color_off(buf, self.mode);
            },
            None => {
                buf.push(glyph);
            },
        }
        assert(buf@ =~= old(buf)@ + glyph_text(glyph, rgb, self@.mode));
    }

    /// Print one glyph at the cursor, advancing (and wrapping) the strip.
    /// Returns where it landed, so it can be repainted later, and what to
    /// write.
    pub fn put(&mut self, glyph: char, rgb: Option<Rgb>) -> (r: (GlyphPos, String))
        requires
            old(self).wf(),
            old(self)@.advanced().row <= u64::MAX,
        ensures
            final(self).wf(),
            final(self)@ == old(self)@.advanced(),
            r.0@ == old(self)@.cursor(),
            r.1@ == old(self)@.put_text(glyph, rgb),
    {
        let pos = GlyphPos { row: self.row, col: self.col };
        let mut buf = String::new();
        self.push_colored(&mut buf, glyph, rgb);
        assert(buf@ =~= glyph_text(glyph, rgb, old(self)@.mode));
        self.col = self.col + 1;
        if self.col >= self.width {
            buf.append("\n");
            self.col = 0;
            self.row = self.row + 1;
        }
        (pos, buf)
    }

    /// Repaint an earlier glyph in place (late reply: `.` becomes `,`).
    /// Silently skips if the position has scrolled off the visible screen
    /// or we're not talking to a terminal: the tally still counts it.
    pub fn repaint(&self, pos: GlyphPos, glyph: char, rgb: Option<Rgb>) -> (r: String)
        requires
            self@.ansi ==> pos@.row <= self@.row,
        ensures
            r@ == self@.repaint_text(pos@, glyph, rgb),
    {
        let mut buf = String::new();
        if !self.ansi {
            return buf;
        }
        let dy: u64 = self.row - pos.row;
        if dy >= self.height as u64 {
            return buf;
        }
        buf.append("\x1b7");
        if dy > 0 {
            buf.append("\x1b[");
            push_decimal(&mut buf, dy);
            buf.append("A");
        }
        buf.append("\x1b[");
        push_decimal(&mut buf, pos.col as u64 + 1);
        buf.append("G");
        self.push_colored(&mut buf, glyph, rgb);
        buf.append("\x1b8");
        assert(buf@ =~= self@.repaint_text(pos@, glyph, rgb));
        buf
    }

    /// Out-of-band annotation (e.g. a detected stall). Breaks the strip.
    pub fn note(&mut self, text: &str) -> (r: String)
        requires
            old(self).wf(),
            old(self)@.noted().row <= u64::MAX,
        ensures
            final(self).wf(),
            final(self)@ == old(self)@.noted(),
            r@ == old(self)@.note_text(text@),
    {
        let mut buf = String::new();
        if self.col > 0 {
            buf.append("\n");
            self.row = self.row + 1;
            self.col = 0;
        }
        buf.append(text);
        buf.append("\n");
        self.row = self.row + 1;
        assert(buf@ =~= old(self)@.note_text(text@));
        buf
    }
}

/// Nothing in `text` starts an escape sequence.
pub open spec fn has_no_escape(text: Seq<char>) -> bool {
    forall|i: int| 0 <= i < text.len() ==> #[trigger] text[i] != '\x1b'
}

/// Output is pipeable: where color is left to be decided by the terminal and
/// there is none, or where it is switched off, the mode is plain, and nothing
/// that the strip writes holds an escape.
pub proof fn law_no_escapes_without_a_terminal(
    choice: ColorChoice,
    is_tty: bool,
    force_256: bool,
    truecolor: bool,
    s: StripView,
    glyph: char,
    rgb: Option<Rgb>,
    pos: PosView,
    text: Seq<char>,
)
    requires
        choice == ColorChoice::Never || (choice == ColorChoice::Auto && !is_tty),
        s.wf(),
        s.ansi == ansi_under(choice, is_tty),
        glyph != '\x1b',
        has_no_escape(text),
    ensures
        mode_under(s.ansi, force_256, truecolor) == ColorMode::Plain,
        has_no_escape(s.put_text(glyph, rgb)),
        has_no_escape(s.note_text(text)),
        s.repaint_text(pos, glyph, rgb) == Seq::<char>::empty(),
{
    reveal_strlit("\n");
    assert(s.mode == ColorMode::Plain);
    if let Some(c) = rgb {
        assert(painted(seq![glyph], c, s.mode) =~= seq![glyph]);
    }
}

/// Reading order of positions.
pub open spec fn before(a: PosView, b: PosView) -> bool {
    a.row < b.row || (a.row == b.row && a.col < b.col)
}

/// The strip only ever moves on: after a glyph the cursor stands after it,
/// and after a note it stands no earlier than before. So no two glyphs
/// share a cell, and a position once handed out never lies below the cursor's
/// row: it can always be repainted.
pub proof fn law_cursor_only_advances(s: StripView)
    requires
        s.wf(),
    ensures
        before(s.cursor(), s.advanced().cursor()),
        before(s.cursor(), s.noted().cursor()),
{
}

/// The color goes out as the terminal reads it: in truecolor its three
/// numbers in decimal, else that of the nearest palette entry; the text in
/// between is the text; and after it the color is reset.
pub proof fn law_painted_text_names_its_color(text: Seq<char>, rgb: Rgb) -> (d: (
    Seq<char>,
    Seq<char>,
    Seq<char>,
    Seq<char>,
))
    ensures
        all_digits(d.0) && digits_value(d.0) == rgb.0,
        all_digits(d.1) && digits_value(d.1) == rgb.1,
        all_digits(d.2) && digits_value(d.2) == rgb.2,
        all_digits(d.3) && digits_value(d.3) == cube_color(rgb.0, rgb.1, rgb.2),
        painted(text, rgb, ColorMode::Truecolor) == "\x1b[38;2;"@ + d.0 + ";"@ + d.1 + ";"@ + d.2
            + "m"@ + text + "\x1b[0m"@,
        painted(text, rgb, ColorMode::C256) == "\x1b[38;5;"@ + d.3 + "m"@ + text + "\x1b[0m"@,
        painted(text, rgb, ColorMode::Plain) == text,
{
    let d = (
        decimal(rgb.0 as nat),
        decimal(rgb.1 as nat),
        decimal(rgb.2 as nat),
        decimal(cube_color(rgb.0, rgb.1, rgb.2) as nat),
    );
    law_numbers_read_back(rgb.0 as nat, u64::MAX);
    law_numbers_read_back(rgb.1 as nat, u64::MAX);
    law_numbers_read_back(rgb.2 as nat, u64::MAX);
    law_numbers_read_back(cube_color(rgb.0, rgb.1, rgb.2) as nat, u64::MAX);
    law_paint_without_color_is_plain(text, rgb);
    d
}

/// A strip is filled cell by cell, line by line: each glyph moves the cursor
/// to the next cell, and a line break goes out exactly when that is the first
/// of a line.
pub proof fn law_glyphs_fill_the_strip(s: StripView, glyph: char, rgb: Option<Rgb>)
    requires
        s.wf(),
    ensures
        ({
            let t = s.advanced();
            &&& t.row * s.width + t.col == s.row * s.width + s.col + 1
            &&& 0 <= t.col < s.width
            &&& s.cursor() == (PosView { row: s.row, col: s.col })
            &&& t.width == s.width && t.height == s.height && t.mode == s.mode && t.ansi == s.ansi
            &&& t.col == 0 ==> s.put_text(glyph, rgb) == glyph_text(glyph, rgb, s.mode) + "\n"@
            &&& t.col > 0 ==> s.put_text(glyph, rgb) == glyph_text(glyph, rgb, s.mode)
        }),
{
    let t = s.advanced();
    if t.col == 0 {
        assert((s.row + 1) * s.width == s.row * s.width + s.width) by (nonlinear_arith);
    }
}

/// A note stands on a line of its own, and the strip goes on below it.
pub proof fn law_a_note_has_its_own_line(s: StripView, text: Seq<char>)
    requires
        s.wf(),
    ensures
        s.col == 0 ==> s.note_text(text) == text + "\n"@ && s.noted().row == s.row + 1,
        s.col > 0 ==> s.note_text(text) == "\n"@ + text + "\n"@ && s.noted().row == s.row + 2,
        s.noted() == (StripView { row: s.noted().row, col: 0, ..s }),
{
    if s.col == 0 {
        assert(s.note_text(text) =~= text + "\n"@);
    }
}

/// A glyph is repainted exactly where there is a terminal and the glyph is
/// fewer rows up than the screen has.
pub proof fn law_what_is_on_screen_is_repainted(
    s: StripView,
    pos: PosView,
    glyph: char,
    rgb: Option<Rgb>,
)
    ensures
        s.repaint_text(pos, glyph, rgb).len() > 0 <==> s.ansi && s.row - pos.row < s.height,
{
    reveal_strlit("\x1b7");
}

/// Escapes are for whom they were asked for: always, never, or as the
/// terminal goes; and color is as rich as the terminal claims, unless the
/// palette is forced.
pub proof fn law_color_is_as_asked(is_tty: bool, force_256: bool, truecolor: bool)
    ensures
        ansi_under(ColorChoice::Always, is_tty),
        !ansi_under(ColorChoice::Never, is_tty),
        ansi_under(ColorChoice::Auto, is_tty) == is_tty,
        mode_under(false, force_256, truecolor) == ColorMode::Plain,
        mode_under(true, true, truecolor) == ColorMode::C256,
        mode_under(true, false, true) == ColorMode::Truecolor,
        mode_under(true, false, false) == ColorMode::C256,
{
}

/// What a repaint writes: the cursor saved, so many rows up (if any), to the
/// column of the cell counted from 1, the glyph as it is put, the cursor
/// restored. The result is the two numbers as they stand there.
pub proof fn law_a_repaint_reads(
    s: StripView,
    pos: PosView,
    glyph: char,
    rgb: Option<Rgb>,
) -> (d: (Seq<char>, Seq<char>))
    requires
        s.ansi,
        pos.row <= s.row < pos.row + s.height,
        pos.col >= 0,
    ensures
        all_digits(d.0) && digits_value(d.0) == s.row - pos.row,
        all_digits(d.1) && digits_value(d.1) == pos.col + 1,
        pos.row < s.row ==> s.repaint_text(pos, glyph, rgb) == "\x1b7"@ + ("\x1b["@ + d.0 + "A"@)
            + "\x1b["@ + d.1 + "G"@ + glyph_text(glyph, rgb, s.mode) + "\x1b8"@,
        pos.row == s.row ==> s.repaint_text(pos, glyph, rgb) == "\x1b7"@ + "\x1b["@ + d.1 + "G"@
            + glyph_text(glyph, rgb, s.mode) + "\x1b8"@,
{
    law_numbers_read_back((s.row - pos.row) as nat, u64::MAX);
    law_numbers_read_back((pos.col + 1) as nat, u64::MAX);
    assert("\x1b7"@ + Seq::<char>::empty() =~= "\x1b7"@);
    (decimal((s.row - pos.row) as nat), decimal((pos.col + 1) as nat))
}

} // verus!
