//! RTT to color: a log-scale hue wheel, green (~1 ms) through yellow/orange
//! to red (~1.5 s), and below 1 ms on through cyan to blue. The wheel comes
//! as two tables of colors; the rule for which entry an RTT gets is here.

use vstd::prelude::*;

verus! {

/// Red, green, blue.
pub type Rgb = (u8, u8, u8);

/// Nanoseconds in a millisecond.
pub const MS: u64 = 1_000_000;

/// Nanoseconds in a cell of the table below 1 ms.
pub const SUB_MS_CELL: u64 = 10_000;

/// Cells of the table below 1 ms: one per 10 µs.
pub const SUB_MS_CELLS: usize = 100;

/// Cells of the table from 1 ms on: one per millisecond.
pub const MS_CELLS: usize = 1500;

/// An RTT as a floating-point number of milliseconds, as far as its color
/// goes: the nearest whole nanosecond, and, where that is halfway between two
/// cells, whether the number (times 100 below 1 ms) falls short of the half.
#[derive(Clone, Copy, Debug, PartialEq, Eq)]
pub struct Millis {
    pub ns: u64,
    pub short: bool,
}

/// `n / d`, rounded to the nearest integer; an exact half goes down where the
/// number that it stands for falls short of it, and else up.
pub open spec fn nearest(n: nat, d: nat, short: bool) -> nat {
    if short && n % d == d / 2 {
        n / d
    } else {
        (n + d / 2) / d
    }
}

/// The halves that a span of the clock falls short of. Its nanoseconds become
/// a double of seconds, and that times 1000 a double of milliseconds: at the
/// end of these cells of 10 µs, or of 1 ms, the result is below the half.
/// At all others it is at the half or above.
pub open spec fn clock_falls_short(ns: u64) -> bool {
    if ns < MS {
        let k = ns / SUB_MS_CELL;
        k == 3 || k == 6 || k == 14 || k == 28 || k == 38 || k == 44 || k == 56 || k == 57 || k
            == 64 || k == 76
    } else {
        let k = ns / MS;
        ||| 500 <= k <= 511
        ||| 1172 <= k <= 1180 && k % 4 == 0
        ||| 1281 <= k <= 1305 && k % 4 == 1
        ||| 1406 <= k <= 1430 && k % 4 == 2
    }
}

/// A span of the clock in milliseconds.
pub open spec fn clocked(ns: u64) -> Millis {
    Millis { ns, short: clock_falls_short(ns) }
}

/// A span of the clock, in nanoseconds, as milliseconds.
pub fn clock_ms(ns: u64) -> (m: Millis)
    ensures
        m == clocked(ns),
{
    let short = if ns < MS {
        let k: u64 = ns / SUB_MS_CELL;
        k == 3 || k == 6 || k == 14 || k == 28 || k == 38 || k == 44 || k == 56 || k == 57 || k
            == 64 || k == 76
    } else {
        let k: u64 = ns / MS;
        (500 <= k && k <= 511) || (1172 <= k && k <= 1180 && k % 4 == 0) || (1281 <= k && k <= 1305
            && k % 4 == 1) || (1406 <= k && k <= 1430 && k % 4 == 2)
    };
    Millis { ns, short }
}

/// The tables of the wheel.
pub struct Palette {
    pub(crate) sub_ms: Vec<Rgb>,
    pub(crate) ms: Vec<Rgb>,
}

impl Palette {
    pub open(crate) spec fn wf(&self) -> bool {
        &&& self.sub_ms@.len() == SUB_MS_CELLS
        &&& self.ms@.len() == MS_CELLS
        &&& self.sub_ms@[0] == self.sub_ms@[1]
        &&& self.ms@[0] == self.ms@[1]
    }

    /// The color of 10 µs times `k`.
    pub open(crate) spec fn sub_ms_cell(&self, k: int) -> Rgb {
        self.sub_ms@[k]
    }

    /// The color of `k` milliseconds.
    pub open(crate) spec fn ms_cell(&self, k: int) -> Rgb {
        self.ms@[k]
    }

    /// The color of an RTT: the nearest cell, at most the last one.
    pub open(crate) spec fn shade_of(&self, rtt: Millis) -> Rgb {
        if rtt.ns < MS {
            let k = nearest(rtt.ns as nat, SUB_MS_CELL as nat, rtt.short);
            self.sub_ms_cell(if k < SUB_MS_CELLS { k as int } else { SUB_MS_CELLS - 1 })
        } else {
            let k = nearest(rtt.ns as nat, MS as nat, rtt.short);
            self.ms_cell(if k < MS_CELLS { k as int } else { MS_CELLS - 1 })
        }
    }

    /// The color of an RTT that the clock measured, in nanoseconds.
    pub open(crate) spec fn color_of(&self, rtt: u64) -> Rgb {
        self.shade_of(clocked(rtt))
    }

    /// A wheel from its two tables. Cell 0 of each (there is no logarithm of
    /// zero) becomes a copy of cell 1: the floor that keeps the hue from
    /// wrapping back toward red.
    pub fn new(sub_ms: Vec<Rgb>, ms: Vec<Rgb>) -> (p: Palette)
        requires
            sub_ms@.len() == SUB_MS_CELLS,
            ms@.len() == MS_CELLS,
        ensures
            p.wf(),
            p.sub_ms_cell(0) == sub_ms@[1],
            forall|k: int| 1 <= k < SUB_MS_CELLS ==> #[trigger] p.sub_ms_cell(k) == sub_ms@[k],
            p.ms_cell(0) == ms@[1],
            forall|k: int| 1 <= k < MS_CELLS ==> #[trigger] p.ms_cell(k) == ms@[k],
    {
        let mut sub_ms = sub_ms;
        let mut ms = ms;
        sub_ms[0] = sub_ms[1];
        ms[0] = ms[1];
        Palette { sub_ms, ms }
    }
}

/// Map an RTT in milliseconds to a color on the wheel. Table lookup: per
/// integer millisecond above 1 ms, per 10 µs below it.
pub fn rtt_rgb(palette: &Palette, rtt: Millis) -> (r: Rgb)
    requires
        palette.wf(),
    ensures
        r == palette.shade_of(rtt),
{
    let ns: u64 = rtt.ns;
    if ns < MS {
        let k: u64 = if rtt.short && ns % SUB_MS_CELL == SUB_MS_CELL / 2 {
            ns / SUB_MS_CELL
        } else {
            (ns + SUB_MS_CELL / 2) / SUB_MS_CELL
        };
        if k < 100 {
            palette.sub_ms[k as usize]
        } else {
            palette.sub_ms[SUB_MS_CELLS - 1]
        }
    } else if ns >= MS * 1499 {
        proof {
            vstd::arithmetic::div_mod::lemma_div_is_ordered(MS * 1499, ns + MS / 2, MS as int);
            vstd::arithmetic::div_mod::lemma_div_is_ordered(MS * 1499, ns as int, MS as int);
        }
        palette.ms[MS_CELLS - 1]
    } else {
        let k: u64 = if rtt.short && ns % MS == MS / 2 {
            ns / MS
        } else {
            (ns + MS / 2) / MS
        };
        palette.ms[k as usize]
    }
}

/// The color of an RTT that the clock measured, in nanoseconds.
pub fn clock_rgb(palette: &Palette, rtt: u64) -> (r: Rgb)
    requires
        palette.wf(),
    ensures
        r == palette.color_of(rtt),
{
    rtt_rgb(palette, clock_ms(rtt))
}

/// Slower than the last cell of the wheel makes no difference.
pub proof fn law_color_clamps(p: Palette, rtt: Millis)
    requires
        p.wf(),
        rtt.ns >= 1499 * MS,
    ensures
        p.shade_of(rtt) == p.ms_cell(1499),
{
}

/// Faster than 10 µs makes no difference: the floor color.
pub proof fn law_color_floors(p: Palette, rtt: Millis)
    requires
        p.wf(),
        rtt.ns <= SUB_MS_CELL,
    ensures
        p.shade_of(rtt) == p.sub_ms_cell(1),
{
}

/// Where a table entry stands for an RTT exactly, that RTT gets it.
pub proof fn law_color_is_exact_on_the_grid(p: Palette, k: u64, short: bool)
    requires
        p.wf(),
    ensures
        1 <= k < SUB_MS_CELLS ==> p.shade_of(Millis { ns: (k * SUB_MS_CELL) as u64, short })
            == p.sub_ms_cell(k as int),
        1 <= k < MS_CELLS ==> p.shade_of(Millis { ns: (k * MS) as u64, short }) == p.ms_cell(
            k as int,
        ),
{
}

/// Only halfway between two cells does it matter on which side a number of
/// milliseconds fell.
pub proof fn law_only_halves_are_open(p: Palette, ns: u64)
    requires
        ns < MS ==> ns % SUB_MS_CELL != SUB_MS_CELL / 2,
        ns >= MS ==> ns % MS != MS / 2,
    ensures
        p.shade_of(Millis { ns, short: true }) == p.shade_of(Millis { ns, short: false }),
{
}

/// The level of the 6x6x6 cube for one channel. The levels are
/// 0, 95, 135, 175, 215, 255.
pub open spec fn cube_level(v: u8) -> u8 {
    if v < 48 {
        0
    } else if v < 115 {
        1
    } else {
        ((v - 35) / 40) as u8
    }
}

/// What a cube level displays.
pub open spec fn cube_value(level: int) -> int {
    if level == 0 {
        0
    } else {
        55 + 40 * level
    }
}

/// The cube color for `r`, `g`, `b`.
pub open spec fn cube_color(r: u8, g: u8, b: u8) -> u8 {
    (16 + 36 * cube_level(r) + 6 * cube_level(g) + cube_level(b)) as u8
}

fn quantize(v: u8) -> (q: u8)
    ensures
        q == cube_level(v),
        q <= 5,
{
    if v < 48 {
        0
    } else if v < 115 {
        1
    } else {
        (v - 35) / 40
    }
}

/// Nearest color in the xterm 256-color 6x6x6 cube.
pub fn rgb_to_256(r: u8, g: u8, b: u8) -> (n: u8)
    ensures
        n == cube_color(r, g, b),
        16 <= n <= 231,
{
    16 + 36 * quantize(r) + 6 * quantize(g) + quantize(b)
}

pub open spec fn distance(a: int, b: int) -> int {
    if a >= b {
        a - b
    } else {
        b - a
    }
}

/// No level of the cube displays a channel more closely than the one chosen,
/// so no color of the cube is nearer.
pub proof fn law_cube_level_is_nearest(v: u8, level: int)
    requires
        0 <= level <= 5,
    ensures
        distance(cube_value(cube_level(v) as int), v as int) <= distance(
            cube_value(level),
            v as int,
        ),
{
}

/// The color of an RTT is that of the cell it is closest to: with cell `k`
/// less than half a cell away, in whole nanoseconds, cell `k` it is.
pub proof fn law_color_is_that_of_the_closest_cell(p: Palette, rtt: Millis, k: int)
    requires
        p.wf(),
    ensures
        rtt.ns >= 1_000_000 && 1 <= k <= 1499 && k * 1_000_000 - 500_000 < rtt.ns < k * 1_000_000
            + 500_000 ==> p.shade_of(rtt) == p.ms_cell(k),
        rtt.ns < 1_000_000 && 1 <= k <= 99 && k * 10_000 - 5_000 < rtt.ns < k * 10_000 + 5_000
            ==> p.shade_of(rtt) == p.sub_ms_cell(k),
        995_000 <= rtt.ns < 1_000_000 ==> p.shade_of(rtt) == p.sub_ms_cell(99),
        rtt.ns < 15_000 ==> p.shade_of(rtt) == p.sub_ms_cell(1),
        rtt.ns >= 1_499_000_000 ==> p.shade_of(rtt) == p.ms_cell(1499),
{
    if rtt.ns >= 1_499_000_000 {
        law_color_clamps(p, rtt);
    }
}

/// Exactly halfway, a number that falls short of the half gets the cell
/// below, any other the cell above.
pub proof fn law_halves_go_by_the_number(p: Palette, k: int, short: bool)
    requires
        p.wf(),
    ensures
        1 <= k <= 1498 ==> p.shade_of(Millis { ns: (k * 1_000_000 + 500_000) as u64, short })
            == p.ms_cell(if short { k } else { k + 1 }),
        1 <= k <= 98 ==> p.shade_of(Millis { ns: (k * 10_000 + 5_000) as u64, short })
            == p.sub_ms_cell(if short { k } else { k + 1 }),
{
}

/// A clock's span and its milliseconds are the same length.
pub proof fn law_milliseconds_keep_the_span(ns: u64)
    ensures
        clocked(ns).ns == ns,
{
}

/// The levels of the cube display 0, 95, 135, 175, 215, 255. Of the color chosen, read as three digits to base 6 above 16, no digit
/// could be replaced by one that displays its channel more closely.
pub proof fn law_cube_color_is_nearest(r: u8, g: u8, b: u8, level: int)
    requires
        0 <= level <= 5,
    ensures
        ({
            let n = cube_color(r, g, b) - 16;
            let shown = |l: int| if l == 0 { 0 } else { 55 + 40 * l };
            &&& 0 <= n < 216
            &&& distance(shown(n / 36), r as int) <= distance(shown(level), r as int)
            &&& distance(shown(n / 6 % 6), g as int) <= distance(shown(level), g as int)
            &&& distance(shown(n % 6), b as int) <= distance(shown(level), b as int)
        }),
{
    let n = cube_color(r, g, b) - 16;
    assert(n == 36 * cube_level(r) + 6 * cube_level(g) + cube_level(b));
    assert(n / 36 == cube_level(r));
    assert(n / 6 % 6 == cube_level(g));
    assert(n % 6 == cube_level(b));
}

} // verus!
