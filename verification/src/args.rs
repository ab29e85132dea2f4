//! The command line.

use crate::term::ColorChoice;
use crate::text::{begins_with, parse_uint, same, starts_with, uint_up_to};
use crate::udp::DEFAULT_PORT;
use vstd::prelude::*;

verus! {

/// Probes to send where neither a count nor a duration is asked for.
pub const DEFAULT_COUNT: u64 = 1000;

/// How the program is used.
pub const USAGE: &'static str = "\
usage: s80 [options] <target>

  -c, --count <n>     stop after n probes (default 1000; 0 = unlimited)
  -t, --secs <n>      stop after n seconds instead (0 = unlimited)
  -d, --delay <ms>    delay between probes in milliseconds
  -T, --timeout <ms>  starting probe timeout (autotuned from there: grows
                      while probes time out, tracks the path once replies flow)
  -u, --udp           use UDP probes instead of ICMP
      --port <n>      UDP destination port (default 33434)
      --color <when>  auto | always | never (default auto)
      --256           force 256-color palette (default: truecolor if COLORTERM)
  -V, --version       print version
  -h, --help          this text

glyphs:  '!' reply, colored blue (us) -> green (~1ms) -> red (slow), log scale
         '.' timeout   ',' late reply that arrived after its timeout
                           (the '.' is repainted in place when possible)";

/// A word read as a decimal number of some unit of time.
#[derive(Clone, Copy, Debug, PartialEq, Eq)]
pub enum Reading {
    /// It says no number.
    NotANumber,
    /// Below zero.
    Negative,
    /// Infinite, or not a number by its own account.
    NonFinite,
    /// Zero.
    Zero,
    /// Above zero but below a thousandth of the unit; in nanoseconds.
    BelowMilli(u64),
    /// A thousandth of the unit or more; in nanoseconds.
    Span(u64),
    /// Longer than a span of time can be.
    TooLong,
}

/// One word of the command line, with what it says as a number of seconds
/// and as a number of milliseconds.
pub struct Word {
    pub text: String,
    pub secs: Reading,
    pub millis: Reading,
}

/// A word as characters.
pub struct WordView {
    pub text: Seq<char>,
    pub secs: Reading,
    pub millis: Reading,
}

impl View for Word {
    type V = WordView;

    open spec fn view(&self) -> WordView {
        WordView { text: self.text@, secs: self.secs, millis: self.millis }
    }
}

/// A bound on how long to run.
#[derive(Clone, Copy, Debug, PartialEq, Eq)]
pub enum Limit {
    Unlimited,
    /// Nanoseconds.
    After(u64),
}

/// What was asked for.
pub struct Args {
    pub target: String,
    pub secs: Option<Limit>,
    /// 0 means unlimited.
    pub count: Option<u64>,
    /// Nanoseconds between probes.
    pub delay: u64,
    /// Nanoseconds.
    pub fixed_timeout: Option<u64>,
    pub color: ColorChoice,
    pub force_256: bool,
    pub udp: bool,
    pub port: u16,
}

/// Arguments with the target as characters.
pub struct ArgsView {
    pub target: Seq<char>,
    pub secs: Option<Limit>,
    pub count: Option<u64>,
    pub delay: u64,
    pub fixed_timeout: Option<u64>,
    pub color: ColorChoice,
    pub force_256: bool,
    pub udp: bool,
    pub port: u16,
}

impl View for Args {
    type V = ArgsView;

    open spec fn view(&self) -> ArgsView {
        ArgsView {
            target: self.target@,
            secs: self.secs,
            count: self.count,
            delay: self.delay,
            fixed_timeout: self.fixed_timeout,
            color: self.color,
            force_256: self.force_256,
            udp: self.udp,
            port: self.port,
        }
    }
}

/// What a command line asks for.
pub enum Parsed {
    /// Print the help text.
    Help,
    /// Print the version.
    Version,
    /// There is no target: print the help text, and fail.
    NoTarget,
    /// Probe.
    Run(Args),
}

pub enum ParsedView {
    Help,
    Version,
    NoTarget,
    Run(ArgsView),
}

impl View for Parsed {
    type V = ParsedView;

    open spec fn view(&self) -> ParsedView {
        match *self {
            Parsed::Help => ParsedView::Help,
            Parsed::Version => ParsedView::Version,
            Parsed::NoTarget => ParsedView::NoTarget,
            Parsed::Run(a) => ParsedView::Run(a@),
        }
    }
}

/// The options that take a value.
#[derive(Clone, Copy, Debug, PartialEq, Eq)]
pub enum Flag {
    Secs,
    Count,
    Delay,
    Timeout,
    Color,
    Port,
}

/// The option with a value that `t` spells.
pub open spec fn value_flag(t: Seq<char>) -> Option<Flag> {
    if t == "-t"@ || t == "--secs"@ {
        Some(Flag::Secs)
    } else if t == "-c"@ || t == "--count"@ {
        Some(Flag::Count)
    } else if t == "-d"@ || t == "--delay"@ {
        Some(Flag::Delay)
    } else if t == "-T"@ || t == "--timeout"@ {
        Some(Flag::Timeout)
    } else if t == "--color"@ {
        Some(Flag::Color)
    } else if t == "--port"@ {
        Some(Flag::Port)
    } else {
        None
    }
}

fn find_value_flag(t: &str) -> (r: Option<Flag>)
    ensures
        r == value_flag(t@),
{
    if same(t, "-t") || same(t, "--secs") {
        Some(Flag::Secs)
    } else if same(t, "-c") || same(t, "--count") {
        Some(Flag::Count)
    } else if same(t, "-d") || same(t, "--delay") {
        Some(Flag::Delay)
    } else if same(t, "-T") || same(t, "--timeout") {
        Some(Flag::Timeout)
    } else if same(t, "--color") {
        Some(Flag::Color)
    } else if same(t, "--port") {
        Some(Flag::Port)
    } else {
        None
    }
}

/// How an option is called in complaints about it.
pub open spec fn flag_name(flag: Flag) -> Seq<char> {
    match flag {
        Flag::Secs => "-t"@,
        Flag::Count => "-c"@,
        Flag::Delay => "-d"@,
        Flag::Timeout => "-T"@,
        Flag::Color => "--color"@,
        Flag::Port => "--port"@,
    }
}

fn name_of(flag: Flag) -> (r: &'static str)
    ensures
        r@ == flag_name(flag),
{
    match flag {
        Flag::Secs => "-t",
        Flag::Count => "-c",
        Flag::Delay => "-d",
        Flag::Timeout => "-T",
        Flag::Color => "--color",
        Flag::Port => "--port",
    }
}

/// An option at the very end that should have had a value.
pub open spec fn needs_value(flag: Flag) -> Seq<char> {
    "s80: "@ + flag_name(flag) + " needs a value"@
}

pub open spec fn unknown_color(t: Seq<char>) -> Seq<char> {
    "s80: unknown --color '"@ + t + "'"@
}

pub open spec fn unknown_option(t: Seq<char>) -> Seq<char> {
    "s80: unknown option '"@ + t + "'\n\n"@ + USAGE@
}

pub open spec fn one_target() -> Seq<char> {
    "s80: one target at a time (multi-target is coming)"@
}

/// What `-t` makes of its value.
pub open spec fn secs_value(r: Reading) -> Result<Limit, Seq<char>> {
    match r {
        Reading::NotANumber => Err("s80: -t wants a number of seconds"@),
        Reading::Negative | Reading::NonFinite | Reading::TooLong => Err(
            "s80: -t wants a non-negative, non-astronomical number of seconds"@,
        ),
        Reading::Zero => Ok(Limit::Unlimited),
        Reading::BelowMilli(n) => Ok(Limit::After(n)),
        Reading::Span(n) => Ok(Limit::After(n)),
    }
}

/// What `-d` makes of its value. 1 µs is the smallest honest gap: the
/// spin-wait holds a mark to ~±50 ns, but below 1 µs the gap is smaller than
/// the send call's own jitter, and would change nothing.
pub open spec fn delay_value(r: Reading) -> Result<u64, Seq<char>> {
    match r {
        Reading::NotANumber => Err("s80: -d wants milliseconds (fractional ok)"@),
        Reading::Negative | Reading::NonFinite => Err("s80: -d wants a non-negative delay"@),
        Reading::Zero => Ok(0),
        Reading::BelowMilli(_) => Err(
            "s80: smallest nonzero -d is 0.001 (1 µs) — below that a gap disappears into syscall jitter, and s80 doesn't pretend"@,
        ),
        Reading::Span(n) => Ok(n),
        Reading::TooLong => Err("s80: -d is too large to be a delay"@),
    }
}

/// What `-T` makes of its value, in nanoseconds.
pub open spec fn timeout_value(t: Seq<char>) -> Result<u64, Seq<char>> {
    match uint_up_to(t, u64::MAX as nat) {
        Some(ms) => if 10 <= ms <= 10_000 {
            Ok((ms * 1_000_000) as u64)
        } else {
            Err("s80: -T must be 10..10000 ms"@)
        },
        None => Err("s80: -T wants milliseconds"@),
    }
}

/// What `--color` makes of its value.
pub open spec fn color_value(t: Seq<char>) -> Result<ColorChoice, Seq<char>> {
    if t == "auto"@ {
        Ok(ColorChoice::Auto)
    } else if t == "always"@ {
        Ok(ColorChoice::Always)
    } else if t == "never"@ {
        Ok(ColorChoice::Never)
    } else {
        Err(unknown_color(t))
    }
}

/// What `--port` makes of its value.
pub open spec fn port_value(t: Seq<char>) -> Result<u16, Seq<char>> {
    match uint_up_to(t, u16::MAX as nat) {
        Some(p) => if p > 0 {
            Ok(p as u16)
        } else {
            Err("s80: --port wants a port number, 1-65535"@)
        },
        None => Err("s80: --port wants a port number, 1-65535"@),
    }
}

/// The arguments with option `flag` set to what `word` says.
pub open spec fn with_value(flag: Flag, word: WordView, args: ArgsView) -> Result<
    ArgsView,
    Seq<char>,
> {
    match flag {
        Flag::Secs => match secs_value(word.secs) {
            Ok(v) => Ok(ArgsView { secs: Some(v), ..args }),
            Err(m) => Err(m),
        },
        Flag::Count => match uint_up_to(word.text, u64::MAX as nat) {
            Some(v) => Ok(ArgsView { count: Some(v), ..args }),
            None => Err("s80: -c wants a probe count"@),
        },
        Flag::Delay => match delay_value(word.millis) {
            Ok(v) => Ok(ArgsView { delay: v, ..args }),
            Err(m) => Err(m),
        },
        Flag::Timeout => match timeout_value(word.text) {
            Ok(v) => Ok(ArgsView { fixed_timeout: Some(v), ..args }),
            Err(m) => Err(m),
        },
        Flag::Color => match color_value(word.text) {
            Ok(v) => Ok(ArgsView { color: v, ..args }),
            Err(m) => Err(m),
        },
        Flag::Port => match port_value(word.text) {
            Ok(v) => Ok(ArgsView { port: v, ..args }),
            Err(m) => Err(m),
        },
    }
}

/// Nothing asked for yet.
pub open spec fn defaults() -> ArgsView {
    ArgsView {
        target: Seq::empty(),
        secs: None,
        count: None,
        delay: 0,
        fixed_timeout: None,
        color: ColorChoice::Auto,
        force_256: false,
        udp: false,
        port: DEFAULT_PORT,
    }
}

/// The end of the command line: without any bound, the default count is one.
pub open spec fn finished(args: ArgsView) -> ParsedView {
    if args.target.len() == 0 {
        ParsedView::NoTarget
    } else if args.count is None && args.secs is None {
        ParsedView::Run(ArgsView { count: Some(DEFAULT_COUNT), ..args })
    } else {
        ParsedView::Run(args)
    }
}

/// What `words` ask for on top of `args`: read from the left, until a word
/// decides.
pub open spec fn scanned(words: Seq<WordView>, args: ArgsView) -> Result<ParsedView, Seq<char>>
    decreases words.len(),
{
    if words.len() == 0 {
        Ok(finished(args))
    } else {
        let t = words[0].text;
        let rest = words.skip(1);
        if t == "-h"@ || t == "--help"@ {
            Ok(ParsedView::Help)
        } else if t == "-V"@ || t == "--version"@ {
            Ok(ParsedView::Version)
        } else if let Some(flag) = value_flag(t) {
            if words.len() == 1 {
                Err(needs_value(flag))
            } else {
                match with_value(flag, words[1], args) {
                    Ok(a) => scanned(words.skip(2), a),
                    Err(m) => Err(m),
                }
            }
        } else if t == "-u"@ || t == "--udp"@ {
            scanned(rest, ArgsView { udp: true, ..args })
        } else if t == "--256"@ {
            scanned(rest, ArgsView { force_256: true, ..args })
        } else if begins_with(t, '-') {
            Err(unknown_option(t))
        } else if args.target.len() > 0 {
            Err(one_target())
        } else {
            scanned(rest, ArgsView { target: t, ..args })
        }
    }
}

/// The words as characters.
pub open spec fn views(words: Seq<Word>) -> Seq<WordView> {
    words.map_values(|w: Word| w@)
}

/// A message as characters.
pub open spec fn outcome(r: Result<Parsed, String>) -> Result<ParsedView, Seq<char>> {
    match r {
        Ok(p) => Ok(p@),
        Err(m) => Err(m@),
    }
}

fn read_secs(r: Reading) -> (v: Result<Limit, &'static str>)
    ensures
        secs_value(r) == match v {
            Ok(l) => Ok::<Limit, Seq<char>>(l),
            Err(m) => Err(m@),
        },
{
    match r {
        Reading::NotANumber => Err("s80: -t wants a number of seconds"),
        Reading::Negative | Reading::NonFinite | Reading::TooLong => Err(
            "s80: -t wants a non-negative, non-astronomical number of seconds",
        ),
        Reading::Zero => Ok(Limit::Unlimited),
        Reading::BelowMilli(n) => Ok(Limit::After(n)),
        Reading::Span(n) => Ok(Limit::After(n)),
    }
}

fn read_delay(r: Reading) -> (v: Result<u64, &'static str>)
    ensures
        delay_value(r) == match v {
            Ok(d) => Ok::<u64, Seq<char>>(d),
            Err(m) => Err(m@),
        },
{
    match r {
        Reading::NotANumber => Err("s80: -d wants milliseconds (fractional ok)"),
        Reading::Negative | Reading::NonFinite => Err("s80: -d wants a non-negative delay"),
        Reading::Zero => Ok(0),
        Reading::BelowMilli(_) => Err(
            "s80: smallest nonzero -d is 0.001 (1 µs) — below that a gap disappears into syscall jitter, and s80 doesn't pretend",
        ),
        Reading::Span(n) => Ok(n),
        Reading::TooLong => Err("s80: -d is too large to be a delay"),
    }
}

fn read_timeout(t: &str) -> (v: Result<u64, &'static str>)
    ensures
        timeout_value(t@) == match v {
            Ok(d) => Ok::<u64, Seq<char>>(d),
            Err(m) => Err(m@),
        },
{
    match parse_uint(t, u64::MAX) {
        Some(ms) => if 10 <= ms && ms <= 10_000 {
            Ok(ms * 1_000_000)
        } else {
            Err("s80: -T must be 10..10000 ms")
        },
        None => Err("s80: -T wants milliseconds"),
    }
}

fn read_color(t: &str) -> (v: Result<ColorChoice, String>)
    ensures
        color_value(t@) == match v {
            Ok(c) => Ok::<ColorChoice, Seq<char>>(c),
            Err(m) => Err(m@),
        },
{
    if same(t, "auto") {
        Ok(ColorChoice::Auto)
    } else if same(t, "always") {
        Ok(ColorChoice::Always)
    } else if same(t, "never") {
        Ok(ColorChoice::Never)
    } else {
        let mut m = String::new();
        m.append("s80: unknown --color '");
        m.append(t);
        m.append("'");
        assert(m@ =~= unknown_color(t@));
        Err(m)
    }
}

fn read_port(t: &str) -> (v: Result<u16, &'static str>)
    ensures
        port_value(t@) == match v {
            Ok(p) => Ok::<u16, Seq<char>>(p),
            Err(m) => Err(m@),
        },
{
    match parse_uint(t, u16::MAX as u64) {
        Some(p) => if p > 0 {
            Ok(p as u16)
        } else {
            Err("s80: --port wants a port number, 1-65535")
        },
        None => Err("s80: --port wants a port number, 1-65535"),
    }
}

/// Set option `flag` to what `word` says.
fn set_value(flag: Flag, word: &Word, args: &mut Args) -> (r: Result<(), String>)
    ensures
        match r {
            Ok(_) => with_value(flag, word@, old(args)@) == Ok::<ArgsView, Seq<char>>(
                final(args)@,
            ),
            Err(m) => with_value(flag, word@, old(args)@) == Err::<ArgsView, Seq<char>>(m@),
        },
{
    let text: &str = word.text.as_str();
    match flag {
        Flag::Secs => match read_secs(word.secs) {
            Ok(v) => {
                args.secs = Some(v);
                Ok(())
            },
            Err(m) => Err(m.to_owned()),
        },
        Flag::Count => match parse_uint(text, u64::MAX) {
            Some(v) => {
                args.count = Some(v);
                Ok(())
            },
            None => Err("s80: -c wants a probe count".to_owned()),
        },
        Flag::Delay => match read_delay(word.millis) {
            Ok(v) => {
                args.delay = v;
                Ok(())
            },
            Err(m) => Err(m.to_owned()),
        },
        Flag::Timeout => match read_timeout(text) {
            Ok(v) => {
                args.fixed_timeout = Some(v);
                Ok(())
            },
            Err(m) => Err(m.to_owned()),
        },
        Flag::Color => match read_color(text) {
            Ok(v) => {
                args.color = v;
                Ok(())
            },
            Err(m) => Err(m),
        },
        Flag::Port => match read_port(text) {
            Ok(v) => {
                args.port = v;
                Ok(())
            },
            Err(m) => Err(m.to_owned()),
        },
    }
}

/// Read the command line (without the program's name).
pub fn parse_args(words: &Vec<Word>) -> (r: Result<Parsed, String>)
    ensures
        outcome(r) == scanned(views(words@), defaults()),
{
    let mut args = Args {
        target: String::new(),
        secs: None,
        count: None,
        delay: 0,
        fixed_timeout: None,
        color: ColorChoice::Auto,
        force_256: false,
        udp: false,
        port: DEFAULT_PORT,
    };
    let ghost all = views(words@);
    let mut i: usize = 0;
    assert(args@ == defaults()) by {
        assert(args@.target =~= defaults().target);
    }
    assert(all.skip(0) =~= all);
    while i < words.len()
        invariant
            all == views(words@),
            i <= words@.len(),
            scanned(all, defaults()) == scanned(all.skip(i as int), args@),
        decreases words@.len() - i,
    {
        let ghost left = all.skip(i as int);
        assert(left[0] == words@[i as int]@);
        assert(left.skip(1) =~= all.skip(i + 1));
        let t: &str = words[i].text.as_str();
        if same(t, "-h") || same(t, "--help") {
            return Ok(Parsed::Help);
        } else if same(t, "-V") || same(t, "--version") {
            return Ok(Parsed::Version);
        } else if let Some(flag) = find_value_flag(t) {
            if i + 1 == words.len() {
                let mut m = String::new();
                m.append("s80: ");
                m.append(name_of(flag));
                m.append(" needs a value");
                assert(m@ =~= needs_value(flag));
                return Err(m);
            }
            assert(left[1] == words@[i + 1]@);
            assert(left.skip(2) =~= all.skip(i + 2));
            match set_value(flag, &words[i + 1], &mut args) {
                Ok(_) => {},
                Err(m) => {
                    return Err(m);
                },
            }
            i += 2;
        } else if same(t, "-u") || same(t, "--udp") {
            args.udp = true;
            i += 1;
        } else if same(t, "--256") {
            args.force_256 = true;
            i += 1;
        } else if starts_with(t, '-') {
            let mut m = String::new();
            m.append("s80: unknown option '");
            m.append(t);
            m.append("'\n\n");
            m.append(USAGE);
            assert(m@ =~= unknown_option(t@));
            return Err(m);
        } else {
            if !args.target.as_str().is_empty() {
                return Err("s80: one target at a time (multi-target is coming)".to_owned());
            }
            args.target = t.to_owned();
            i += 1;
        }
    }
    assert(all.skip(i as int).len() == 0);
    if args.target.as_str().is_empty() {
        return Ok(Parsed::NoTarget);
    }
    if args.count.is_none() && args.secs.is_none() {
        args.count = Some(DEFAULT_COUNT);
    }
    Ok(Parsed::Run(args))
}

/// What holds of arguments at every point of reading them.
spec fn sound_so_far(a: ArgsView) -> bool {
    &&& !begins_with(a.target, '-')
    &&& a.port > 0
    &&& a.fixed_timeout matches Some(t) ==> 10_000_000 <= t <= 10_000_000_000
}

proof fn lemma_scanned_sound(words: Seq<WordView>, args: ArgsView)
    requires
        sound_so_far(args),
    ensures
        scanned(words, args) matches Ok(ParsedView::Run(a)) ==> {
            &&& sound_so_far(a)
            &&& a.target.len() > 0
            &&& a.count is Some || a.secs is Some
        },
    decreases words.len(),
{
    if words.len() > 0 {
        let t = words[0].text;
        let rest = words.skip(1);
        if let Some(flag) = value_flag(t) {
            if words.len() > 1 {
                if let Ok(a) = with_value(flag, words[1], args) {
                    lemma_scanned_sound(words.skip(2), a);
                }
            }
        } else if t == "-u"@ || t == "--udp"@ {
            lemma_scanned_sound(rest, ArgsView { udp: true, ..args });
        } else if t == "--256"@ {
            lemma_scanned_sound(rest, ArgsView { force_256: true, ..args });
        } else if !begins_with(t, '-') && args.target.len() == 0 {
            lemma_scanned_sound(rest, ArgsView { target: t, ..args });
        }
    }
}

/// Whatever the command line: a run that is let through has a target that is
/// no option, a usable port, a starting timeout of 10 ms to 10 s if any, and
/// a bound (a count, or a duration).
pub proof fn law_accepted_arguments_are_sound(words: Seq<WordView>)
    ensures
        scanned(words, defaults()) matches Ok(ParsedView::Run(a)) ==> {
            &&& a.target.len() > 0
            &&& !begins_with(a.target, '-')
            &&& a.port > 0
            &&& a.fixed_timeout matches Some(t) ==> 10_000_000 <= t <= 10_000_000_000
            &&& a.count is Some || a.secs is Some
        },
{
    lemma_scanned_sound(words, defaults());
}

/// A word that says a thousandth of a millisecond or more says at least 1 µs.
pub open spec fn readings_to_scale(words: Seq<WordView>) -> bool {
    forall|i: int|
        0 <= i < words.len() ==> (#[trigger] words[i].millis matches Reading::Span(n) ==> n >= 1000)
}

proof fn lemma_scanned_delay(words: Seq<WordView>, args: ArgsView)
    requires
        readings_to_scale(words),
        args.delay == 0 || args.delay >= 1000,
    ensures
        scanned(words, args) matches Ok(ParsedView::Run(a)) ==> a.delay == 0 || a.delay >= 1000,
    decreases words.len(),
{
    if words.len() > 0 {
        let t = words[0].text;
        let rest = words.skip(1);
        assert(readings_to_scale(rest));
        if let Some(flag) = value_flag(t) {
            if words.len() > 1 {
                assert(readings_to_scale(words.skip(2)));
                if let Ok(a) = with_value(flag, words[1], args) {
                    assert(words[1].millis matches Reading::Span(n) ==> n >= 1000);
                    lemma_scanned_delay(words.skip(2), a);
                }
            }
        } else if t == "-u"@ || t == "--udp"@ {
            lemma_scanned_delay(rest, ArgsView { udp: true, ..args });
        } else if t == "--256"@ {
            lemma_scanned_delay(rest, ArgsView { force_256: true, ..args });
        } else if !begins_with(t, '-') && args.target.len() == 0 {
            lemma_scanned_delay(rest, ArgsView { target: t, ..args });
        }
    }
}

/// No gap is asked for that would disappear into jitter: an accepted delay is
/// zero or at least 1 µs, if the words were read to scale.
pub proof fn law_accepted_delays_are_honest(words: Seq<WordView>)
    requires
        readings_to_scale(words),
    ensures
        scanned(words, defaults()) matches Ok(ParsedView::Run(a)) ==> a.delay == 0 || a.delay
            >= 1000,
{
    lemma_scanned_delay(words, defaults());
}

} // verus!
