//! The command line as its users know it: what each option does to a run,
//! and that it does so wherever it stands.

use crate::args::{
    defaults, finished, scanned, value_flag, with_value, ArgsView, Flag, Limit, ParsedView, Reading,
    WordView, USAGE,
};
use crate::term::ColorChoice;
use crate::text::{begins_with, decimal, law_numbers_read_back, uint_up_to};
use vstd::prelude::*;

verus! {

/// A word that can only be a target.
pub open spec fn names_a_target(w: WordView) -> bool {
    w.text.len() > 0 && w.text[0] != '-'
}

/// The run for a target and nothing else: 1000 probes, no gap, the timeout
/// left to the autotuner, ICMP, colors as the terminal goes.
pub open spec fn plain_run(target: Seq<char>) -> ArgsView {
    ArgsView {
        target,
        secs: None,
        count: Some(1000),
        delay: 0,
        fixed_timeout: None,
        color: ColorChoice::Auto,
        force_256: false,
        udp: false,
        port: 33434,
    }
}

/// No two words of the command line's vocabulary are the same.
proof fn lemma_vocabulary()
    ensures
        forall|t: Seq<char>|
            #![trigger value_flag(t)]
            {
                &&& t == "-t"@ || t == "--secs"@ ==> value_flag(t) == Some(Flag::Secs)
                &&& t == "-c"@ || t == "--count"@ ==> value_flag(t) == Some(Flag::Count)
                &&& t == "-d"@ || t == "--delay"@ ==> value_flag(t) == Some(Flag::Delay)
                &&& t == "-T"@ || t == "--timeout"@ ==> value_flag(t) == Some(Flag::Timeout)
                &&& t == "--color"@ ==> value_flag(t) == Some(Flag::Color)
                &&& t == "--port"@ ==> value_flag(t) == Some(Flag::Port)
                &&& value_flag(t) is Some ==> t != "-h"@ && t != "--help"@ && t != "-V"@ && t
                    != "--version"@ && t != "-u"@ && t != "--udp"@ && t != "--256"@ && begins_with(
                    t,
                    '-',
                )
                &&& t == "-u"@ || t == "--udp"@ || t == "--256"@ || t == "-h"@ || t == "--help"@
                    || t == "-V"@ || t == "--version"@ ==> value_flag(t) is None && begins_with(
                    t,
                    '-',
                )
            },
        "-u"@ != "-h"@ && "-u"@ != "--help"@ && "-u"@ != "-V"@ && "-u"@ != "--version"@,
        "--udp"@ != "-h"@ && "--udp"@ != "--help"@ && "--udp"@ != "-V"@ && "--udp"@
            != "--version"@,
        "--256"@ != "-h"@ && "--256"@ != "--help"@ && "--256"@ != "-V"@ && "--256"@
            != "--version"@ && "--256"@ != "-u"@ && "--256"@ != "--udp"@,
        "-V"@ != "-h"@ && "-V"@ != "--help"@ && "--version"@ != "-h"@ && "--version"@ != "--help"@,
{
    reveal_strlit("-h");
    reveal_strlit("--help");
    reveal_strlit("-V");
    reveal_strlit("--version");
    reveal_strlit("-t");
    reveal_strlit("--secs");
    reveal_strlit("-c");
    reveal_strlit("--count");
    reveal_strlit("-d");
    reveal_strlit("--delay");
    reveal_strlit("-T");
    reveal_strlit("--timeout");
    reveal_strlit("--color");
    reveal_strlit("--port");
    reveal_strlit("-u");
    reveal_strlit("--udp");
    reveal_strlit("--256");
    assert("-h"@[1] == 'h' && "-V"@[1] == 'V' && "-t"@[1] == 't' && "-c"@[1] == 'c' && "-d"@[1]
        == 'd' && "-T"@[1] == 'T' && "-u"@[1] == 'u');
    assert("--udp"@[2] == 'u' && "--256"@[2] == '2');
    assert("--help"@[2] == 'h' && "--secs"@[2] == 's' && "--port"@[2] == 'p');
    assert("--count"@[4] == 'u' && "--delay"@[4] == 'l' && "--color"@[4] == 'l');
    assert("--delay"@[2] == 'd' && "--color"@[2] == 'c');
    assert("--version"@[2] == 'v' && "--timeout"@[2] == 't');
    assert("-h"@.len() == 2 && "-V"@.len() == 2 && "-t"@.len() == 2 && "-c"@.len() == 2
        && "-d"@.len() == 2 && "-T"@.len() == 2 && "-u"@.len() == 2);
    assert("--udp"@.len() == 5 && "--256"@.len() == 5 && "--help"@.len() == 6 && "--secs"@.len()
        == 6 && "--port"@.len() == 6 && "--count"@.len() == 7 && "--delay"@.len() == 7
        && "--color"@.len() == 7 && "--version"@.len() == 9 && "--timeout"@.len() == 9);
}

/// A bare target is a plain run.
pub proof fn law_a_target_is_enough(w: WordView)
    requires
        names_a_target(w),
    ensures
        scanned(seq![w], defaults()) == Ok::<ParsedView, Seq<char>>(
            ParsedView::Run(plain_run(w.text)),
        ),
{
    lemma_vocabulary();
    lemma_target(w, defaults());
}

/// A target at the end completes what was asked for.
proof fn lemma_target(w: WordView, args: ArgsView)
    requires
        names_a_target(w),
        args.target.len() == 0,
    ensures
        scanned(seq![w], args) == Ok::<ParsedView, Seq<char>>(
            ParsedView::Run(
                ArgsView {
                    target: w.text,
                    count: if args.count is None && args.secs is None {
                        Some(1000)
                    } else {
                        args.count
                    },
                    ..args
                },
            ),
        ),
{
    lemma_vocabulary();
    let _ = value_flag(w.text);
    let none = Seq::<WordView>::empty();
    assert(seq![w].skip(1) =~= none);
    assert(scanned(none, ArgsView { target: w.text, ..args }) is Ok);
}

/// An option with its value in front of a target.
proof fn lemma_option(f: WordView, v: WordView, w: WordView, flag: Flag)
    requires
        names_a_target(w),
        value_flag(f.text) == Some(flag),
    ensures
        with_value(flag, v, defaults()) matches Err(m) ==> scanned(seq![f, v, w], defaults())
            == Err::<ParsedView, Seq<char>>(m),
        with_value(flag, v, defaults()) matches Ok(a) ==> scanned(seq![f, v, w], defaults())
            == Ok::<ParsedView, Seq<char>>(
            ParsedView::Run(
                ArgsView {
                    target: w.text,
                    count: if a.count is None && a.secs is None {
                        Some(1000)
                    } else {
                        a.count
                    },
                    ..a
                },
            ),
        ),
{
    lemma_vocabulary();
    let all = seq![f, v, w];
    assert(all.skip(2) =~= seq![w]);
    if let Ok(a) = with_value(flag, v, defaults()) {
        lemma_target(w, a);
    }
}

/// `-c n` stops after n probes; anything but a number is refused.
pub proof fn law_count_is_the_number_of_probes(f: WordView, v: WordView, w: WordView, n: u64)
    requires
        f.text == "-c"@ || f.text == "--count"@,
        names_a_target(w),
    ensures
        v.text == decimal(n as nat) ==> scanned(seq![f, v, w], defaults()) == Ok::<
            ParsedView,
            Seq<char>,
        >(ParsedView::Run(ArgsView { count: Some(n), ..plain_run(w.text) })),
        uint_up_to(v.text, u64::MAX as nat) is None ==> scanned(seq![f, v, w], defaults()) == Err::<
            ParsedView,
            Seq<char>,
        >("s80: -c wants a probe count"@),
{
    lemma_vocabulary();
    let _ = value_flag(f.text);
    lemma_option(f, v, w, Flag::Count);
    law_numbers_read_back(n as nat, u64::MAX);
}

/// `-t n` stops after n seconds, and zero never; then there is no number of
/// probes to stop at. What is no span of time is refused.
pub proof fn law_secs_is_the_duration(f: WordView, v: WordView, w: WordView, n: u64)
    requires
        f.text == "-t"@ || f.text == "--secs"@,
        names_a_target(w),
    ensures
        v.secs == Reading::Span(n) || v.secs == Reading::BelowMilli(n) ==> scanned(
            seq![f, v, w],
            defaults(),
        ) == Ok::<ParsedView, Seq<char>>(
            ParsedView::Run(
                ArgsView { secs: Some(Limit::After(n)), count: None, ..plain_run(w.text) },
            ),
        ),
        v.secs is Zero ==> scanned(seq![f, v, w], defaults()) == Ok::<ParsedView, Seq<char>>(
            ParsedView::Run(
                ArgsView { secs: Some(Limit::Unlimited), count: None, ..plain_run(w.text) },
            ),
        ),
        v.secs is NotANumber ==> scanned(seq![f, v, w], defaults()) == Err::<
            ParsedView,
            Seq<char>,
        >("s80: -t wants a number of seconds"@),
        v.secs is Negative || v.secs is NonFinite || v.secs is TooLong ==> scanned(
            seq![f, v, w],
            defaults(),
        ) == Err::<ParsedView, Seq<char>>(
            "s80: -t wants a non-negative, non-astronomical number of seconds"@,
        ),
{
    lemma_vocabulary();
    let _ = value_flag(f.text);
    lemma_option(f, v, w, Flag::Secs);
}

/// `-d` is the gap between probes, in milliseconds; below 1 µs it is refused.
pub proof fn law_delay_is_the_gap(f: WordView, v: WordView, w: WordView, n: u64)
    requires
        f.text == "-d"@ || f.text == "--delay"@,
        names_a_target(w),
    ensures
        v.millis == Reading::Span(n) ==> scanned(seq![f, v, w], defaults()) == Ok::<
            ParsedView,
            Seq<char>,
        >(ParsedView::Run(ArgsView { delay: n, ..plain_run(w.text) })),
        v.millis is Zero ==> scanned(seq![f, v, w], defaults()) == Ok::<ParsedView, Seq<char>>(
            ParsedView::Run(plain_run(w.text)),
        ),
        v.millis is NotANumber ==> scanned(seq![f, v, w], defaults()) == Err::<
            ParsedView,
            Seq<char>,
        >("s80: -d wants milliseconds (fractional ok)"@),
        v.millis is Negative || v.millis is NonFinite ==> scanned(seq![f, v, w], defaults())
            == Err::<ParsedView, Seq<char>>("s80: -d wants a non-negative delay"@),
        v.millis is TooLong ==> scanned(seq![f, v, w], defaults()) == Err::<
            ParsedView,
            Seq<char>,
        >("s80: -d is too large to be a delay"@),
        v.millis is BelowMilli ==> scanned(seq![f, v, w], defaults()) is Err,
{
    lemma_vocabulary();
    let _ = value_flag(f.text);
    lemma_option(f, v, w, Flag::Delay);
}

/// `-T n` is the timeout to start from, n milliseconds, from 10 to 10000.
pub proof fn law_timeout_is_the_starting_timeout(f: WordView, v: WordView, w: WordView, n: u64)
    requires
        f.text == "-T"@ || f.text == "--timeout"@,
        names_a_target(w),
    ensures
        v.text == decimal(n as nat) && 10 <= n <= 10_000 ==> scanned(seq![f, v, w], defaults())
            == Ok::<ParsedView, Seq<char>>(
            ParsedView::Run(
                ArgsView { fixed_timeout: Some((n * 1_000_000) as u64), ..plain_run(w.text) },
            ),
        ),
        v.text == decimal(n as nat) && !(10 <= n <= 10_000) ==> scanned(seq![f, v, w], defaults())
            == Err::<ParsedView, Seq<char>>("s80: -T must be 10..10000 ms"@),
        uint_up_to(v.text, u64::MAX as nat) is None ==> scanned(seq![f, v, w], defaults()) == Err::<
            ParsedView,
            Seq<char>,
        >("s80: -T wants milliseconds"@),
{
    lemma_vocabulary();
    let _ = value_flag(f.text);
    lemma_option(f, v, w, Flag::Timeout);
    law_numbers_read_back(n as nat, u64::MAX);
}

/// `--color` says when there is color.
pub proof fn law_color_is_the_choice(f: WordView, v: WordView, w: WordView)
    requires
        f.text == "--color"@,
        names_a_target(w),
    ensures
        v.text == "auto"@ ==> scanned(seq![f, v, w], defaults()) == Ok::<ParsedView, Seq<char>>(
            ParsedView::Run(plain_run(w.text)),
        ),
        v.text == "always"@ ==> scanned(seq![f, v, w], defaults()) == Ok::<ParsedView, Seq<char>>(
            ParsedView::Run(ArgsView { color: ColorChoice::Always, ..plain_run(w.text) }),
        ),
        v.text == "never"@ ==> scanned(seq![f, v, w], defaults()) == Ok::<ParsedView, Seq<char>>(
            ParsedView::Run(ArgsView { color: ColorChoice::Never, ..plain_run(w.text) }),
        ),
        v.text != "auto"@ && v.text != "always"@ && v.text != "never"@ ==> scanned(
            seq![f, v, w],
            defaults(),
        ) == Err::<ParsedView, Seq<char>>("s80: unknown --color '"@ + v.text + "'"@),
{
    lemma_vocabulary();
    let _ = value_flag(f.text);
    lemma_option(f, v, w, Flag::Color);
    reveal_strlit("auto");
    reveal_strlit("always");
    reveal_strlit("never");
}

/// `--port` is the port, from 1 to 65535.
pub proof fn law_port_is_the_port(f: WordView, v: WordView, w: WordView, n: u64)
    requires
        f.text == "--port"@,
        names_a_target(w),
    ensures
        v.text == decimal(n as nat) && 1 <= n <= 65535 ==> scanned(seq![f, v, w], defaults())
            == Ok::<ParsedView, Seq<char>>(
            ParsedView::Run(ArgsView { port: n as u16, ..plain_run(w.text) }),
        ),
        v.text == decimal(n as nat) && !(1 <= n <= 65535) ==> scanned(seq![f, v, w], defaults())
            == Err::<ParsedView, Seq<char>>("s80: --port wants a port number, 1-65535"@),
        uint_up_to(v.text, 65535) is None ==> scanned(seq![f, v, w], defaults()) == Err::<
            ParsedView,
            Seq<char>,
        >("s80: --port wants a port number, 1-65535"@),
{
    lemma_vocabulary();
    let _ = value_flag(f.text);
    lemma_option(f, v, w, Flag::Port);
    law_numbers_read_back(n as nat, 65535);
}

/// An option that wants a value and is the last word has none; the complaint
/// calls it by its short name.
pub proof fn law_a_value_is_needed(f: WordView)
    ensures
        f.text == "-t"@ || f.text == "--secs"@ ==> scanned(seq![f], defaults()) == Err::<
            ParsedView,
            Seq<char>,
        >("s80: "@ + "-t"@ + " needs a value"@),
        f.text == "-c"@ || f.text == "--count"@ ==> scanned(seq![f], defaults()) == Err::<
            ParsedView,
            Seq<char>,
        >("s80: "@ + "-c"@ + " needs a value"@),
        f.text == "-d"@ || f.text == "--delay"@ ==> scanned(seq![f], defaults()) == Err::<
            ParsedView,
            Seq<char>,
        >("s80: "@ + "-d"@ + " needs a value"@),
        f.text == "-T"@ || f.text == "--timeout"@ ==> scanned(seq![f], defaults()) == Err::<
            ParsedView,
            Seq<char>,
        >("s80: "@ + "-T"@ + " needs a value"@),
        f.text == "--color"@ ==> scanned(seq![f], defaults()) == Err::<ParsedView, Seq<char>>(
            "s80: "@ + "--color"@ + " needs a value"@,
        ),
        f.text == "--port"@ ==> scanned(seq![f], defaults()) == Err::<ParsedView, Seq<char>>(
            "s80: "@ + "--port"@ + " needs a value"@,
        ),
{
    lemma_vocabulary();
    let _ = value_flag(f.text);
}

/// Help and version come first, whatever follows; without a word there is no
/// target; an option nobody knows is refused with the usage; and so is a
/// second target.
pub proof fn law_first_words_decide(w: WordView, rest: Seq<WordView>, again: WordView)
    ensures
        scanned(Seq::<WordView>::empty(), defaults()) == Ok::<ParsedView, Seq<char>>(
            ParsedView::NoTarget,
        ),
        w.text == "-h"@ || w.text == "--help"@ ==> scanned(seq![w] + rest, defaults()) == Ok::<
            ParsedView,
            Seq<char>,
        >(ParsedView::Help),
        w.text == "-V"@ || w.text == "--version"@ ==> scanned(seq![w] + rest, defaults()) == Ok::<
            ParsedView,
            Seq<char>,
        >(ParsedView::Version),
        begins_with(w.text, '-') && w.text != "-h"@ && w.text != "--help"@ && w.text != "-V"@
            && w.text != "--version"@ && w.text != "-u"@ && w.text != "--udp"@ && w.text
            != "--256"@ && value_flag(w.text) is None ==> scanned(seq![w] + rest, defaults())
            == Err::<ParsedView, Seq<char>>("s80: unknown option '"@ + w.text + "'\n\n"@ + USAGE@),
        names_a_target(w) && names_a_target(again) ==> scanned(
            seq![w, again] + rest,
            defaults(),
        ) == Err::<ParsedView, Seq<char>>("s80: one target at a time (multi-target is coming)"@),
{
    lemma_vocabulary();
    let _ = value_flag(w.text);
    let _ = value_flag(again.text);
    let all = seq![w, again] + rest;
    assert(all.skip(1) =~= seq![again] + rest);
    assert(all[0] == w);
    assert((seq![again] + rest)[0] == again);
    assert((seq![w] + rest)[0] == w);
    if names_a_target(w) && names_a_target(again) {
        let a = ArgsView { target: w.text, ..defaults() };
        assert(scanned(seq![again] + rest, a) is Err);
    }
}

/// `words` do not mention option `flag`, not even as a value.
pub open spec fn is_silent_on(words: Seq<WordView>, flag: Flag) -> bool {
    forall|i: int| 0 <= i < words.len() ==> value_flag((#[trigger] words[i]).text) != Some(flag)
}

/// `a` with what `b` says of `flag`, and of whether it is UDP and whether the
/// palette is forced.
pub open spec fn overlaid(a: ArgsView, b: ArgsView, flag: Option<Flag>) -> ArgsView {
    let a = ArgsView { udp: b.udp, force_256: b.force_256, ..a };
    match flag {
        Some(Flag::Delay) => ArgsView { delay: b.delay, ..a },
        Some(Flag::Timeout) => ArgsView { fixed_timeout: b.fixed_timeout, ..a },
        Some(Flag::Color) => ArgsView { color: b.color, ..a },
        Some(Flag::Port) => ArgsView { port: b.port, ..a },
        _ => a,
    }
}

/// A switch once set stays set.
proof fn lemma_switches_stay(words: Seq<WordView>, x: ArgsView)
    ensures
        scanned(words, x) matches Ok(ParsedView::Run(a)) ==> (x.udp ==> a.udp) && (x.force_256
            ==> a.force_256),
    decreases words.len(),
{
    if words.len() > 0 {
        let t = words[0].text;
        let rest = words.skip(1);
        if let Some(g) = value_flag(t) {
            if words.len() > 1 {
                if let Ok(a) = with_value(g, words[1], x) {
                    lemma_switches_stay(words.skip(2), a);
                }
            }
        } else {
            lemma_switches_stay(rest, ArgsView { udp: true, ..x });
            lemma_switches_stay(rest, ArgsView { force_256: true, ..x });
            lemma_switches_stay(rest, ArgsView { target: t, ..x });
        }
    }
}

/// Two outcomes that differ, if at all, in what `y` says of `flag` and of the switches.
#[verifier::opaque]
spec fn tells_apart(
    r: Result<ParsedView, Seq<char>>,
    q: Result<ParsedView, Seq<char>>,
    y: ArgsView,
    flag: Option<Flag>,
) -> bool {
    q == match r {
        Ok(ParsedView::Run(a)) => Ok::<ParsedView, Seq<char>>(
            ParsedView::Run(
                overlaid(
                    a,
                    ArgsView { udp: a.udp || y.udp, force_256: a.force_256 || y.force_256, ..y },
                    flag,
                ),
            ),
        ),
        other => other,
    }
}

/// Setting another option keeps two runs apart in the same way.
proof fn lemma_value_overlaid(
    g: Flag,
    w: WordView,
    x: ArgsView,
    y: ArgsView,
    flag: Option<Flag>,
)
    requires
        flag != Some(g),
        y == overlaid(x, y, flag),
    ensures
        match (with_value(g, w, x), with_value(g, w, y)) {
            (Ok(a), Ok(b)) => {
                &&& b == overlaid(a, b, flag)
                &&& b == overlaid(b, y, flag)
                &&& a.udp == x.udp
                &&& a.force_256 == x.force_256
                &&& b.udp == y.udp
                &&& b.force_256 == y.force_256
            },
            (Err(m), Err(n)) => m == n,
            _ => false,
        },
{
}

/// What one run of the two has in common with a third.
proof fn lemma_apart_from(
    r: Result<ParsedView, Seq<char>>,
    q: Result<ParsedView, Seq<char>>,
    z: ArgsView,
    y: ArgsView,
    flag: Option<Flag>,
)
    requires
        tells_apart(r, q, z, flag),
        z == overlaid(z, ArgsView { udp: z.udp, force_256: z.force_256, ..y }, flag),
        r matches Ok(ParsedView::Run(a)) ==> (a.udp || z.udp) == (a.udp || y.udp) && (a.force_256
            || z.force_256) == (a.force_256 || y.force_256),
    ensures
        tells_apart(r, q, y, flag),
{
    reveal(tells_apart);
}

/// The end of the words.
proof fn lemma_end_overlaid(x: ArgsView, y: ArgsView, flag: Option<Flag>)
    requires
        y == overlaid(x, y, flag),
        x.udp ==> y.udp,
        x.force_256 ==> y.force_256,
    ensures
        tells_apart(Ok(finished(x)), Ok(finished(y)), y, flag),
{
    reveal(tells_apart);
}

/// An outcome that is no run is the same for both.
proof fn lemma_no_run(r: Result<ParsedView, Seq<char>>, y: ArgsView, flag: Option<Flag>)
    requires
        !(r matches Ok(ParsedView::Run(_))),
    ensures
        tells_apart(r, r, y, flag),
{
    reveal(tells_apart);
}

proof fn lemma_silent_rest(words: Seq<WordView>, n: int, flag: Option<Flag>)
    requires
        0 <= n <= words.len(),
        flag matches Some(f) ==> is_silent_on(words, f),
    ensures
        flag matches Some(f) ==> is_silent_on(words.skip(n), f),
{
    if let Some(f) = flag {
        let less = words.skip(n);
        assert forall|i: int| 0 <= i < less.len() implies value_flag((#[trigger] less[i]).text)
            != Some(f) by {
            assert(less[i] == words[i + n]);
        }
    }
}

/// Words that say nothing of an option do the same to a run with it and to
/// one without.
proof fn lemma_overlaid(words: Seq<WordView>, x: ArgsView, y: ArgsView, flag: Option<Flag>)
    requires
        flag matches Some(f) ==> is_silent_on(words, f),
        y == overlaid(x, y, flag),
        x.udp ==> y.udp,
        x.force_256 ==> y.force_256,
    ensures
        tells_apart(scanned(words, x), scanned(words, y), y, flag),
    decreases words.len(),
{
    let r = scanned(words, x);
    let q = scanned(words, y);
    if words.len() == 0 {
        lemma_end_overlaid(x, y, flag);
    } else {
        let t = words[0].text;
        let rest = words.skip(1);
        lemma_silent_rest(words, 1, flag);
        if t == "-h"@ || t == "--help"@ || t == "-V"@ || t == "--version"@ {
            lemma_no_run(r, y, flag);
        } else if let Some(g) = value_flag(t) {
            assert(flag != Some(g)) by {
                if flag is Some {
                    assert(value_flag(words[0].text) != flag);
                }
            }
            if words.len() == 1 {
                lemma_no_run(r, y, flag);
            } else {
                lemma_value_overlaid(g, words[1], x, y, flag);
                match with_value(g, words[1], x) {
                    Ok(a) => {
                        let b = with_value(g, words[1], y)->Ok_0;
                        lemma_silent_rest(words, 2, flag);
                        lemma_overlaid(words.skip(2), a, b, flag);
                        assert(r == scanned(words.skip(2), a));
                        assert(q == scanned(words.skip(2), b));
                        lemma_apart_from(r, q, b, y, flag);
                    },
                    Err(_) => {
                        lemma_no_run(r, y, flag);
                    },
                }
            }
        } else if t == "-u"@ || t == "--udp"@ {
            let a = ArgsView { udp: true, ..x };
            let b = ArgsView { udp: true, ..y };
            lemma_overlaid(rest, a, b, flag);
            lemma_switches_stay(rest, a);
            lemma_apart_from(r, q, b, y, flag);
        } else if t == "--256"@ {
            let a = ArgsView { force_256: true, ..x };
            let b = ArgsView { force_256: true, ..y };
            lemma_overlaid(rest, a, b, flag);
            lemma_switches_stay(rest, a);
            lemma_apart_from(r, q, b, y, flag);
        } else if begins_with(t, '-') || x.target.len() > 0 {
            lemma_no_run(r, y, flag);
        } else {
            let a = ArgsView { target: t, ..x };
            let b = ArgsView { target: t, ..y };
            lemma_overlaid(rest, a, b, flag);
            lemma_apart_from(r, q, b, y, flag);
        }
    }
}

/// `-u` and `--256` do what they say in front of any command line, and
/// nothing else.
pub proof fn law_switches_only_switch(w: WordView, words: Seq<WordView>)
    ensures
        w.text == "-u"@ || w.text == "--udp"@ ==> scanned(seq![w] + words, defaults())
            == match scanned(words, defaults()) {
            Ok(ParsedView::Run(a)) => Ok::<ParsedView, Seq<char>>(
                ParsedView::Run(ArgsView { udp: true, ..a }),
            ),
            other => other,
        },
        w.text == "--256"@ ==> scanned(seq![w] + words, defaults()) == match scanned(
            words,
            defaults(),
        ) {
            Ok(ParsedView::Run(a)) => Ok::<ParsedView, Seq<char>>(
                ParsedView::Run(ArgsView { force_256: true, ..a }),
            ),
            other => other,
        },
{
    lemma_vocabulary();
    let _ = value_flag(w.text);
    let all = seq![w] + words;
    assert(all.skip(1) =~= words);
    assert(all[0] == w);
    reveal(tells_apart);
    lemma_overlaid(words, defaults(), ArgsView { udp: true, ..defaults() }, None);
    lemma_overlaid(words, defaults(), ArgsView { force_256: true, ..defaults() }, None);
}

/// `-d`, `-T`, `--color` and `--port` do to any command line that says
/// nothing of the same option what they do to a bare target: they set their
/// own value, and nothing else.
pub proof fn law_options_only_set_their_own(
    f: WordView,
    v: WordView,
    words: Seq<WordView>,
    flag: Flag,
    target: WordView,
    a: ArgsView,
    b: ArgsView,
)
    requires
        value_flag(f.text) == Some(flag),
        flag is Delay || flag is Timeout || flag is Color || flag is Port,
        is_silent_on(words, flag),
        names_a_target(target),
        scanned(seq![f, v, target], defaults()) == Ok::<ParsedView, Seq<char>>(ParsedView::Run(a)),
        scanned(words, defaults()) == Ok::<ParsedView, Seq<char>>(ParsedView::Run(b)),
    ensures
        scanned(seq![f, v] + words, defaults()) == Ok::<ParsedView, Seq<char>>(
            ParsedView::Run(
                match flag {
                    Flag::Delay => ArgsView { delay: a.delay, ..b },
                    Flag::Timeout => ArgsView { fixed_timeout: a.fixed_timeout, ..b },
                    Flag::Color => ArgsView { color: a.color, ..b },
                    _ => ArgsView { port: a.port, ..b },
                },
            ),
        ),
{
    lemma_vocabulary();
    lemma_option(f, v, target, flag);
    let all = seq![f, v] + words;
    assert(all.skip(2) =~= words);
    assert(all[0] == f && all[1] == v);
    let set = with_value(flag, v, defaults())->Ok_0;
    reveal(tells_apart);
    lemma_overlaid(words, defaults(), set, Some(flag));
}

/// Two options with their values in front of a target.
proof fn lemma_two_options(
    f: WordView,
    v: WordView,
    g: WordView,
    u: WordView,
    w: WordView,
    first: Flag,
    second: Flag,
    a: ArgsView,
    b: ArgsView,
)
    requires
        names_a_target(w),
        value_flag(f.text) == Some(first),
        value_flag(g.text) == Some(second),
        with_value(first, v, defaults()) == Ok::<ArgsView, Seq<char>>(a),
        with_value(second, u, a) == Ok::<ArgsView, Seq<char>>(b),
    ensures
        scanned(seq![f, v, g, u, w], defaults()) == Ok::<ParsedView, Seq<char>>(
            ParsedView::Run(
                ArgsView {
                    target: w.text,
                    count: if b.count is None && b.secs is None {
                        Some(1000)
                    } else {
                        b.count
                    },
                    ..b
                },
            ),
        ),
{
    lemma_vocabulary();
    let all = seq![f, v, g, u, w];
    let rest = seq![g, u, w];
    assert(all.skip(2) =~= rest);
    assert(rest.skip(2) =~= seq![w]);
    assert(scanned(all, defaults()) == scanned(rest, a));
    assert(scanned(rest, a) == scanned(seq![w], b));
    lemma_target(w, b);
}

/// A run can have both bounds, in either order: a number of probes and a
/// duration.
pub proof fn law_both_bounds_are_kept(
    f: WordView,
    v: WordView,
    g: WordView,
    u: WordView,
    w: WordView,
    n: u64,
    ns: u64,
)
    requires
        f.text == "-c"@ || f.text == "--count"@,
        v.text == decimal(n as nat),
        g.text == "-t"@ || g.text == "--secs"@,
        u.secs == Reading::Span(ns),
        names_a_target(w),
    ensures
        ({
            let both = Ok::<ParsedView, Seq<char>>(
                ParsedView::Run(
                    ArgsView {
                        count: Some(n),
                        secs: Some(Limit::After(ns)),
                        ..plain_run(w.text)
                    },
                ),
            );
            &&& scanned(seq![f, v, g, u, w], defaults()) == both
            &&& scanned(seq![g, u, f, v, w], defaults()) == both
        }),
{
    lemma_vocabulary();
    let _ = value_flag(f.text);
    let _ = value_flag(g.text);
    law_numbers_read_back(n as nat, u64::MAX);
    let c = ArgsView { count: Some(n), ..defaults() };
    let t = ArgsView { secs: Some(Limit::After(ns)), ..defaults() };
    let both = ArgsView { count: Some(n), secs: Some(Limit::After(ns)), ..defaults() };
    lemma_two_options(f, v, g, u, w, Flag::Count, Flag::Secs, c, both);
    lemma_two_options(g, u, f, v, w, Flag::Secs, Flag::Count, t, both);
}

/// Of an option given twice, the last one counts.
pub proof fn law_the_last_one_counts(
    f: WordView,
    v: WordView,
    g: WordView,
    u: WordView,
    w: WordView,
    flag: Flag,
)
    requires
        value_flag(f.text) == Some(flag),
        value_flag(g.text) == Some(flag),
        names_a_target(w),
        scanned(seq![f, v, w], defaults()) is Ok,
        scanned(seq![g, u, w], defaults()) is Ok,
    ensures
        scanned(seq![f, v, g, u, w], defaults()) == scanned(seq![g, u, w], defaults()),
{
    lemma_option(f, v, w, flag);
    lemma_option(g, u, w, flag);
    let a = with_value(flag, v, defaults())->Ok_0;
    let b = with_value(flag, u, defaults())->Ok_0;
    assert(with_value(flag, u, a) == Ok::<ArgsView, Seq<char>>(b));
    lemma_two_options(f, v, g, u, w, flag, flag, a, b);
}

} // verus!
