//! What every probe engine speaks: send a numbered probe, wait for evidence
//! of a round trip. Instants and spans are nanoseconds on one monotonic
//! clock.

use vstd::prelude::*;

verus! {

/// What a wait for a reply came to.
#[derive(Clone, Copy, Debug, PartialEq, Eq, Structural)]
pub enum Recv {
    /// A reply to probe `seq` landed at instant `at`.
    Reply { seq: u32, at: u64 },
    /// Deadline passed. An `overshoot` far beyond the deadline means the OS
    /// stalled us (scheduler, sleep): the sample is a lie, not a loss.
    TimedOut { overshoot: u64 },
    /// A signal cut the wait short.
    Interrupted,
}

/// A probe engine: something that owns a socket.
pub trait Prober {
    /// What a socket call fails with.
    type Error;

    /// Send probe number `seq`.
    fn send(&mut self, seq: u32) -> Result<(), Self::Error>;

    /// Block until a reply arrives or `deadline` passes.
    fn recv(&mut self, deadline: u64) -> Result<Recv, Self::Error>;
}

/// The kinds of socket error that steer a probe engine.
#[derive(Clone, Copy, Debug, PartialEq, Eq, Structural)]
pub enum FaultKind {
    WouldBlock,
    TimedOut,
    Interrupted,
    ConnectionRefused,
    Other,
}

/// A socket error: its kind, and the operating system's code where it has
/// one.
#[derive(Clone, Copy, Debug, PartialEq, Eq, Structural)]
pub struct Fault {
    pub kind: FaultKind,
    pub code: Option<i32>,
}

/// The operating system's numbers for the errors of a local outage.
#[derive(Clone, Copy, Debug, PartialEq, Eq, Structural)]
pub struct OsCodes {
    pub net_unreachable: i32,
    pub host_unreachable: i32,
    pub net_down: i32,
    pub host_down: i32,
    pub no_buffers: i32,
    pub not_permitted: i32,
}

/// Reads the constants `ENETUNREACH`, `EHOSTUNREACH`, `ENETDOWN`,
/// `EHOSTDOWN`, `ENOBUFS` and `EPERM` of libc. Nothing is claimed of the
/// numbers: each target has its own.
#[verifier::external_body]
pub(crate) fn os_codes() -> (codes: OsCodes) {
    OsCodes {
        net_unreachable: libc::ENETUNREACH,
        host_unreachable: libc::EHOSTUNREACH,
        net_down: libc::ENETDOWN,
        host_down: libc::EHOSTDOWN,
        no_buffers: libc::ENOBUFS,
        not_permitted: libc::EPERM,
    }
}

/// `codes` are the numbers of the system we run on: `os_codes` can hand them
/// out.
pub open(crate) spec fn of_this_system(codes: OsCodes) -> bool {
    call_ensures(os_codes, (), codes)
}

/// The numbers of the system we run on.
pub(crate) fn system_codes() -> (codes: OsCodes)
    ensures
        of_this_system(codes),
{
    os_codes()
}

/// `code` is one of the outage codes.
pub open spec fn transient_under(code: Option<i32>, codes: OsCodes) -> bool {
    match code {
        Some(c) => {
            ||| c == codes.net_unreachable
            ||| c == codes.host_unreachable
            ||| c == codes.net_down
            ||| c == codes.host_down
            ||| c == codes.no_buffers
            ||| c == codes.not_permitted
        },
        None => false,
    }
}

/// Whether `code` is one of the outage codes in `codes`.
pub fn is_transient_under(code: Option<i32>, codes: &OsCodes) -> (r: bool)
    ensures
        r == transient_under(code, *codes),
{
    match code {
        Some(c) => c == codes.net_unreachable || c == codes.host_unreachable || c == codes.net_down
            || c == codes.host_down || c == codes.no_buffers || c == codes.not_permitted,
        None => false,
    }
}

/// Errors that describe a transient local outage (route flap, interface
/// down, kernel rate-limit) rather than broken program state. The run
/// must survive these: dying mid-incident is failing at the exact
/// moment the tool exists for. `code` is the operating system's error code;
/// an error without one is never transient.
pub fn is_transient(code: Option<i32>) -> (r: bool)
    ensures
        exists|codes: OsCodes|
            of_this_system(codes) && r == #[trigger] transient_under(code, codes),
        code is None ==> !r,
{
    let codes = system_codes();
    is_transient_under(code, &codes)
}

/// What an engine makes of what its socket handed it.
#[derive(Clone, Copy, Debug, PartialEq, Eq, Structural)]
pub enum Heard {
    /// A round trip to the target, proven for probe `seq`.
    Reply { seq: u32 },
    /// Nothing that concerns us: keep waiting until the deadline.
    Nothing,
    /// A signal arrived.
    Interrupted,
    /// The socket is broken: hand the error up.
    Broken,
}

/// What an engine that waits for a reply does next.
#[derive(Clone, Copy, Debug, PartialEq, Eq, Structural)]
pub enum Step {
    /// Block on the socket for at most `timeout`.
    Listen { timeout: u64 },
    /// The wait is over; it came to this.
    Return { recv: Recv },
    /// The wait is over: hand the socket's error up.
    Fail,
}

/// The shortest time to block. A sub-µs remainder would become a zero socket
/// timeout, and zero means "block forever"; the deadline is looked at again
/// after every wait, so rounding up is safe. Rounding down hangs.
pub const LEAST_WAIT: u64 = 1_000;

/// With `now` on the clock: give up at the deadline, before it listen.
pub open spec fn wait_step(now: u64, deadline: u64) -> Step {
    if now >= deadline {
        Step::Return { recv: Recv::TimedOut { overshoot: (now - deadline) as u64 } }
    } else if deadline - now < LEAST_WAIT {
        Step::Listen { timeout: LEAST_WAIT }
    } else {
        Step::Listen { timeout: (deadline - now) as u64 }
    }
}

/// Start to wait for a reply, or go on after nothing was heard.
pub fn wait(now: u64, deadline: u64) -> (r: Step)
    ensures
        r == wait_step(now, deadline),
{
    if now >= deadline {
        Step::Return { recv: Recv::TimedOut { overshoot: now - deadline } }
    } else {
        let left: u64 = deadline - now;
        Step::Listen {
            timeout: if left < LEAST_WAIT {
                LEAST_WAIT
            } else {
                left
            },
        }
    }
}

/// What follows from what was heard, with `now` on the clock since.
pub open spec fn step_after(heard: Heard, now: u64, deadline: u64) -> Step {
    match heard {
        Heard::Reply { seq } => Step::Return { recv: Recv::Reply { seq, at: now } },
        Heard::Nothing => wait_step(now, deadline),
        Heard::Interrupted => Step::Return { recv: Recv::Interrupted },
        Heard::Broken => Step::Fail,
    }
}

/// Go on after `heard`, with `now` on the clock since.
pub fn follow(heard: Heard, now: u64, deadline: u64) -> (r: Step)
    ensures
        r == step_after(heard, now, deadline),
{
    match heard {
        Heard::Reply { seq } => Step::Return { recv: Recv::Reply { seq, at: now } },
        Heard::Nothing => wait(now, deadline),
        Heard::Interrupted => Step::Return { recv: Recv::Interrupted },
        Heard::Broken => Step::Fail,
    }
}

/// A whole wait that starts at `now`: what it comes to if the socket hands
/// out `heard`, each with the instant after it, for as long as it is asked.
/// Where that is not enough to end the wait, it is still listening.
pub open spec fn waited(now: u64, heard: Seq<(Heard, u64)>, deadline: u64) -> Step
    decreases heard.len(),
{
    match wait_step(now, deadline) {
        Step::Listen { timeout } => if heard.len() == 0 {
            Step::Listen { timeout }
        } else if heard[0].0 is Nothing {
            waited(heard[0].1, heard.skip(1), deadline)
        } else {
            step_after(heard[0].0, heard[0].1, deadline)
        },
        over => over,
    }
}

/// A wait ends: if nothing is heard until the deadline has passed, it has
/// timed out, and its overshoot is how late the clock was looked at.
pub proof fn law_silence_times_out(now: u64, heard: Seq<(Heard, u64)>, deadline: u64)
    requires
        now < deadline,
        heard.len() > 0,
        forall|i: int| 0 <= i < heard.len() ==> (#[trigger] heard[i]).0 is Nothing,
        forall|i: int| 0 <= i < heard.len() - 1 ==> (#[trigger] heard[i]).1 < deadline,
        heard.last().1 >= deadline,
    ensures
        waited(now, heard, deadline) == (Step::Return {
            recv: Recv::TimedOut { overshoot: (heard.last().1 - deadline) as u64 },
        }),
    decreases heard.len(),
{
    let rest = heard.skip(1);
    assert(heard[0].0 is Nothing);
    if rest.len() > 0 {
        assert forall|i: int| 0 <= i < rest.len() implies (#[trigger] rest[i]).0 is Nothing by {
            assert(rest[i] == heard[i + 1]);
        }
        assert forall|i: int| 0 <= i < rest.len() - 1 implies (#[trigger] rest[i]).1
            < deadline by {
            assert(rest[i] == heard[i + 1]);
        }
        assert(rest.last() == heard.last());
        law_silence_times_out(heard[0].1, rest, deadline);
    } else {
        assert(waited(heard[0].1, rest, deadline) == wait_step(heard[0].1, deadline));
    }
    assert(waited(now, heard, deadline) == waited(heard[0].1, rest, deadline));
}

/// The first thing heard decides: silence before it changes nothing.
pub proof fn law_the_first_word_counts(
    now: u64,
    silence: Seq<(Heard, u64)>,
    heard: Heard,
    at: u64,
    deadline: u64,
)
    requires
        now < deadline,
        forall|i: int|
            0 <= i < silence.len() ==> (#[trigger] silence[i]).0 is Nothing && silence[i].1
                < deadline,
        heard !is Nothing,
    ensures
        waited(now, silence.push((heard, at)), deadline) == step_after(heard, at, deadline),
    decreases silence.len(),
{
    let all = silence.push((heard, at));
    if silence.len() > 0 {
        let rest = silence.skip(1);
        assert(all[0] == silence[0]);
        assert(all.skip(1) =~= rest.push((heard, at)));
        assert forall|i: int| 0 <= i < rest.len() implies (#[trigger] rest[i]).0 is Nothing
            && rest[i].1 < deadline by {
            assert(rest[i] == silence[i + 1]);
        }
        law_the_first_word_counts(silence[0].1, rest, heard, at, deadline);
        assert(waited(now, all, deadline) == waited(silence[0].1, all.skip(1), deadline));
    }
}

/// The padding of a probe: `s80!`, over and over.
pub open spec fn fill(n: nat) -> Seq<u8> {
    Seq::new(n, |i: int| fill_byte(i))
}

pub open spec fn fill_byte(i: int) -> u8 {
    if i % 4 == 0 {
        0x73
    } else if i % 4 == 1 {
        0x38
    } else if i % 4 == 2 {
        0x30
    } else {
        0x21
    }
}

/// Append `n` bytes of padding.
pub(crate) fn push_fill(pkt: &mut Vec<u8>, n: usize)
    ensures
        final(pkt)@ == old(pkt)@ + fill(n as nat),
{
    let mut i: usize = 0;
    assert(pkt@ =~= old(pkt)@ + fill(0));
    while i < n
        invariant
            i <= n,
            pkt@ == old(pkt)@ + fill(i as nat),
        decreases n - i,
    {
        let b: u8 = if i % 4 == 0 {
            0x73
        } else if i % 4 == 1 {
            0x38
        } else if i % 4 == 2 {
            0x30
        } else {
            0x21
        };
        pkt.push(b);
        i += 1;
        assert(pkt@ =~= old(pkt)@ + fill(i as nat));
    }
}

/// The two bytes of a 16-bit number, network order.
pub open spec fn be16(v: nat) -> Seq<u8> {
    seq![(v / 256) as u8, (v % 256) as u8]
}

/// The six outages are transient, and nothing else is.
pub proof fn law_six_outages_are_transient(c: i32, codes: OsCodes)
    ensures
        transient_under(Some(c), codes) <==> set![
            codes.net_unreachable,
            codes.host_unreachable,
            codes.net_down,
            codes.host_down,
            codes.no_buffers,
            codes.not_permitted,
        ].contains(c),
        !transient_under(None, codes),
{
}

/// A wait is over exactly when the deadline is, and its overshoot is the time
/// since. Before that it blocks no shorter than to the deadline, no shorter
/// than 1 µs, and no longer than the longer of the two.
pub proof fn law_a_wait_lasts_to_the_deadline(now: u64, deadline: u64)
    ensures
        wait_step(now, deadline) matches Step::Return { recv } ==> deadline <= now
            && (recv matches Recv::TimedOut { overshoot } && deadline + overshoot == now),
        wait_step(now, deadline) matches Step::Listen { timeout } ==> {
            &&& now < deadline
            &&& deadline <= now + timeout
            &&& 1_000 <= timeout
            &&& timeout == 1_000 || now + timeout == deadline
        },
        wait_step(now, deadline) !is Fail,
{
}

/// What was heard is handed on: a reply under its number and with the instant
/// it was heard at, a signal as such, an error as such; silence is waited on.
pub proof fn law_what_is_heard_is_handed_on(seq: u32, now: u64, deadline: u64)
    ensures
        step_after(Heard::Reply { seq }, now, deadline) == (Step::Return {
            recv: Recv::Reply { seq, at: now },
        }),
        step_after(Heard::Interrupted, now, deadline) == (Step::Return {
            recv: Recv::Interrupted,
        }),
        step_after(Heard::Broken, now, deadline) == Step::Fail,
        now < deadline ==> step_after(Heard::Nothing, now, deadline) is Listen,
        now >= deadline ==> step_after(Heard::Nothing, now, deadline) == (Step::Return {
            recv: Recv::TimedOut { overshoot: (now - deadline) as u64 },
        }),
{
}

/// The padding reads `s80!`, over and over.
pub proof fn law_padding_reads_s80(n: nat, i: int)
    ensures
        fill(n).len() == n,
        0 <= i < n ==> fill(n)[i] == seq![0x73u8, 0x38u8, 0x30u8, 0x21u8][i % 4],
{
}

/// Network order: the first byte counts 256 times the second.
pub proof fn law_network_order(v: u16)
    ensures
        be16(v as nat).len() == 2,
        be16(v as nat)[0] * 256 + be16(v as nat)[1] == v,
{
}

} // verus!
