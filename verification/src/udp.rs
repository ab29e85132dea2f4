//! UDP probing, traceroute-style: a datagram to a (presumably closed) high
//! port draws an ICMP port-unreachable from the target. On a *connected*
//! UDP socket the kernel hands us that as "connection refused" on the next
//! receive: a round-trip proof with no raw socket and no privileges at all.
//!
//! For hosts that ignore ICMP echo but still run an IP stack (plenty of
//! routers), this is the honest fallback. Caveats, honestly stated: the
//! reply carries no sequence number, so it's attributed to the probe in
//! flight (unambiguous while serial, but a reply that crosses its own
//! timeout boundary lands on the next probe), and many devices rate-limit
//! unreachables (Linux default: ~1/s): a sparse comb against such a box
//! is the policer talking, not the path.

use crate::probe::{
    be16, fill, follow, is_transient_under, of_this_system, push_fill, step_after, system_codes,
    law_silence_times_out, transient_under, waited, Fault, FaultKind, Heard, OsCodes, Recv, Step,
};
use vstd::prelude::*;

verus! {

/// Traceroute's classic base port.
pub const DEFAULT_PORT: u16 = 33434;

/// How many bytes of padding a datagram carries.
pub const FILL_LEN: usize = 24;

/// The datagram for probe `seq`: the low half of the sequence number, then
/// padding.
pub open spec fn datagram_bytes(seq: u32) -> Seq<u8> {
    be16(seq as nat % 65536) + fill(FILL_LEN as nat)
}

/// Build the datagram for probe `seq`.
pub fn datagram(seq: u32) -> (pkt: Vec<u8>)
    ensures
        pkt@ == datagram_bytes(seq),
{
    let mut pkt: Vec<u8> = Vec::new();
    pkt.push((seq % 65536 / 256) as u8);
    pkt.push((seq % 256) as u8);
    assert(pkt@ =~= be16(seq as nat % 65536));
    push_fill(&mut pkt, FILL_LEN);
    pkt
}

/// Whether a failed send deserves a second try. A stale unreachable (from an
/// earlier probe) can surface as a pending error on send; it is cleared by
/// surfacing.
pub fn retry_send(fault: Fault) -> (r: bool)
    ensures
        r == (fault.kind == FaultKind::ConnectionRefused),
{
    fault.kind == FaultKind::ConnectionRefused
}

/// What a UDP engine makes of a datagram (`None`) or a socket error, with
/// `last_seq` in flight. A port unreachable proves the round trip; so does
/// data, which means the port is open and something answered. A transient
/// outage (here, or at a mid-path router) is no round trip to the target: it
/// is waited out until the deadline.
pub open spec fn heard_under(last_seq: u32, got: Option<Fault>, codes: OsCodes) -> Heard {
    match got {
        None => Heard::Reply { seq: last_seq },
        Some(fault) => match fault.kind {
            FaultKind::ConnectionRefused => Heard::Reply { seq: last_seq },
            FaultKind::WouldBlock | FaultKind::TimedOut => Heard::Nothing,
            FaultKind::Interrupted => Heard::Interrupted,
            FaultKind::Other => if transient_under(fault.code, codes) {
                Heard::Nothing
            } else {
                Heard::Broken
            },
        },
    }
}

/// Judge what came in by the given outage codes.
pub fn judge_under(last_seq: u32, got: Option<Fault>, codes: &OsCodes) -> (r: Heard)
    ensures
        r == heard_under(last_seq, got, *codes),
{
    match got {
        None => Heard::Reply { seq: last_seq },
        Some(fault) => match fault.kind {
            FaultKind::ConnectionRefused => Heard::Reply { seq: last_seq },
            FaultKind::WouldBlock | FaultKind::TimedOut => Heard::Nothing,
            FaultKind::Interrupted => Heard::Interrupted,
            FaultKind::Other => if is_transient_under(fault.code, codes) {
                Heard::Nothing
            } else {
                Heard::Broken
            },
        },
    }
}

/// Judge what came in by the codes of the system we run on.
pub fn judge(last_seq: u32, got: Option<Fault>) -> (r: Heard)
    ensures
        exists|codes: OsCodes|
            of_this_system(codes) && r == #[trigger] heard_under(last_seq, got, codes),
{
    let codes = system_codes();
    judge_under(last_seq, got, &codes)
}

/// A transient local outage is waited out: it neither ends the wait nor
/// passes for a reply, until the deadline.
pub proof fn law_an_outage_is_waited_out(
    last_seq: u32,
    fault: Fault,
    codes: OsCodes,
    now: u64,
    deadline: u64,
)
    requires
        transient_under(fault.code, codes),
        fault.kind !is Interrupted,
        fault.kind !is ConnectionRefused,
    ensures
        heard_under(last_seq, Some(fault), codes) == Heard::Nothing,
        now < deadline ==> step_after(
            heard_under(last_seq, Some(fault), codes),
            now,
            deadline,
        ) is Listen,
{
}

/// So a wait with nothing but outages in it, up to the deadline, has timed
/// out: the run survives it.
pub proof fn law_an_outage_ends_in_a_timeout(
    last_seq: u32,
    faults: Seq<(Fault, u64)>,
    codes: OsCodes,
    now: u64,
    deadline: u64,
)
    requires
        now < deadline,
        faults.len() > 0,
        forall|i: int|
            0 <= i < faults.len() ==> (#[trigger] faults[i]).0.kind is Other && transient_under(
                faults[i].0.code,
                codes,
            ),
        forall|i: int| 0 <= i < faults.len() - 1 ==> (#[trigger] faults[i]).1 < deadline,
        faults.last().1 >= deadline,
    ensures
        waited(
            now,
            faults.map_values(|f: (Fault, u64)| (heard_under(last_seq, Some(f.0), codes), f.1)),
            deadline,
        ) == (Step::Return {
            recv: Recv::TimedOut { overshoot: (faults.last().1 - deadline) as u64 },
        }),
{
    let heard = faults.map_values(
        |f: (Fault, u64)| (heard_under(last_seq, Some(f.0), codes), f.1),
    );
    assert forall|i: int| 0 <= i < heard.len() implies (#[trigger] heard[i]).0 is Nothing by {
        assert(faults[i].0.kind is Other);
    }
    assert forall|i: int| 0 <= i < heard.len() - 1 implies (#[trigger] heard[i]).1 < deadline by {
        assert(faults[i].1 < deadline);
    }
    law_silence_times_out(now, heard, deadline);
}

/// A UDP engine, apart from its socket.
#[derive(Clone, Copy, Debug, PartialEq, Eq)]
pub struct UdpProber {
    /// The probe in flight.
    pub last_seq: u32,
}

impl UdpProber {
    /// An engine that has sent nothing yet.
    pub fn new() -> (p: UdpProber)
        ensures
            p.last_seq == 0,
    {
        UdpProber { last_seq: 0 }
    }

    /// The datagram to send for probe `seq`, which is in flight from now on.
    pub fn send(&mut self, seq: u32) -> (pkt: Vec<u8>)
        ensures
            final(self).last_seq == seq,
            pkt@ == datagram_bytes(seq),
    {
        self.last_seq = seq;
        datagram(seq)
    }

    /// The socket handed out a datagram (`None`) or an error while we wait
    /// for a reply, and `now` is on the clock since.
    pub fn recv(&self, got: Option<Fault>, now: u64, deadline: u64) -> (r: Step)
        ensures
            exists|codes: OsCodes|
                of_this_system(codes) && r == step_after(
                    #[trigger] heard_under(self.last_seq, got, codes),
                    now,
                    deadline,
                ),
    {
        follow(judge(self.last_seq, got), now, deadline)
    }
}

/// A reply is for the probe in flight: both a port unreachable and data of
/// any content end the wait as a reply to the last probe sent, and no wait
/// ends as a reply to another.
pub proof fn law_reply_is_for_the_probe_in_flight(
    sent: UdpProber,
    got: Option<Fault>,
    codes: OsCodes,
    now: u64,
    deadline: u64,
)
    ensures
        got is None || got->0.kind is ConnectionRefused ==> step_after(
            heard_under(sent.last_seq, got, codes),
            now,
            deadline,
        ) == (Step::Return { recv: Recv::Reply { seq: sent.last_seq, at: now } }),
        step_after(heard_under(sent.last_seq, got, codes), now, deadline) matches Step::Return {
            recv: Recv::Reply { seq, at },
        } ==> seq == sent.last_seq && at == now,
{
}

/// What goes out for probe `seq`: 26 bytes, the first two of which say the
/// low half of its number, the rest `s80!` over and over.
pub proof fn law_datagram_says_its_number(seq: u32, i: int)
    ensures
        datagram_bytes(seq).len() == 26,
        datagram_bytes(seq)[0] * 256 + datagram_bytes(seq)[1] == seq % 65536,
        2 <= i < 26 ==> datagram_bytes(seq)[i] == seq![0x73u8, 0x38u8, 0x30u8, 0x21u8][(i - 2) % 4],
{
}

/// What a socket error comes to: a refusal is a round trip, a wait that ran
/// out is silence, a signal interrupts, one of the six outages is silence,
/// anything else is broken.
pub proof fn law_every_error_is_told_apart(last_seq: u32, fault: Fault, codes: OsCodes)
    ensures
        fault.kind is ConnectionRefused ==> heard_under(last_seq, Some(fault), codes) == (
        Heard::Reply { seq: last_seq }),
        fault.kind is WouldBlock || fault.kind is TimedOut ==> heard_under(
            last_seq,
            Some(fault),
            codes,
        ) == Heard::Nothing,
        fault.kind is Interrupted ==> heard_under(last_seq, Some(fault), codes)
            == Heard::Interrupted,
        fault.kind is Other ==> (heard_under(last_seq, Some(fault), codes) == Heard::Nothing
            <==> transient_under(fault.code, codes)),
        fault.kind is Other ==> (heard_under(last_seq, Some(fault), codes) == Heard::Broken
            <==> !transient_under(fault.code, codes)),
{
}

} // verus!
