//! ICMP echo on the wire: the request we send, the reply we recognise, and
//! what to make of what the socket hands us.

use crate::probe::{
    be16, fill, follow, is_transient_under, of_this_system, push_fill, step_after, system_codes,
    transient_under, Fault, FaultKind, Heard, OsCodes, Step,
};
use vstd::prelude::*;

verus! {

/// The sum of the 16-bit big-endian words of `data`; an odd last byte counts
/// as the high half of a word.
pub open spec fn word_sum(data: Seq<u8>) -> nat
    decreases data.len(),
{
    if data.len() == 0 {
        0
    } else if data.len() == 1 {
        data[0] as nat * 256
    } else {
        data[0] as nat * 256 + data[1] as nat + word_sum(data.skip(2))
    }
}

/// A sum brought down to 16 bits with end-around carry: the residue modulo
/// 65535, with 65535 itself standing for zero unless the sum is zero.
pub open spec fn end_around(sum: nat) -> nat {
    if sum > 0 && sum % 65535 == 0 {
        65535
    } else {
        sum % 65535
    }
}

/// The Internet checksum.
pub open spec fn checksum_of(data: Seq<u8>) -> u16 {
    (65535 - end_around(word_sum(data))) as u16
}

/// One carry: `sum`'s high half is added to its low half.
proof fn lemma_carry(sum: nat)
    requires
        sum >= 65536,
    ensures
        0 < sum % 65536 + sum / 65536 < sum,
        end_around(sum % 65536 + sum / 65536) == end_around(sum),
{
    let q = sum / 65536;
    let r = sum % 65536;
    assert(sum == 65535 * q + (q + r));
    vstd::arithmetic::div_mod::lemma_mod_multiples_vanish(q as int, (q + r) as int, 65535);
}

/// The Internet checksum of `data`.
pub fn checksum(data: &[u8]) -> (r: u16)
    requires
        word_sum(data@) <= u32::MAX,
    ensures
        r == checksum_of(data@),
{
    let mut sum: u32 = 0;
    let mut i: usize = 0;
    assert(data@.skip(0) =~= data@);
    while i < data.len()
        invariant
            i <= data@.len(),
            word_sum(data@) <= u32::MAX,
            sum + word_sum(data@.skip(i as int)) == word_sum(data@),
        decreases data@.len() - i,
    {
        let ghost rest = data@.skip(i as int);
        assert(rest[0] == data@[i as int]);
        if data.len() - i >= 2 {
            assert(rest[1] == data@[i + 1]);
            assert(rest.skip(2) =~= data@.skip(i + 2));
            let word: u32 = data[i] as u32 * 256 + data[i + 1] as u32;
            sum = sum + word;
            i += 2;
        } else {
            assert(data@.skip(i + 1) =~= Seq::<u8>::empty());
            sum = sum + data[i] as u32 * 256;
            i += 1;
        }
    }
    assert(data@.skip(i as int) =~= Seq::<u8>::empty());
    while sum >> 16 != 0
        invariant
            end_around(sum as nat) == end_around(word_sum(data@)),
        decreases sum,
    {
        assert(sum & 0xffff == sum % 65536) by (bit_vector);
        assert(sum >> 16 == sum / 65536) by (bit_vector);
        proof {
            lemma_carry(sum as nat);
        }
        sum = (sum & 0xffff) + (sum >> 16);
    }
    assert(sum >> 16 == 0 ==> sum < 65536) by (bit_vector);
    65535 - sum as u16
}

/// Dropping the first two bytes of a longer packet.
proof fn lemma_word_sum_front(data: Seq<u8>)
    requires
        data.len() >= 2,
    ensures
        word_sum(data) == data[0] as nat * 256 + data[1] as nat + word_sum(data.skip(2)),
{
}

/// Writing a 16-bit number over two zero bytes at an even offset adds it to
/// the word sum.
proof fn lemma_word_sum_write(data: Seq<u8>, at: int, v: u16)
    requires
        0 <= at,
        at % 2 == 0,
        at + 2 <= data.len(),
        data[at] == 0,
        data[at + 1] == 0,
    ensures
        word_sum(written(data, at, v)) == word_sum(data) + v,
    decreases at,
{
    let out = written(data, at, v);
    lemma_word_sum_front(data);
    lemma_word_sum_front(out);
    if at == 0 {
        assert(out.skip(2) =~= data.skip(2));
    } else {
        lemma_word_sum_write(data.skip(2), at - 2, v);
        assert(out.skip(2) =~= written(data.skip(2), at - 2, v));
    }
}

/// `data` with the bytes of `v` at `at`.
pub open spec fn written(data: Seq<u8>, at: int, v: u16) -> Seq<u8> {
    data.update(at, be16(v as nat)[0]).update(at + 1, be16(v as nat)[1])
}

/// A packet checksummed over itself, with the sum in place, checks to zero:
/// wherever the two bytes of the checksum field stand (at an even offset),
/// if they were zero when the sum was taken.
pub proof fn law_checksum_verifies(data: Seq<u8>, at: int)
    requires
        0 <= at,
        at % 2 == 0,
        at + 2 <= data.len(),
        data[at] == 0,
        data[at + 1] == 0,
    ensures
        checksum_of(written(data, at, checksum_of(data))) == 0,
{
    let s = word_sum(data);
    let ck = checksum_of(data);
    lemma_word_sum_write(data, at, ck);
    let total = s + ck as nat;
    assert(total % 65535 == 0) by {
        let q = (s / 65535) as int;
        assert(s == 65535 * q + s % 65535);
        if end_around(s) == 65535 {
        } else {
            assert(total == 65535 * (q + 1));
            vstd::arithmetic::div_mod::lemma_mod_multiples_basic(q + 1, 65535);
        }
    }
    assert(total > 0);
}

/// How many bytes of padding an echo request carries.
pub const FILL_LEN: usize = 20;

/// An echo request with `ck` in its checksum field. The header's sequence
/// field is 16 bits wide; the upper half of the sequence number rides in the
/// first two bytes of the payload.
pub open spec fn echo_bytes(ident: u16, seq: u32, ck: u16) -> Seq<u8> {
    seq![8u8, 0u8] + be16(ck as nat) + be16(ident as nat) + be16(seq as nat % 65536) + be16(
        seq as nat / 65536,
    ) + fill(FILL_LEN as nat)
}

/// The echo request for probe `seq`.
pub open spec fn echo_request_bytes(ident: u16, seq: u32) -> Seq<u8> {
    echo_bytes(ident, seq, checksum_of(echo_bytes(ident, seq, 0)))
}

proof fn lemma_word_sum_bound(data: Seq<u8>)
    ensures
        word_sum(data) <= 65535 * data.len(),
    decreases data.len(),
{
    if data.len() >= 2 {
        lemma_word_sum_bound(data.skip(2));
    }
}

fn push_be16(pkt: &mut Vec<u8>, v: u16)
    ensures
        final(pkt)@ == old(pkt)@ + be16(v as nat),
{
    pkt.push((v / 256) as u8);
    pkt.push((v % 256) as u8);
    assert(pkt@ =~= old(pkt)@ + be16(v as nat));
}

/// Build the echo request for probe `seq`.
pub fn echo_request(ident: u16, seq: u32) -> (pkt: Vec<u8>)
    ensures
        pkt@ == echo_request_bytes(ident, seq),
{
    let mut pkt: Vec<u8> = Vec::new();
    pkt.push(8);
    pkt.push(0);
    assert(pkt@ =~= seq![8u8, 0u8]);
    push_be16(&mut pkt, 0);
    push_be16(&mut pkt, ident);
    push_be16(&mut pkt, (seq % 65536) as u16);
    push_be16(&mut pkt, (seq / 65536) as u16);
    push_fill(&mut pkt, FILL_LEN);
    assert(pkt@ == echo_bytes(ident, seq, 0));
    proof {
        lemma_word_sum_bound(pkt@);
    }
    let ck: u16 = checksum(pkt.as_slice());
    pkt[2] = (ck / 256) as u8;
    pkt[3] = (ck % 256) as u8;
    assert(pkt@ =~= echo_request_bytes(ident, seq));
    pkt
}

/// Every echo request that goes out checks to zero at the other end.
pub proof fn law_request_checksum_verifies(ident: u16, seq: u32)
    ensures
        checksum_of(echo_request_bytes(ident, seq)) == 0,
{
    let blank = echo_bytes(ident, seq, 0);
    let ck = checksum_of(blank);
    law_checksum_verifies(blank, 2);
    assert(written(blank, 2, ck) =~= echo_request_bytes(ident, seq));
}

/// The ICMP part of what the kernel handed us: behind the IPv4 header where
/// the first byte says there is one (version nibble 4), else all of it.
pub open spec fn echo_part(raw: Seq<u8>) -> Option<Seq<u8>> {
    if raw.len() == 0 {
        None
    } else if raw[0] / 16 == 4 {
        let ihl = (raw[0] % 16) * 4;
        if ihl <= raw.len() {
            Some(raw.skip(ihl))
        } else {
            None
        }
    } else {
        Some(raw)
    }
}

/// The sequence number in an ICMP echo reply.
pub open spec fn reply_seq(echo: Seq<u8>) -> Option<u32> {
    if echo.len() >= 10 && echo[0] == 0 && echo[1] == 0 {
        Some(
            ((echo[8] * 256 + echo[9]) * 65536 + (echo[6] * 256 + echo[7])) as u32,
        )
    } else {
        None
    }
}

/// The sequence number, if `raw` is an ICMP echo reply.
pub open spec fn echo_reply_seq(raw: Seq<u8>) -> Option<u32> {
    match echo_part(raw) {
        Some(echo) => reply_seq(echo),
        None => None,
    }
}

/// Returns the sequence number if `raw` is an ICMP echo reply.
///
/// The kernel may hand us the packet with its IPv4 header still attached
/// (macOS does; Linux dgram doesn't). An IPv4 header starts with version
/// nibble 4; an echo reply starts with type byte 0, so the first byte
/// disambiguates.
///
/// We match on sequence number, not identifier: Linux dgram sockets rewrite
/// the id (and demux replies to us by it), and the socket is connected,
/// so what arrives here is already ours.
pub fn parse_echo_reply(raw: &[u8]) -> (r: Option<u32>)
    ensures
        r == echo_reply_seq(raw@),
{
    if raw.len() == 0 {
        return None;
    }
    let first: u8 = raw[0];
    assert(first >> 4 == first / 16) by (bit_vector);
    assert(first & 0xf == first % 16) by (bit_vector);
    let at: usize = if first >> 4 == 4 {
        let ihl: usize = (first & 0xf) as usize * 4;
        if ihl > raw.len() {
            return None;
        }
        ihl
    } else {
        0
    };
    let ghost echo = raw@.skip(at as int);
    assert(echo_part(raw@) == Some(echo)) by {
        if at == 0 {
            assert(echo =~= raw@);
        }
    }
    if raw.len() - at >= 10 && raw[at] == 0 && raw[at + 1] == 0 {
        let low: u32 = raw[at + 6] as u32 * 256 + raw[at + 7] as u32;
        let high: u32 = raw[at + 8] as u32 * 256 + raw[at + 9] as u32;
        Some(high * 65536 + low)
    } else {
        None
    }
}

/// What a host that answers sends back: the request with type 0 (reply).
/// Checksum and identifier are the responder's and the kernel's business.
pub open spec fn answers(reply: Seq<u8>, request: Seq<u8>) -> bool {
    &&& reply.len() == request.len()
    &&& reply[0] == 0
    &&& reply[1] == 0
    &&& forall|i: int| 6 <= i < reply.len() ==> reply[i] == request[i]
}

/// The reply to an echo request is read back as the very sequence number
/// that was sent, all 32 bits of it, whatever became of the checksum and the
/// identifier.
pub proof fn law_reply_returns_seq(ident: u16, seq: u32, reply: Seq<u8>)
    requires
        answers(reply, echo_request_bytes(ident, seq)),
    ensures
        echo_reply_seq(reply) == Some(seq),
{
    let req = echo_request_bytes(ident, seq);
    assert(reply[6] == req[6] && reply[7] == req[7] && reply[8] == req[8] && reply[9] == req[9]);
    assert(req[6] == be16(seq as nat % 65536)[0]);
    assert(req[7] == be16(seq as nat % 65536)[1]);
    assert(req[8] == be16(seq as nat / 65536)[0]);
    assert(req[9] == be16(seq as nat / 65536)[1]);
}

/// An IPv4 header in front of the reply changes nothing, where its first
/// byte states its own length.
pub proof fn law_ip_header_is_transparent(header: Seq<u8>, echo: Seq<u8>)
    requires
        header.len() > 0,
        header[0] / 16 == 4,
        header.len() == (header[0] % 16) * 4,
    ensures
        echo_reply_seq(header + echo) == reply_seq(echo),
{
    assert((header + echo).skip(header.len() as int) =~= echo);
}

/// What an ICMP engine makes of a datagram or a socket error, with the
/// system's outage codes given.
pub open spec fn heard_under(got: Result<Seq<u8>, Fault>, codes: OsCodes) -> Heard {
    match got {
        Ok(raw) => match echo_reply_seq(raw) {
            Some(seq) => Heard::Reply { seq },
            None => Heard::Nothing,
        },
        Err(fault) => match fault.kind {
            FaultKind::WouldBlock | FaultKind::TimedOut => Heard::Nothing,
            FaultKind::Interrupted => Heard::Interrupted,
            _ => if transient_under(fault.code, codes) {
                Heard::Nothing
            } else {
                Heard::Broken
            },
        },
    }
}

/// Judge a datagram.
pub fn judge_datagram(raw: &[u8]) -> (r: Heard)
    ensures
        forall|codes: OsCodes| r == #[trigger] heard_under(Ok(raw@), codes),
{
    match parse_echo_reply(raw) {
        Some(seq) => Heard::Reply { seq },
        None => Heard::Nothing,
    }
}

/// Judge a socket error by the system's outage codes. A transient local
/// outage is waited out until the deadline.
pub fn judge_fault_under(fault: Fault, codes: &OsCodes) -> (r: Heard)
    ensures
        r == heard_under(Err(fault), *codes),
{
    match fault.kind {
        FaultKind::WouldBlock | FaultKind::TimedOut => Heard::Nothing,
        FaultKind::Interrupted => Heard::Interrupted,
        _ => if is_transient_under(fault.code, codes) {
            Heard::Nothing
        } else {
            Heard::Broken
        },
    }
}

/// Judge a socket error by the codes of the system we run on.
pub fn judge_fault(fault: Fault) -> (r: Heard)
    ensures
        exists|codes: OsCodes|
            of_this_system(codes) && r == #[trigger] heard_under(Err(fault), codes),
{
    let codes = system_codes();
    judge_fault_under(fault, &codes)
}

/// A transient local outage is waited out: it neither ends the wait nor
/// passes for a reply, until the deadline.
pub proof fn law_an_outage_is_waited_out(fault: Fault, codes: OsCodes, now: u64, deadline: u64)
    requires
        transient_under(fault.code, codes),
        fault.kind !is Interrupted,
    ensures
        heard_under(Err(fault), codes) == Heard::Nothing,
        now < deadline ==> step_after(heard_under(Err(fault), codes), now, deadline) is Listen,
{
}

/// An ICMP echo engine, apart from its socket.
#[derive(Clone, Copy, Debug, PartialEq, Eq)]
pub struct Pinger {
    /// The identifier in the requests.
    pub ident: u16,
}

impl Pinger {
    /// An engine for the process `pid`: its requests carry the low half of
    /// that number.
    pub fn new(pid: u32) -> (p: Pinger)
        ensures
            p.ident == pid % 65536,
    {
        Pinger { ident: (pid % 65536) as u16 }
    }

    /// The one datagram to send for probe `seq`.
    pub fn send(&self, seq: u32) -> (pkt: Vec<u8>)
        ensures
            pkt@ == echo_request_bytes(self.ident, seq),
    {
        echo_request(self.ident, seq)
    }

    /// The socket handed out a datagram or an error while we wait for a
    /// reply, and `now` is on the clock since.
    pub fn recv(&self, got: Result<&[u8], Fault>, now: u64, deadline: u64) -> (r: Step)
        ensures
            got matches Ok(raw) ==> forall|codes: OsCodes|
                r == step_after(#[trigger] heard_under(Ok(raw@), codes), now, deadline),
            got matches Err(fault) ==> exists|codes: OsCodes|
                of_this_system(codes) && r == step_after(
                    #[trigger] heard_under(Err(fault), codes),
                    now,
                    deadline,
                ),
    {
        let heard = match got {
            Ok(raw) => judge_datagram(raw),
            Err(fault) => judge_fault(fault),
        };
        follow(heard, now, deadline)
    }
}

/// What goes out for probe `seq`, byte by byte; that it checks to zero; and
/// that its echo, the same packet with type 0, is read back as `seq`, all 32
/// bits of it.
pub proof fn law_probe_round_trip(ident: u16, seq: u32)
    ensures
        ({
            let p = echo_request_bytes(ident, seq);
            &&& p.len() == 30
            &&& p[0] == 8
            &&& p[1] == 0
            &&& p.subrange(4, 6) == be16(ident as nat)
            &&& p.subrange(10, 30) == fill(FILL_LEN as nat)
            &&& checksum_of(p) == 0
            &&& echo_reply_seq(p.update(0, 0u8)) == Some(seq)
        }),
{
    let p = echo_request_bytes(ident, seq);
    law_request_checksum_verifies(ident, seq);
    law_reply_returns_seq(ident, seq, p.update(0, 0u8));
    assert(p.subrange(4, 6) =~= be16(ident as nat));
    assert(p.subrange(10, 30) =~= fill(FILL_LEN as nat));
}

/// The sum over a packet is that of its parts, split at an even offset; two
/// bytes make a word, and an odd last byte is the high half of one.
pub proof fn law_word_sum_adds_up(a: Seq<u8>, b: Seq<u8>, x: u8, y: u8)
    requires
        a.len() % 2 == 0,
    ensures
        word_sum(a + b) == word_sum(a) + word_sum(b),
        word_sum(seq![x, y]) == 256 * x + y,
        word_sum(seq![x]) == 256 * x,
        word_sum(Seq::<u8>::empty()) == 0,
    decreases a.len(),
{
    assert(seq![x, y].skip(2) =~= Seq::<u8>::empty());
    assert(word_sum(Seq::<u8>::empty()) == 0);
    if a.len() == 0 {
        assert(a + b =~= b);
    } else {
        assert((a + b).skip(2) =~= a.skip(2) + b);
        law_word_sum_adds_up(a.skip(2), b, x, y);
    }
}

/// The checksum is the complement of the sum in 16-bit ones' complement
/// arithmetic: added to the sum it gives a multiple of 65535; and it is
/// 65535 only for a packet that sums to zero.
pub proof fn law_checksum_complements_the_sum(data: Seq<u8>)
    ensures
        (word_sum(data) + checksum_of(data)) % 65535 == 0,
        checksum_of(data) == 65535 <==> word_sum(data) == 0,
{
    let s = word_sum(data);
    let q = (s / 65535) as int;
    assert(s == 65535 * q + s % 65535);
    if s > 0 && s % 65535 == 0 {
        assert(checksum_of(data) == 0);
    } else {
        assert(s + checksum_of(data) == 65535 * (q + 1));
        vstd::arithmetic::div_mod::lemma_mod_multiples_basic(q + 1, 65535);
    }
}

/// What is read out of a reply, bare or behind an IPv4 header: bytes 6 and 7
/// are the low half of the number, 8 and 9 the high half.
pub proof fn law_a_reply_is_read_byte_by_byte(
    header: Seq<u8>,
    middle: Seq<u8>,
    seq: u32,
    rest: Seq<u8>,
)
    requires
        header.len() == 0 || (header[0] / 16 == 4 && header.len() == (header[0] % 16) * 4),
        middle.len() == 4,
    ensures
        echo_reply_seq(
            header + (seq![0u8, 0u8] + middle + seq![
                (seq / 256 % 256) as u8,
                (seq % 256) as u8,
                (seq / 16777216) as u8,
                (seq / 65536 % 256) as u8,
            ] + rest),
        ) == Some(seq),
{
    let echo = seq![0u8, 0u8] + middle + seq![
        (seq / 256 % 256) as u8,
        (seq % 256) as u8,
        (seq / 16777216) as u8,
        (seq / 65536 % 256) as u8,
    ] + rest;
    assert(echo[6] == seq / 256 % 256);
    assert(echo[7] == seq % 256);
    assert(echo[8] == seq / 16777216);
    assert(echo[9] == seq / 65536 % 256);
    assert(reply_seq(echo) == Some(seq));
    if header.len() == 0 {
        assert(header + echo =~= echo);
    } else {
        law_ip_header_is_transparent(header, echo);
    }
}

/// Nothing else passes for a reply: it takes type 0, code 0 and ten bytes.
pub proof fn law_only_replies_are_replies(raw: Seq<u8>)
    requires
        echo_reply_seq(raw) is Some,
    ensures
        raw[0] / 16 != 4 ==> raw.len() >= 10 && raw[0] == 0 && raw[1] == 0,
        raw[0] / 16 == 4 ==> ({
            let at = (raw[0] % 16) * 4;
            raw.len() >= at + 10 && raw[at] == 0 && raw[at + 1] == 0
        }),
{
}

/// What a socket error comes to: a wait that ran out is silence, a signal
/// interrupts, one of the six outages is silence, anything else is broken.
pub proof fn law_every_error_is_told_apart(fault: Fault, codes: OsCodes)
    ensures
        fault.kind is WouldBlock || fault.kind is TimedOut ==> heard_under(Err(fault), codes)
            == Heard::Nothing,
        fault.kind is Interrupted ==> heard_under(Err(fault), codes) == Heard::Interrupted,
        fault.kind is Other || fault.kind is ConnectionRefused ==> (heard_under(Err(fault), codes)
            == Heard::Nothing <==> transient_under(fault.code, codes)),
        fault.kind is Other || fault.kind is ConnectionRefused ==> (heard_under(Err(fault), codes)
            == Heard::Broken <==> !transient_under(fault.code, codes)),
{
}

} // verus!
