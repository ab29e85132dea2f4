//! The echo packets, as bytes.

use s80::icmp::{
    checksum, echo_request, judge_datagram, judge_fault, judge_fault_under, parse_echo_reply,
    Pinger,
};
use s80::probe::{Fault, FaultKind, Heard, OsCodes, Recv, Step};

#[test]
fn checksum_verifies() {
    // a packet checksummed over itself (with the sum in place) folds to 0
    let mut pkt = [0u8; 16];
    pkt[0] = 8;
    pkt[6] = 0x12;
    pkt[7] = 0x34;
    let ck = checksum(&pkt);
    pkt[2..4].copy_from_slice(&ck.to_be_bytes());
    assert_eq!(checksum(&pkt), 0);
}

#[test]
fn parses_bare_and_ip_wrapped_replies() {
    let mut icmp = [0u8; 32];
    icmp[6] = 0xab;
    icmp[7] = 0xcd;
    icmp[8] = 0x01;
    icmp[9] = 0x02;
    assert_eq!(parse_echo_reply(&icmp), Some(0x0102_abcd));

    let mut wrapped = vec![0u8; 20 + 32];
    wrapped[0] = 0x45;
    wrapped[20..].copy_from_slice(&icmp);
    assert_eq!(parse_echo_reply(&wrapped), Some(0x0102_abcd));
}

#[test]
fn rejects_replies_too_short_for_the_epoch() {
    let icmp = [0u8; 9]; // valid echo reply header but no epoch bytes
    assert_eq!(parse_echo_reply(&icmp), None);
}

#[test]
fn rejects_non_replies() {
    let mut req = [0u8; 32];
    req[0] = 8; // echo request, not reply
    assert_eq!(parse_echo_reply(&req), None);
    assert_eq!(parse_echo_reply(&[]), None);
}

#[test]
fn checksum_of_known_words() {
    assert_eq!(checksum(&[]), 0xffff);
    assert_eq!(checksum(&[0x00, 0x01]), 0xfffe);
    // an odd byte is the high half of a word
    assert_eq!(checksum(&[0x12]), !0x1200u16);
    // end-around carry: ffff + 0001 -> 0001
    assert_eq!(checksum(&[0xff, 0xff, 0x00, 0x01]), 0xfffe);
    // the example of RFC 1071: the words sum to ddf2
    assert_eq!(
        checksum(&[0x00, 0x01, 0xf2, 0x03, 0xf4, 0xf5, 0xf6, 0xf7]),
        !0xddf2u16
    );
}

#[test]
fn echo_request_layout() {
    let pkt = echo_request(0xbeef, 0x0102_abcd);
    assert_eq!(pkt.len(), 30);
    assert_eq!(&pkt[0..2], &[8, 0]);
    assert_eq!(&pkt[4..6], &[0xbe, 0xef]);
    assert_eq!(&pkt[6..8], &[0xab, 0xcd]);
    assert_eq!(&pkt[8..10], &[0x01, 0x02]);
    assert_eq!(&pkt[10..], b"s80!s80!s80!s80!s80!");
    assert_eq!(checksum(&pkt), 0);
}

#[test]
fn reply_returns_the_sequence_number() {
    for seq in [0u32, 1, 0xffff, 0x1_0000, 0x1234_5678, u32::MAX] {
        let mut reply = echo_request(7, seq);
        reply[0] = 0;
        reply[2] = 0x55; // checksum and id are not ours to check
        reply[4] = 0xaa;
        assert_eq!(parse_echo_reply(&reply), Some(seq));
        let mut wrapped = vec![0u8; 24];
        wrapped[0] = 0x46;
        wrapped.extend_from_slice(&reply);
        assert_eq!(parse_echo_reply(&wrapped), Some(seq));
    }
}

#[test]
fn ip_header_longer_than_the_packet() {
    assert_eq!(parse_echo_reply(&[0x4f, 0, 0]), None);
    assert_eq!(parse_echo_reply(&[0x45; 20]), None);
    // code other than 0
    let mut icmp = [0u8; 16];
    icmp[1] = 1;
    assert_eq!(parse_echo_reply(&icmp), None);
}

#[test]
fn pinger_round_trip() {
    let p = Pinger::new(0x0012_3456);
    assert_eq!(p.ident, 0x3456);
    let mut pkt = p.send(0xfedc_ba98);
    assert_eq!(pkt, echo_request(0x3456, 0xfedc_ba98));
    // our own request is no reply
    assert_eq!(p.recv(Ok(&pkt), 1_000, 9_000), Step::Listen { timeout: 8_000 });
    pkt[0] = 0;
    assert_eq!(
        p.recv(Ok(&pkt), 1_000, 9_000),
        Step::Return { recv: Recv::Reply { seq: 0xfedc_ba98, at: 1_000 } }
    );
    let down = Fault { kind: FaultKind::Other, code: Some(libc::ENETDOWN) };
    assert_eq!(p.recv(Err(down), 1_000, 9_000), Step::Listen { timeout: 8_000 });
    let signal = Fault { kind: FaultKind::Interrupted, code: Some(libc::EINTR) };
    assert_eq!(p.recv(Err(signal), 1, 9_000), Step::Return { recv: Recv::Interrupted });
    let broken = Fault { kind: FaultKind::Other, code: Some(libc::EBADF) };
    assert_eq!(p.recv(Err(broken), 1, 9_000), Step::Fail);
}

#[test]
fn icmp_judges_what_the_socket_says() {
    let mut reply = echo_request(1, 77);
    assert_eq!(judge_datagram(&reply), Heard::Nothing);
    reply[0] = 0;
    assert_eq!(judge_datagram(&reply), Heard::Reply { seq: 77 });

    let fault = |kind, code| Fault { kind, code };
    assert_eq!(judge_fault(fault(FaultKind::WouldBlock, None)), Heard::Nothing);
    assert_eq!(judge_fault(fault(FaultKind::TimedOut, None)), Heard::Nothing);
    assert_eq!(judge_fault(fault(FaultKind::Interrupted, None)), Heard::Interrupted);
    assert_eq!(judge_fault(fault(FaultKind::Other, Some(libc::ENETDOWN))), Heard::Nothing);
    assert_eq!(judge_fault(fault(FaultKind::Other, Some(libc::EBADF))), Heard::Broken);
    assert_eq!(judge_fault(fault(FaultKind::ConnectionRefused, Some(libc::ECONNREFUSED))), Heard::Broken);
    assert_eq!(judge_fault(fault(FaultKind::Other, None)), Heard::Broken);

    let codes = OsCodes {
        net_unreachable: 1,
        host_unreachable: 2,
        net_down: 3,
        host_down: 4,
        no_buffers: 5,
        not_permitted: 6,
    };
    assert_eq!(judge_fault_under(fault(FaultKind::Other, Some(4)), &codes), Heard::Nothing);
    assert_eq!(judge_fault_under(fault(FaultKind::Other, Some(7)), &codes), Heard::Broken);
}
