//! The UDP engine's rules, and the outage codes both engines share.

use s80::probe::{
    follow, is_transient, is_transient_under, wait, Fault, FaultKind, Heard, OsCodes, Recv, Step,
};
use s80::udp::{datagram, judge, judge_under, retry_send, UdpProber, DEFAULT_PORT};

fn fault(kind: FaultKind, code: Option<i32>) -> Fault {
    Fault { kind, code }
}

#[test]
fn datagram_layout() {
    let pkt = datagram(0x0001_abcd);
    assert_eq!(pkt.len(), 26);
    assert_eq!(&pkt[..2], &[0xab, 0xcd]);
    assert_eq!(&pkt[2..], b"s80!s80!s80!s80!s80!s80!");
    assert_eq!(DEFAULT_PORT, 33434);
}

#[test]
fn refused_is_a_round_trip() {
    assert_eq!(judge(9, None), Heard::Reply { seq: 9 });
    assert_eq!(
        judge(9, Some(fault(FaultKind::ConnectionRefused, Some(libc::ECONNREFUSED)))),
        Heard::Reply { seq: 9 }
    );
    assert_eq!(judge(9, Some(fault(FaultKind::WouldBlock, None))), Heard::Nothing);
    assert_eq!(judge(9, Some(fault(FaultKind::TimedOut, None))), Heard::Nothing);
    assert_eq!(judge(9, Some(fault(FaultKind::Interrupted, None))), Heard::Interrupted);
    // every outage is waited out
    for code in [
        libc::ENETUNREACH,
        libc::EHOSTUNREACH,
        libc::ENETDOWN,
        libc::EHOSTDOWN,
        libc::ENOBUFS,
        libc::EPERM,
    ] {
        assert_eq!(judge(9, Some(fault(FaultKind::Other, Some(code)))), Heard::Nothing);
    }
    assert_eq!(judge(9, Some(fault(FaultKind::Other, Some(libc::EBADF)))), Heard::Broken);
    assert_eq!(judge(9, Some(fault(FaultKind::Other, None))), Heard::Broken);
    let codes = OsCodes {
        net_unreachable: 1,
        host_unreachable: 2,
        net_down: 3,
        host_down: 4,
        no_buffers: 5,
        not_permitted: 6,
    };
    assert_eq!(judge_under(3, Some(fault(FaultKind::Other, Some(2))), &codes), Heard::Nothing);
    assert_eq!(judge_under(3, Some(fault(FaultKind::Other, Some(3))), &codes), Heard::Nothing);
    assert_eq!(judge_under(3, Some(fault(FaultKind::Other, Some(7))), &codes), Heard::Broken);
}

#[test]
fn stale_unreachable_is_retried() {
    assert!(retry_send(fault(FaultKind::ConnectionRefused, None)));
    assert!(!retry_send(fault(FaultKind::Other, Some(libc::ENETDOWN))));
}

#[test]
fn wait_is_never_zero() {
    let late = |overshoot| Step::Return { recv: Recv::TimedOut { overshoot } };
    assert_eq!(wait(10_000, 10_000), late(0));
    assert_eq!(wait(12_345, 10_000), late(2_345));
    assert_eq!(wait(9_999, 10_000), Step::Listen { timeout: 1_000 });
    assert_eq!(wait(9_000, 10_000), Step::Listen { timeout: 1_000 });
    assert_eq!(wait(0, 5_000_000), Step::Listen { timeout: 5_000_000 });
    assert_eq!(follow(Heard::Nothing, 4_999_500, 5_000_000), Step::Listen { timeout: 1_000 });
    assert_eq!(follow(Heard::Broken, 0, 1), Step::Fail);
    assert_eq!(follow(Heard::Interrupted, 0, 1), Step::Return { recv: Recv::Interrupted });
    assert_eq!(
        follow(Heard::Reply { seq: 3 }, 8, 1),
        Step::Return { recv: Recv::Reply { seq: 3, at: 8 } }
    );
}

#[test]
fn udp_replies_are_for_the_last_probe() {
    let mut p = UdpProber::new();
    assert_eq!(p.last_seq, 0);
    let pkt = p.send(0x0007_0102);
    assert_eq!(&pkt[..2], &[1, 2]);
    let reply = Step::Return { recv: Recv::Reply { seq: 0x0007_0102, at: 40 } };
    assert_eq!(p.recv(None, 40, 100), reply);
    let refused = fault(FaultKind::ConnectionRefused, Some(libc::ECONNREFUSED));
    assert_eq!(p.recv(Some(refused), 40, 100), reply);
}

#[test]
fn udp_outages_end_in_a_timeout_not_an_error() {
    let p = UdpProber::new();
    for code in [libc::ENETDOWN, libc::ENOBUFS, libc::EPERM] {
        let down = Some(fault(FaultKind::Other, Some(code)));
        assert_eq!(p.recv(down, 1_000, 9_000), Step::Listen { timeout: 8_000 });
        assert_eq!(
            p.recv(down, 9_007, 9_000),
            Step::Return { recv: Recv::TimedOut { overshoot: 7 } }
        );
    }
    assert_eq!(p.recv(Some(fault(FaultKind::Other, Some(libc::EBADF))), 1, 9_000), Step::Fail);
}

#[test]
fn outage_codes_are_transient() {
    for code in [
        libc::ENETUNREACH,
        libc::EHOSTUNREACH,
        libc::ENETDOWN,
        libc::EHOSTDOWN,
        libc::ENOBUFS,
        libc::EPERM,
    ] {
        assert!(is_transient(Some(code)));
    }
    for code in [libc::ECONNREFUSED, libc::EBADF, libc::EINTR, 0] {
        assert!(!is_transient(Some(code)));
    }
    assert!(!is_transient(None));
    let codes = OsCodes {
        net_unreachable: 10,
        host_unreachable: 20,
        net_down: 30,
        host_down: 40,
        no_buffers: 50,
        not_permitted: 60,
    };
    assert!(is_transient_under(Some(60), &codes));
    assert!(!is_transient_under(Some(61), &codes));
}
