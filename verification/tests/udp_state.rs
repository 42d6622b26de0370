use dragon_net::errno::SystemError;
use dragon_net::inet::{Endpoint, IpAddress, IpEndpoint, IpListenEndpoint};
use dragon_net::udp::{PortRequest, RecvAction, Registration, UdpSocket, MSG_DONTWAIT, SOL_IP, SOL_IPV6};

fn v4(a: u8, b: u8, c: u8, d: u8) -> IpAddress {
    IpAddress::v4(a, b, c, d)
}

fn ep(addr: IpAddress, port: u16) -> IpEndpoint {
    IpEndpoint::new(addr, port)
}

/// A port manager that hands out 49152 for ephemeral requests and grants
/// any specific port.
fn grant(_addr: IpAddress, req: PortRequest) -> Result<u16, SystemError> {
    match req {
        PortRequest::Ephemeral => Ok(49152),
        PortRequest::Specific(p) => Ok(p),
    }
}

/// A namespace that binds implicitly to 10.0.0.2 on port 50000.
fn route(_remote: IpAddress) -> Result<(IpAddress, u16), SystemError> {
    Ok((IpAddress::v4(10, 0, 0, 2), 50000))
}

#[test]
fn new_socket_is_unbound() {
    let mut s = UdpSocket::new(false);
    assert!(!s.is_bound());
    assert!(!s.is_nonblock());
    assert_eq!(s.send(&[1, 2, 3], 0), Err(SystemError::EDESTADDRREQ));
    let mut buf = [0u8; 8];
    assert_eq!(s.try_recv(&mut buf), Err(SystemError::EAGAIN_OR_EWOULDBLOCK));
    assert_eq!(s.remote_endpoint(), Err(SystemError::ENOTCONN));
    assert_eq!(s.local_endpoint(), Ok(Endpoint::Ip(ep(v4(0, 0, 0, 0), 0))));
    assert!(s.can_send());
    assert!(!s.can_recv());
    assert_eq!(s.check_io_event(), 0x304);
    assert_eq!(s.send_buffer_size(), 65536);
    assert_eq!(s.recv_buffer_size(), 65536);
    assert!(UdpSocket::new(true).is_nonblock());
}

#[test]
fn bind_reports_local_endpoint() {
    let mut s = UdpSocket::new(false);
    assert!(s.do_bind(ep(v4(127, 0, 0, 1), 8000), grant).is_ok());
    assert!(s.is_bound());
    assert_eq!(s.local_endpoint(), Ok(Endpoint::Ip(ep(v4(127, 0, 0, 1), 8000))));
    assert_eq!(s.check_io_event(), 0x304);
    assert_eq!(s.send_buffer_size(), 65536);
}

#[test]
fn bind_to_port_zero_takes_ephemeral_port() {
    let mut s = UdpSocket::new(false);
    let mut asked = None;
    let r = s.do_bind(ep(v4(0, 0, 0, 0), 0), |a, req| {
        asked = Some((a, req));
        Ok(49152)
    });
    assert_eq!(r, Ok(Registration { local: IpListenEndpoint { addr: None, port: 49152 } }));
    assert_eq!(asked, Some((v4(0, 0, 0, 0), PortRequest::Ephemeral)));
    assert_eq!(s.local_endpoint(), Ok(Endpoint::Ip(ep(v4(0, 0, 0, 0), 49152))));
}

#[test]
fn second_bind_is_refused() {
    let mut s = UdpSocket::new(false);
    assert!(s.do_bind(ep(v4(127, 0, 0, 1), 8000), grant).is_ok());
    let mut called = false;
    let r = s.do_bind(ep(v4(127, 0, 0, 1), 9000), |_, _| {
        called = true;
        Ok(9000)
    });
    assert_eq!(r, Err(SystemError::EINVAL));
    assert!(!called);
    assert_eq!(s.local_endpoint(), Ok(Endpoint::Ip(ep(v4(127, 0, 0, 1), 8000))));
}

#[test]
fn port_manager_error_is_passed_on() {
    let mut s = UdpSocket::new(false);
    let r = s.do_bind(ep(v4(127, 0, 0, 1), 80), |_, _| Err(SystemError::EINVAL));
    assert_eq!(r, Err(SystemError::EINVAL));
    assert!(!s.is_bound());
    let r = s.do_bind(ep(v4(127, 0, 0, 1), 0), |_, _| Ok(0));
    assert_eq!(r, Err(SystemError::EINVAL));
    assert!(!s.is_bound());
    assert!(s.do_bind(ep(v4(127, 0, 0, 1), 81), grant).is_ok());
}

#[test]
fn bind_needs_an_ip_endpoint() {
    let mut s = UdpSocket::new(false);
    assert_eq!(s.bind(Endpoint::Other, grant), Err(SystemError::EAFNOSUPPORT));
    assert_eq!(s.bind(Endpoint::Unspecified, grant), Err(SystemError::EAFNOSUPPORT));
    assert_eq!(
        s.bind(Endpoint::Ip(ep(v4(127, 0, 0, 1), 7)), grant),
        Ok(Registration { local: IpListenEndpoint { addr: Some(v4(127, 0, 0, 1)), port: 7 } })
    );
}

#[test]
fn connect_binds_implicitly_and_sets_peer() {
    let mut s = UdpSocket::new(false);
    let peer = ep(v4(10, 0, 0, 9), 53);
    let mut asked = None;
    let r = s.connect(Endpoint::Ip(peer), |a| {
        asked = Some(a);
        route(a)
    });
    assert_eq!(r, Ok(()));
    assert_eq!(asked, Some(v4(10, 0, 0, 9)));
    assert!(s.is_bound());
    assert_eq!(s.remote_endpoint(), Ok(Endpoint::Ip(peer)));
    assert_eq!(s.local_endpoint(), Ok(Endpoint::Ip(ep(v4(10, 0, 0, 2), 50000))));
    assert_eq!(s.connect(Endpoint::Unspecified, route), Ok(()));
    assert_eq!(s.remote_endpoint(), Err(SystemError::ENOTCONN));
    assert_eq!(s.connect(Endpoint::Other, route), Err(SystemError::EAFNOSUPPORT));
}

#[test]
fn connect_failure_leaves_socket_unbound() {
    let mut s = UdpSocket::new(false);
    let r = s.connect(Endpoint::Ip(ep(v4(10, 0, 0, 9), 53)), |_| Err(SystemError::ENOBUFS));
    assert_eq!(r, Err(SystemError::ENOBUFS));
    assert!(!s.is_bound());
    assert_eq!(s.connect(Endpoint::Unspecified, route), Ok(()));
    assert_eq!(s.remote_endpoint(), Err(SystemError::ENOTCONN));
}

#[test]
fn local_endpoint_reports_loopback_for_loopback_peer() {
    let mut s = UdpSocket::new(false);
    assert!(s.do_bind(ep(v4(0, 0, 0, 0), 7000), grant).is_ok());
    assert_eq!(s.connect(Endpoint::Ip(ep(v4(127, 0, 0, 5), 9)), route), Ok(()));
    assert_eq!(s.local_endpoint(), Ok(Endpoint::Ip(ep(v4(127, 0, 0, 1), 7000))));
    assert_eq!(s.connect(Endpoint::Ip(ep(v4(8, 8, 8, 8), 9)), route), Ok(()));
    assert_eq!(s.local_endpoint(), Ok(Endpoint::Ip(ep(v4(0, 0, 0, 0), 7000))));
}

#[test]
fn send_to_binds_implicitly() {
    let mut s = UdpSocket::new(false);
    let r = s.send_to(&[1, 2, 3, 4], 0, Endpoint::Ip(ep(v4(10, 0, 0, 9), 53)), route);
    assert_eq!(r, Ok(4));
    assert!(s.is_bound());
    assert_eq!(s.send(&[1], 0), Err(SystemError::ENOTCONN));
    assert_eq!(s.send_to(&[1], 0, Endpoint::Other, route), Err(SystemError::EINVAL));
}

#[test]
fn try_send_without_destination_on_unbound_socket() {
    let mut s = UdpSocket::new(false);
    let mut called = false;
    let r = s.try_send(&[1], None, |a| {
        called = true;
        route(a)
    });
    assert_eq!(r, Err(SystemError::EDESTADDRREQ));
    assert!(!called);
    assert!(!s.is_bound());
}

#[test]
fn send_to_port_zero_is_refused() {
    let mut s = UdpSocket::new(false);
    let r = s.send_to(&[1], 0, Endpoint::Ip(ep(v4(10, 0, 0, 9), 0)), route);
    assert_eq!(r, Err(SystemError::ENOBUFS));
}

#[test]
fn send_to_unspecified_goes_to_loopback() {
    let mut s = UdpSocket::new(false);
    assert!(s.do_bind(ep(v4(0, 0, 0, 0), 6000), grant).is_ok());
    assert_eq!(s.send_to(&[9, 9], 0, Endpoint::Ip(ep(v4(0, 0, 0, 0), 7000)), route), Ok(2));
}

#[test]
fn oversized_datagram_is_refused() {
    let mut s = UdpSocket::new(false);
    assert!(s.do_bind(ep(v4(127, 0, 0, 1), 6000), grant).is_ok());
    let big = vec![0u8; 65537];
    assert_eq!(s.send_to(&big, 0, Endpoint::Ip(ep(v4(127, 0, 0, 1), 7000)), route), Err(SystemError::ENOBUFS));
}

#[test]
fn close_releases_port_and_later_calls_fail() {
    let mut s = UdpSocket::new(false);
    assert_eq!(s.close(), None);
    assert!(!s.is_bound());
    assert!(s.do_bind(ep(v4(127, 0, 0, 1), 4242), grant).is_ok());
    assert_eq!(s.do_close(), Ok(Some(4242)));
    let mut buf = [0u8; 4];
    assert_eq!(s.try_recv(&mut buf), Err(SystemError::EBADF));
    assert_eq!(s.send(&[1], 0), Err(SystemError::EBADF));
    assert_eq!(s.try_send(&[1], Some(ep(v4(1, 2, 3, 4), 5)), route), Err(SystemError::EBADF));
    assert_eq!(s.do_bind(ep(v4(127, 0, 0, 1), 1), grant), Err(SystemError::EBADF));
    assert_eq!(s.bind_ephemeral(v4(1, 2, 3, 4), route), Err(SystemError::EBADF));
    assert_eq!(s.connect(Endpoint::Ip(ep(v4(1, 2, 3, 4), 5)), route), Err(SystemError::EBADF));
    assert_eq!(s.remote_endpoint(), Err(SystemError::EBADF));
    assert_eq!(s.local_endpoint(), Err(SystemError::EBADF));
    assert_eq!(s.check_io_event(), 0x18);
    assert!(!s.can_send());
    assert!(!s.can_recv());
    assert_eq!(s.close(), None);
}

#[test]
fn bind_ephemeral_keeps_a_bound_socket() {
    let mut s = UdpSocket::new(false);
    assert!(s.do_bind(ep(v4(127, 0, 0, 1), 5555), grant).is_ok());
    let mut called = false;
    assert_eq!(
        s.bind_ephemeral(v4(1, 1, 1, 1), |a| {
            called = true;
            route(a)
        }),
        Ok(())
    );
    assert!(!called);
    assert_eq!(s.local_endpoint(), Ok(Endpoint::Ip(ep(v4(127, 0, 0, 1), 5555))));
}

#[test]
fn recv_waits_only_when_blocking() {
    let mut s = UdpSocket::new(false);
    assert!(s.do_bind(ep(v4(127, 0, 0, 1), 5000), grant).is_ok());
    let mut buf = [0u8; 16];
    assert!(matches!(s.recv(&mut buf, 0), RecvAction::Wait));
    assert!(matches!(
        s.recv(&mut buf, MSG_DONTWAIT),
        RecvAction::Done(Err(SystemError::EAGAIN_OR_EWOULDBLOCK))
    ));
    let mut n = UdpSocket::new(true);
    assert!(matches!(n.recv(&mut buf, 0), RecvAction::Done(Err(SystemError::EAGAIN_OR_EWOULDBLOCK))));
    assert!(matches!(
        n.recv_from(&mut buf, 0, None, route),
        RecvAction::Done(Err(SystemError::EAGAIN_OR_EWOULDBLOCK))
    ));
    assert!(matches!(s.recv_from(&mut buf, 0, None, route), RecvAction::Wait));
}

#[test]
fn recv_from_connects_first() {
    let mut s = UdpSocket::new(true);
    let mut buf = [0u8; 16];
    let peer = ep(v4(10, 0, 0, 7), 99);
    let r = s.recv_from(&mut buf, 0, Some(Endpoint::Ip(peer)), route);
    assert!(matches!(r, RecvAction::Done(Err(SystemError::EAGAIN_OR_EWOULDBLOCK))));
    assert_eq!(s.remote_endpoint(), Ok(Endpoint::Ip(peer)));
    let r = s.recv_from(&mut buf, 0, Some(Endpoint::Other), route);
    assert!(matches!(r, RecvAction::Done(Err(SystemError::EAFNOSUPPORT))));
}

fn ip_table(level: u32, name: u32) -> Option<u32> {
    // A small option table: names up to 64 are options of both levels.
    let _ = level;
    if name <= 64 {
        Some(name)
    } else {
        None
    }
}

#[test]
fn recverr_option_reads_as_disabled() {
    let s = UdpSocket::new(false);
    let mut value = [0xffu8; 6];
    assert_eq!(s.option(SOL_IP, 11, &mut value, ip_table), Ok(4));
    assert_eq!(value, [0, 0, 0, 0, 0xff, 0xff]);
    let mut value = [0xffu8; 4];
    assert_eq!(s.option(SOL_IPV6, 25, &mut value, ip_table), Ok(4));
    assert_eq!(value, [0, 0, 0, 0]);
    let mut short = [0xffu8; 3];
    assert_eq!(s.option(SOL_IP, 11, &mut short, ip_table), Err(SystemError::EINVAL));
    assert_eq!(short, [0xff, 0xff, 0xff]);
    assert_eq!(s.option(SOL_IP, 2, &mut value, ip_table), Err(SystemError::ENOSYS));
    assert_eq!(s.option(SOL_IP, 100, &mut value, ip_table), Err(SystemError::ENOPROTOOPT));
    assert_eq!(s.option(6, 11, &mut value, ip_table), Err(SystemError::ENOSYS));
}

#[test]
fn recverr_option_can_be_set() {
    let s = UdpSocket::new(false);
    assert_eq!(s.set_option(SOL_IP, 11, &[1, 0, 0, 0], ip_table), Ok(()));
    assert_eq!(s.set_option(SOL_IPV6, 25, &[1, 0, 0, 0], ip_table), Ok(()));
    assert_eq!(s.set_option(SOL_IPV6, 11, &[1], ip_table), Err(SystemError::ENOSYS));
    assert_eq!(s.set_option(SOL_IP, 1000, &[1], ip_table), Err(SystemError::ENOPROTOOPT));
    assert_eq!(s.set_option(17, 11, &[1], ip_table), Err(SystemError::ENOSYS));
}

#[test]
fn option_answer_does_not_depend_on_state() {
    let closed = {
        let mut s = UdpSocket::new(false);
        assert!(s.do_bind(ep(v4(127, 0, 0, 1), 8100), grant).is_ok());
        s.close();
        s
    };
    let unbound = UdpSocket::new(true);
    let mut bound = UdpSocket::new(false);
    assert!(bound.do_bind(ep(v4(127, 0, 0, 1), 8101), grant).is_ok());
    for s in [&closed, &unbound, &bound] {
        let mut value = [0xaau8; 5];
        assert_eq!(s.option(SOL_IP, 11, &mut value, ip_table), Ok(4));
        assert_eq!(value, [0, 0, 0, 0, 0xaa]);
        assert_eq!(s.option(SOL_IP, 200, &mut value, ip_table), Err(SystemError::ENOPROTOOPT));
    }
}

#[test]
fn option_and_set_option_agree_on_errors() {
    let s = UdpSocket::new(false);
    for (level, name) in [(SOL_IP, 11u32), (SOL_IPV6, 25), (SOL_IP, 25), (SOL_IP, 300), (7, 11)] {
        let mut value = [0u8; 4];
        let read = s.option(level, name as usize, &mut value, ip_table);
        let set = s.set_option(level, name as usize, &[1, 0, 0, 0], ip_table);
        assert_eq!(set.is_ok(), read == Ok(4));
        assert_eq!(set.err(), read.err());
    }
}

#[test]
fn bound_socket_polls_readable_only_with_a_datagram() {
    let mut s = UdpSocket::new(false);
    assert!(s.do_bind(ep(v4(127, 0, 0, 1), 8200), grant).is_ok());
    assert_eq!(s.check_io_event(), 0x304);
    assert!(!s.can_recv());
    assert!(s.can_send());
}

#[test]
fn explicit_bind_hands_back_the_registration() {
    let mut s = UdpSocket::new(false);
    assert_eq!(
        s.do_bind(ep(v4(10, 0, 0, 7), 5353), grant),
        Ok(Registration { local: IpListenEndpoint { addr: Some(v4(10, 0, 0, 7)), port: 5353 } })
    );
    let mut t = UdpSocket::new(false);
    assert_eq!(t.do_bind(ep(v4(10, 0, 0, 7), 0), |_, _| Err(SystemError::EINVAL)), Err(SystemError::EINVAL));
}
