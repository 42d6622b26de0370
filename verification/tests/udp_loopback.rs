use dragon_net::errno::SystemError;
use dragon_net::inet::{IpAddress, IpEndpoint};
use dragon_net::udp_inner::{BoundUdp, UnboundUdp};
use smoltcp::iface::{Config, Interface, SocketSet};
use smoltcp::phy::{Loopback, Medium};
use smoltcp::time::Instant;
use smoltcp::wire::{HardwareAddress, IpCidr};

fn lo(port: u16) -> IpEndpoint {
    IpEndpoint::new(IpAddress::v4(127, 0, 0, 1), port)
}

fn bound(port: u16) -> BoundUdp {
    UnboundUdp::new().bind(lo(port), Ok(port)).unwrap()
}

/// Carries whatever the senders queued to the receivers over a loopback
/// interface, and hands the sockets back.
fn deliver(sockets_in: Vec<BoundUdp>) -> Vec<BoundUdp> {
    let mut device = Loopback::new(Medium::Ip);
    let mut iface = Interface::new(Config::new(HardwareAddress::Ip), &mut device, Instant::from_millis(0));
    iface.update_ip_addrs(|addrs| {
        addrs.push(IpCidr::new(smoltcp::wire::IpAddress::v4(127, 0, 0, 1), 8)).unwrap();
    });
    let mut set = SocketSet::new(vec![]);
    let mut handles = Vec::new();
    for b in sockets_in {
        let (socket, remote, explicit) = b.into_parts();
        handles.push((set.add(socket), remote, explicit));
    }
    for t in 0..10 {
        iface.poll(Instant::from_millis(t), &mut device, &mut set);
    }
    let mut out = Vec::new();
    for (h, remote, explicit) in handles {
        match set.remove(h) {
            smoltcp::socket::Socket::Udp(s) => out.push(BoundUdp::from_parts(s, remote, explicit)),
            _ => panic!("udp socket expected"),
        }
    }
    out
}

#[test]
fn unconnected_socket_receives_from_anyone() {
    let server = bound(7000);
    let mut a = bound(7001);
    assert_eq!(a.try_send(b"hello", Some(lo(7000))), Ok(5));
    let mut socks = deliver(vec![server, a]);
    let mut server = socks.remove(0);
    let mut buf = [0u8; 16];
    assert_eq!(server.try_recv(&mut buf), Ok((5, lo(7001))));
    assert_eq!(&buf[..5], b"hello");
    assert_eq!(server.try_recv(&mut buf), Err(SystemError::EAGAIN_OR_EWOULDBLOCK));
}

#[test]
fn connected_socket_skips_other_sources() {
    let mut server = bound(7100);
    server.connect(lo(7102));
    let mut a = bound(7101);
    let mut b = bound(7102);
    assert_eq!(a.try_send(b"from-a", Some(lo(7100))), Ok(6));
    assert_eq!(b.try_send(b"from-b", Some(lo(7100))), Ok(6));
    assert_eq!(a.try_send(b"again-a", Some(lo(7100))), Ok(7));
    let mut socks = deliver(vec![server, a, b]);
    let mut server = socks.remove(0);
    let mut buf = [0u8; 16];
    assert_eq!(server.try_recv(&mut buf), Ok((6, lo(7102))));
    assert_eq!(&buf[..6], b"from-b");
    // The datagram from 7101 that followed is dropped too.
    assert_eq!(server.try_recv(&mut buf), Err(SystemError::EAGAIN_OR_EWOULDBLOCK));
    server.disconnect();
    assert_eq!(server.try_recv(&mut buf), Err(SystemError::EAGAIN_OR_EWOULDBLOCK));
}

#[test]
fn datagram_too_large_for_buffer() {
    let server = bound(7200);
    let mut a = bound(7201);
    assert_eq!(a.try_send(b"0123456789", Some(lo(7200))), Ok(10));
    assert_eq!(a.try_send(b"ok", Some(lo(7200))), Ok(2));
    let mut socks = deliver(vec![server, a]);
    let mut server = socks.remove(0);
    let mut small = [0u8; 4];
    // Not connected: the datagram that does not fit is dropped.
    assert_eq!(server.try_recv(&mut small), Err(SystemError::EAGAIN_OR_EWOULDBLOCK));
    assert_eq!(server.try_recv(&mut small), Ok((2, lo(7201))));
    assert_eq!(&small[..2], b"ok");
}

#[test]
fn connected_socket_keeps_datagram_that_does_not_fit() {
    let mut server = bound(7300);
    server.connect(lo(7301));
    let mut a = bound(7301);
    assert_eq!(a.try_send(b"0123456789", Some(lo(7300))), Ok(10));
    let mut socks = deliver(vec![server, a]);
    let mut server = socks.remove(0);
    let mut small = [0u8; 4];
    assert_eq!(server.try_recv(&mut small), Err(SystemError::EAGAIN_OR_EWOULDBLOCK));
    let mut big = [0u8; 16];
    assert_eq!(server.try_recv(&mut big), Ok((10, lo(7301))));
    assert_eq!(&big[..10], b"0123456789");
}

#[test]
fn send_to_connected_peer_and_unspecified_address() {
    let server = bound(7400);
    let mut a = bound(7401);
    assert_eq!(a.try_send(b"x", None), Err(SystemError::ENOTCONN));
    a.connect(lo(7400));
    assert_eq!(a.try_send(b"to-peer", None), Ok(7));
    assert_eq!(a.try_send(b"to-any", Some(IpEndpoint::new(IpAddress::v4(0, 0, 0, 0), 7400))), Ok(6));
    let mut socks = deliver(vec![server, a]);
    let mut server = socks.remove(0);
    let mut buf = [0u8; 16];
    assert_eq!(server.try_recv(&mut buf), Ok((7, lo(7401))));
    assert_eq!(&buf[..7], b"to-peer");
    assert_eq!(server.try_recv(&mut buf), Ok((6, lo(7401))));
    assert_eq!(&buf[..6], b"to-any");
}

#[test]
fn bound_socket_parts() {
    let mut b = UnboundUdp::new().bind_ephemeral(Ok((IpAddress::v4(0, 0, 0, 0), 40000))).unwrap();
    assert!(b.should_unbind_on_disconnect());
    assert_eq!(b.endpoint().port, 40000);
    assert_eq!(b.endpoint().addr, None);
    assert_eq!(b.remote_endpoint(), Err(SystemError::ENOTCONN));
    assert!(b.can_send());
    assert!(!b.can_recv());
    assert_eq!(b.payload_send_capacity(), 65536);
    assert_eq!(b.payload_recv_capacity(), 65536);
    assert_eq!(b.with_socket(|s| s.endpoint().port), 40000);
    assert_eq!(b.close(), 40000);
    assert_eq!(b.endpoint().port, 0);
    let e = bound(7500);
    assert!(!e.should_unbind_on_disconnect());
    assert!(UnboundUdp::new().bind(lo(0), Ok(0)).is_err());
    assert!(UnboundUdp::new().bind_ephemeral(Err(SystemError::ENOBUFS)).is_err());
}

#[test]
fn empty_receive_leaves_buffer_untouched() {
    let mut s = bound(7400);
    let mut buf = [7u8; 8];
    assert!(!s.can_recv());
    assert_eq!(s.try_recv(&mut buf), Err(SystemError::EAGAIN_OR_EWOULDBLOCK));
    assert_eq!(buf, [7u8; 8]);
}

#[test]
fn received_datagram_fills_only_its_length() {
    let server = bound(7500);
    let mut a = bound(7501);
    assert_eq!(a.try_send(b"abc", Some(lo(7500))), Ok(3));
    let mut socks = deliver(vec![server, a]);
    let mut server = socks.remove(0);
    assert!(server.can_recv());
    let mut buf = [9u8; 6];
    assert_eq!(server.try_recv(&mut buf), Ok((3, lo(7501))));
    assert_eq!(buf, [b'a', b'b', b'c', 9, 9, 9]);
    assert!(!server.can_recv());
}

#[test]
fn send_with_room_succeeds_and_full_payload_ring_refuses() {
    let mut a = bound(7600);
    let big = vec![1u8; 40000];
    assert_eq!(a.try_send(&big, Some(lo(7601))), Ok(40000));
    assert_eq!(a.try_send(&big, Some(lo(7601))), Err(SystemError::ENOBUFS));
    assert_eq!(a.try_send(b"small", Some(lo(7601))), Ok(5));
    assert_eq!(a.try_send(b"x", Some(lo(0))), Err(SystemError::ENOBUFS));
}
