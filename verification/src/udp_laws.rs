//! Properties of the UDP socket that span its calls.
use vstd::prelude::*;
use crate::errno::SystemError;
use crate::inet::{IpAddress, IpEndpoint, Endpoint, IPV4_LOOPBACK, spec_is_unspecified};
use crate::udp::{
    PortRequest, Registration, UdpInner, bind_outcome, connect_outcome, ephemeral_bound, is_ip_level,
    local_endpoint_of, option_outcome, poll_events, port_request_for, remote_endpoint_of, set_option_outcome,
    try_recv_outcome, writable_events,
};
use crate::udp_inner::{BoundUdp, Datagram, UnboundUdp, chosen_port, pick_from, recv_pick, send_target};

verus! {

/// After a connect to an IP endpoint succeeds, the socket reports that
/// endpoint as its peer.
pub proof fn lemma_connect_then_remote_endpoint<G: FnOnce(IpAddress) -> Result<(IpAddress, u16), SystemError>>(
    before: Option<UdpInner>,
    after: Option<UdpInner>,
    remote: IpEndpoint,
    allocate: G,
    r: Result<(), SystemError>,
)
    requires
        connect_outcome(before, after, Endpoint::Ip(remote), allocate, r),
        r is Ok,
    ensures
        remote_endpoint_of(after) == Ok::<Endpoint, SystemError>(Endpoint::Ip(remote)),
{
}

/// After a bound socket is disconnected (a connect to `Unspecified`), it
/// reports no peer.
pub proof fn lemma_disconnect_then_remote_endpoint<G: FnOnce(IpAddress) -> Result<(IpAddress, u16), SystemError>>(
    before: Option<UdpInner>,
    after: Option<UdpInner>,
    allocate: G,
    r: Result<(), SystemError>,
)
    requires
        connect_outcome(before, after, Endpoint::Unspecified, allocate, r),
        before matches Some(UdpInner::Bound(_)),
    ensures
        r is Ok,
        remote_endpoint_of(after) == Err::<Endpoint, SystemError>(SystemError::ENOTCONN),
{
}

/// A closed socket stays closed: receiving and connecting answer `EBADF`
/// and leave it closed, and it reports no endpoints.
pub proof fn lemma_closed_socket_stays_closed<G: FnOnce(IpAddress) -> Result<(IpAddress, u16), SystemError>>(
    after_recv: Option<UdpInner>,
    buf0: Seq<u8>,
    buf1: Seq<u8>,
    r_recv: Result<(usize, IpEndpoint), SystemError>,
    after_connect: Option<UdpInner>,
    remote: IpEndpoint,
    allocate: G,
    r_connect: Result<(), SystemError>,
)
    requires
        try_recv_outcome(None, after_recv, buf0, buf1, r_recv),
        connect_outcome(None, after_connect, Endpoint::Ip(remote), allocate, r_connect),
    ensures
        after_recv is None,
        r_recv == Err::<(usize, IpEndpoint), SystemError>(SystemError::EBADF),
        buf1 == buf0,
        after_connect is None,
        r_connect == Err::<(), SystemError>(SystemError::EBADF),
        remote_endpoint_of(None) == Err::<Endpoint, SystemError>(SystemError::EBADF),
        local_endpoint_of(None) == Err::<Endpoint, SystemError>(SystemError::EBADF),
{
}

/// A connected socket receives only from its peer: what a receive takes
/// came from the peer, fits the buffer and was waiting, and what is left
/// is what followed some point of the queue.
pub proof fn lemma_connected_receives_only_from_peer(rx: Seq<Datagram>, peer: IpEndpoint, cap: nat)
    ensures
        ({
            let (pick, rest) = recv_pick(rx, Some(peer), cap);
            &&& pick matches Some(d) ==> d.0 == peer && d.1.len() <= cap && rx.contains(d)
            &&& rest.len() <= rx.len()
            &&& rest == rx.skip(rx.len() - rest.len())
        }),
    decreases rx.len(),
{
    if rx.len() > 0 && rx[0].1.len() <= cap && rx[0].0 != peer {
        lemma_connected_receives_only_from_peer(rx.drop_first(), peer, cap);
        let (pick, rest) = recv_pick(rx.drop_first(), Some(peer), cap);
        assert(rx.drop_first().skip(rx.drop_first().len() - rest.len()) =~= rx.skip(rx.len() - rest.len()));
        match pick {
            Some(d) => {
                let k = choose|k: int| 0 <= k < rx.drop_first().len() && rx.drop_first()[k] == d;
                assert(rx[k + 1] == d);
            },
            None => {},
        }
    } else if rx.len() > 0 && rx[0].1.len() <= cap {
        assert(rx.drop_first() =~= rx.skip(1));
        assert(rx[0] == rx[0]);
    } else {
        assert(rx.skip(0) =~= rx);
    }
}

/// After an explicit bind succeeds, the socket reports the address it was
/// bound to (0.0.0.0 for an unspecified one) and the port it got.
pub proof fn lemma_bind_then_local_endpoint(
    u: UnboundUdp,
    ep: IpEndpoint,
    g: Result<u16, SystemError>,
    r: Result<Registration, SystemError>,
    after: Option<UdpInner>,
)
    requires
        bind_outcome(u, ep, g, r, after),
        r is Ok,
    ensures
        g is Ok,
        local_endpoint_of(after) == Ok::<Endpoint, SystemError>(
            Endpoint::Ip(
                IpEndpoint {
                    addr: if spec_is_unspecified(ep.addr) {
                        IpAddress::Ipv4(0)
                    } else {
                        ep.addr
                    },
                    port: chosen_port(ep, g->Ok_0),
                },
            ),
        ),
{
}

/// A datagram that a send accepts is queued last on the transmit ring,
/// addressed to the destination (the IPv4 loopback for an unspecified
/// address), and the answer is its length.
pub proof fn lemma_accepted_send_is_queued(
    a: BoundUdp,
    b: BoundUdp,
    data: Seq<u8>,
    to: Option<IpEndpoint>,
    r: Result<usize, SystemError>,
)
    requires
        BoundUdp::sent(a, b, data, to, r),
        r is Ok,
    ensures
        send_target(to, a.spec_remote()) is Some,
        !spec_is_unspecified(send_target(to, a.spec_remote())->Some_0.addr),
        b.spec_tx() == a.spec_tx().push((send_target(to, a.spec_remote())->Some_0, data)),
        r == Ok::<usize, SystemError>(data.len() as usize),
        b.spec_rx() == a.spec_rx(),
{
}

/// Reading and setting an option agree: for the same level and the same
/// answer of the option table, with a buffer of at least four bytes to read
/// into, setting succeeds exactly when reading answers `Ok(4)`, and
/// otherwise both fail with the same error.
pub proof fn lemma_option_agrees_with_set_option(level: u32, p: Option<u32>, value: Seq<u8>)
    requires
        value.len() >= 4,
    ensures
        set_option_outcome(level, p) is Ok <==> option_outcome(level, p, value).0 == Ok::<usize, SystemError>(4),
        set_option_outcome(level, p) matches Err(e) ==> option_outcome(level, p, value).0 == Err::<usize, SystemError>(e),
{
}

/// A successful read of an option writes four zero bytes (the option is
/// off) and leaves the rest of the buffer as it was.
pub proof fn lemma_option_reads_off(level: u32, p: Option<u32>, value: Seq<u8>)
    requires
        option_outcome(level, p, value).0 is Ok,
    ensures
        option_outcome(level, p, value).0 == Ok::<usize, SystemError>(4),
        option_outcome(level, p, value).1.subrange(0, 4) == seq![0u8, 0u8, 0u8, 0u8],
        option_outcome(level, p, value).1.subrange(4, value.len() as int) == value.subrange(4, value.len() as int),
        option_outcome(level, p, value).1.len() == value.len(),
{
    let after = option_outcome(level, p, value).1;
    assert(after.subrange(0, 4) =~= seq![0u8, 0u8, 0u8, 0u8]);
    assert(after.subrange(4, value.len() as int) =~= value.subrange(4, value.len() as int));
}

/// A socket that an explicit bind has just bound polls writable and not
/// readable: its rings hold no record and have a free slot.
pub proof fn lemma_bind_then_poll_writable(
    u: UnboundUdp,
    ep: IpEndpoint,
    g: Result<u16, SystemError>,
    r: Result<Registration, SystemError>,
    after: Option<UdpInner>,
)
    requires
        bind_outcome(u, ep, g, r, after),
        r is Ok,
    ensures
        poll_events(after) == writable_events(),
{
}

/// Reading and setting an option through the same option table agree,
/// whatever state each socket is in, when the table gives the same answer
/// for the same name each time: with a buffer of at least four bytes to
/// read into, setting succeeds exactly when reading answers `Ok(4)`, and
/// otherwise both fail with the same error. `read` and `set` are what
/// `UdpSocket::option` and `UdpSocket::set_option` answer.
pub proof fn lemma_option_calls_agree<P: FnOnce(u32, u32) -> Option<u32>>(
    parse: P,
    level: u32,
    name: u32,
    value: Seq<u8>,
    read: Result<usize, SystemError>,
    set: Result<(), SystemError>,
)
    requires
        forall|a: (u32, u32), p: Option<u32>, q: Option<u32>| parse.ensures(a, p) && parse.ensures(a, q) ==> p == q,
        value.len() >= 4,
        !is_ip_level(level) ==> read == option_outcome(level, None, value).0,
        is_ip_level(level) ==> exists|p: Option<u32>|
            #[trigger] parse.ensures((level, name), p) && read == option_outcome(level, p, value).0,
        !is_ip_level(level) ==> set == set_option_outcome(level, None),
        is_ip_level(level) ==> exists|p: Option<u32>|
            #[trigger] parse.ensures((level, name), p) && set == set_option_outcome(level, p),
    ensures
        set is Ok <==> read == Ok::<usize, SystemError>(4),
        set matches Err(e) ==> read == Err::<usize, SystemError>(e),
{
    if is_ip_level(level) {
        let p1 = choose|p: Option<u32>| #[trigger] parse.ensures((level, name), p) && read == option_outcome(level, p, value).0;
        let p2 = choose|p: Option<u32>| #[trigger] parse.ensures((level, name), p) && set == set_option_outcome(level, p);
        assert(p1 == p2);
        lemma_option_agrees_with_set_option(level, p1, value);
    } else {
        lemma_option_agrees_with_set_option(level, None, value);
    }
}

/// Where a connected receive stops: it takes the first datagram from the
/// peer, dropping the datagrams from other sources before it and nothing
/// after it; or it takes nothing, having dropped only datagrams from other
/// sources at the front.
proof fn lemma_pick_from_takes_first_from_peer(rx: Seq<Datagram>, peer: IpEndpoint, cap: nat)
    ensures
        ({
            let (pick, rest) = pick_from(rx, peer, cap);
            match pick {
                Some(d) => exists|k: int|
                    0 <= k < rx.len() && #[trigger] rx[k] == d && d.0 == peer && d.1.len() <= cap
                        && rest == rx.skip(k + 1) && forall|j: int| 0 <= j < k ==> (#[trigger] rx[j]).0 != peer,
                None => exists|k: int|
                    0 <= k <= rx.len() && rest == #[trigger] rx.skip(k) && forall|j: int|
                        0 <= j < k ==> (#[trigger] rx[j]).0 != peer,
            }
        }),
    decreases rx.len(),
{
    if rx.len() == 0 || rx[0].1.len() > cap {
        assert(rx.skip(0) =~= rx);
    } else if rx[0].0 == peer {
        assert(rx.drop_first() =~= rx.skip(1));
        assert(rx[0] == rx[0]);
    } else {
        let t = rx.drop_first();
        lemma_pick_from_takes_first_from_peer(t, peer, cap);
        let (pick, rest) = pick_from(t, peer, cap);
        match pick {
            Some(d) => {
                let k = choose|k: int|
                    0 <= k < t.len() && #[trigger] t[k] == d && d.0 == peer && d.1.len() <= cap
                        && rest == t.skip(k + 1) && forall|j: int| 0 <= j < k ==> (#[trigger] t[j]).0 != peer;
                assert(rx[k + 1] == d);
                assert(t.skip(k + 1) =~= rx.skip(k + 2));
                assert forall|j: int| 0 <= j < k + 1 implies (#[trigger] rx[j]).0 != peer by {
                    if j > 0 {
                        assert(rx[j] == t[j - 1]);
                    }
                }
            },
            None => {
                let k = choose|k: int|
                    0 <= k <= t.len() && rest == #[trigger] t.skip(k) && forall|j: int| 0 <= j < k ==> (#[trigger] t[j]).0 != peer;
                assert(t.skip(k) =~= rx.skip(k + 1));
                assert forall|j: int| 0 <= j < k + 1 implies (#[trigger] rx[j]).0 != peer by {
                    if j > 0 {
                        assert(rx[j] == t[j - 1]);
                    }
                }
            },
        }
    }
}

/// A receive on a connected socket that succeeds takes the oldest datagram
/// from the peer and answers its length and source; the datagrams from
/// other sources queued before it are dropped, and every datagram after it
/// stays queued, in order. So of two datagrams from the peer, the first
/// receive takes the first and leaves the second for the next receive.
pub proof fn lemma_connected_recv_takes_one_datagram(
    a: BoundUdp,
    b: BoundUdp,
    buf0: Seq<u8>,
    buf1: Seq<u8>,
    r: Result<(usize, IpEndpoint), SystemError>,
    peer: IpEndpoint,
)
    requires
        BoundUdp::received(a, b, buf0, buf1, r),
        a.spec_remote() == Some(peer),
        r is Ok,
    ensures
        exists|k: int|
            0 <= k < a.spec_rx().len() && (#[trigger] a.spec_rx()[k]).0 == peer
                && r == Ok::<(usize, IpEndpoint), SystemError>((a.spec_rx()[k].1.len() as usize, peer))
                && buf1.subrange(0, a.spec_rx()[k].1.len() as int) == a.spec_rx()[k].1
                && b.spec_rx() == a.spec_rx().skip(k + 1)
                && forall|j: int| 0 <= j < k ==> (#[trigger] a.spec_rx()[j]).0 != peer,
{
    lemma_pick_from_takes_first_from_peer(a.spec_rx(), peer, buf0.len());
}

/// A receive on a socket with no peer that succeeds takes exactly the
/// oldest datagram, whatever its source, and leaves all the others queued.
pub proof fn lemma_unconnected_recv_takes_oldest(
    a: BoundUdp,
    b: BoundUdp,
    buf0: Seq<u8>,
    buf1: Seq<u8>,
    r: Result<(usize, IpEndpoint), SystemError>,
)
    requires
        BoundUdp::received(a, b, buf0, buf1, r),
        a.spec_remote() is None,
        r is Ok,
    ensures
        a.spec_rx().len() > 0,
        r == Ok::<(usize, IpEndpoint), SystemError>((a.spec_rx()[0].1.len() as usize, a.spec_rx()[0].0)),
        buf1 == a.spec_rx()[0].1 + buf0.subrange(a.spec_rx()[0].1.len() as int, buf0.len() as int),
        b.spec_rx() == a.spec_rx().skip(1),
{
    assert(a.spec_rx().drop_first() =~= a.spec_rx().skip(1));
}

/// A send with an explicit destination goes there, whether or not the socket
/// has a peer (an unspecified address means the IPv4 loopback); only a send
/// without a destination goes to the peer.
pub proof fn lemma_send_goes_to_explicit_destination(
    a: BoundUdp,
    b: BoundUdp,
    data: Seq<u8>,
    to: Option<IpEndpoint>,
    r: Result<usize, SystemError>,
)
    requires
        BoundUdp::sent(a, b, data, to, r),
        r is Ok,
    ensures
        b.spec_tx().len() == a.spec_tx().len() + 1,
        b.spec_tx().subrange(0, a.spec_tx().len() as int) == a.spec_tx(),
        b.spec_tx().last().1 == data,
        to matches Some(t) ==> b.spec_tx().last().0 == (if spec_is_unspecified(t.addr) {
            IpEndpoint { addr: IpAddress::Ipv4(IPV4_LOOPBACK), port: t.port }
        } else {
            t
        }),
        to is None ==> a.spec_remote() is Some && b.spec_tx().last().0 == (if spec_is_unspecified(
            a.spec_remote()->Some_0.addr,
        ) {
            IpEndpoint { addr: IpAddress::Ipv4(IPV4_LOOPBACK), port: a.spec_remote()->Some_0.port }
        } else {
            a.spec_remote()->Some_0
        }),
{
    assert(b.spec_tx().subrange(0, a.spec_tx().len() as int) =~= a.spec_tx());
}

/// A bind asks the port manager to reserve the very port it names, and
/// asks for an ephemeral port only when it names port 0.
pub proof fn lemma_bind_asks_for_named_port(ep: IpEndpoint)
    ensures
        ep.port != 0 ==> port_request_for(ep) == PortRequest::Specific(ep.port),
        port_request_for(ep) == PortRequest::Ephemeral ==> ep.port == 0,
        port_request_for(ep) matches PortRequest::Specific(p) ==> p == ep.port && p != 0,
{
}

/// A bound socket with no peer reports the endpoint it is bound to (0.0.0.0
/// for one bound to every address), however it was bound.
pub proof fn lemma_unconnected_local_endpoint(b: BoundUdp)
    requires
        b.spec_remote() is None,
    ensures
        local_endpoint_of(Some(UdpInner::Bound(b))) == Ok::<Endpoint, SystemError>(
            Endpoint::Ip(
                IpEndpoint {
                    addr: match b.spec_local().addr {
                        Some(a) => a,
                        None => IpAddress::Ipv4(0),
                    },
                    port: b.spec_local().port,
                },
            ),
        ),
{
}

/// After an implicit bind (by a send or a connect) to the address and port
/// that the namespace chose, the socket, before it has a peer, reports that
/// address (0.0.0.0 for an unspecified one) and that port.
pub proof fn lemma_implicit_bind_then_local_endpoint(
    u: UnboundUdp,
    addr: IpAddress,
    port: u16,
    b: BoundUdp,
)
    requires
        ephemeral_bound(u, Ok((addr, port)), b),
        b.spec_remote() is None,
    ensures
        local_endpoint_of(Some(UdpInner::Bound(b))) == Ok::<Endpoint, SystemError>(
            Endpoint::Ip(
                IpEndpoint {
                    addr: if spec_is_unspecified(addr) {
                        IpAddress::Ipv4(0)
                    } else {
                        addr
                    },
                    port,
                },
            ),
        ),
{
}

/// A bind that the port manager refuses answers the port manager's error
/// and leaves the socket unbound, with nothing to register; a bind that
/// succeeds is bound to the port it named (or, for port 0, the one handed
/// out) and owes a registration for exactly that endpoint.
pub proof fn lemma_bind_answer_follows_port_manager(
    u: UnboundUdp,
    ep: IpEndpoint,
    g: Result<u16, SystemError>,
    r: Result<Registration, SystemError>,
    after: Option<UdpInner>,
)
    requires
        bind_outcome(u, ep, g, r, after),
    ensures
        g matches Err(e) ==> r == Err::<Registration, SystemError>(e) && after matches Some(UdpInner::Unbound(_)),
        r matches Ok(reg) ==> (g is Ok && reg.local.port == (if ep.port != 0 {
            ep.port
        } else {
            g->Ok_0
        }) && reg.local.port != 0),
        r matches Ok(reg) ==> (after matches Some(UdpInner::Bound(b)) && b.spec_local() == reg.local
            && b.spec_explicitly_bound()),
{
}

} // verus!
