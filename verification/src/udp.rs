//! The UDP socket: the transitions between its states (unbound, bound,
//! closed) and the socket calls.
use vstd::prelude::*;
use crate::errno::SystemError;
use crate::inet::{IpAddress, IpEndpoint, Endpoint, IpListenEndpoint, IPV4_LOOPBACK, spec_is_unspecified, spec_is_ipv4_loopback};
use crate::udp_inner::{
    BoundUdp, UnboundUdp, chosen_port, listen_on, DEFAULT_RX_BUF_SIZE, DEFAULT_TX_BUF_SIZE,
};

verus! {

/// The state of a socket's endpoint.
pub enum UdpInner {
    Unbound(UnboundUdp),
    Bound(BoundUdp),
}

/// What a bind asks of the port manager.
#[derive(Debug, Clone, Copy, PartialEq, Eq, Structural)]
pub enum PortRequest {
    /// Hand out an ephemeral port.
    Ephemeral,
    /// Reserve this port.
    Specific(u16),
}

/// The port request that a bind to `ep` makes.
pub open spec fn port_request_for(ep: IpEndpoint) -> PortRequest {
    if ep.port == 0 {
        PortRequest::Ephemeral
    } else {
        PortRequest::Specific(ep.port)
    }
}

impl PortRequest {
    /// The port request that a bind to `ep` makes.
    pub fn for_endpoint(ep: IpEndpoint) -> (r: PortRequest)
        ensures
            r == port_request_for(ep),
    {
        if ep.port == 0 {
            PortRequest::Ephemeral
        } else {
            PortRequest::Specific(ep.port)
        }
    }
}

/// Whether `i` is an unbound socket as `UnboundUdp::new` makes it.
pub open spec fn is_fresh_unbound(i: Option<UdpInner>) -> bool {
    match i {
        Some(UdpInner::Unbound(u)) => u.is_fresh(),
        _ => false,
    }
}

/// What the caller does once an explicit bind has succeeded: register the
/// socket with the interface that serves `local`, so that the interface
/// hands it the datagrams that arrive there.
#[derive(Debug, Clone, Copy, PartialEq, Eq, Structural)]
pub struct Registration {
    /// The endpoint the socket was bound to.
    pub local: IpListenEndpoint,
}

/// What an explicit bind of `u` to `ep` leaves (`after`) and answers (`r`)
/// when the port manager answered `g`: on success the registration that is
/// then owed.
pub open spec fn bind_outcome(
    u: UnboundUdp,
    ep: IpEndpoint,
    g: Result<u16, SystemError>,
    r: Result<Registration, SystemError>,
    after: Option<UdpInner>,
) -> bool {
    match g {
        Err(e) => r == Err::<Registration, SystemError>(e) && is_fresh_unbound(after),
        Ok(p) => if chosen_port(ep, p) == 0 {
            r == Err::<Registration, SystemError>(SystemError::EINVAL) && is_fresh_unbound(after)
        } else {
            r == Ok::<Registration, SystemError>(Registration { local: listen_on(ep.addr, chosen_port(ep, p)) })
                && match after {
                Some(UdpInner::Bound(b)) => BoundUdp::bound_from(
                    b,
                    u,
                    listen_on(ep.addr, chosen_port(ep, p)),
                    true,
                ),
                _ => false,
            }
        },
    }
}

/// Whether `g` lets an implicit bind succeed.
pub open spec fn ephemeral_ok(g: Result<(IpAddress, u16), SystemError>) -> bool {
    match g {
        Ok((_, p)) => p != 0,
        Err(_) => false,
    }
}

/// The error of an implicit bind that `g` does not let succeed.
pub open spec fn ephemeral_error(g: Result<(IpAddress, u16), SystemError>) -> SystemError {
    match g {
        Ok(_) => SystemError::EINVAL,
        Err(e) => e,
    }
}

/// `b` is what an implicit bind of `u` makes when the namespace answered `g`
/// (which lets it succeed).
pub open spec fn ephemeral_bound(u: UnboundUdp, g: Result<(IpAddress, u16), SystemError>, b: BoundUdp) -> bool {
    match g {
        Ok((a, p)) => BoundUdp::bound_from(b, u, listen_on(a, p), false),
        Err(_) => false,
    }
}

/// What an implicit bind of `u` leaves and answers when the namespace
/// answered `g`.
pub open spec fn ephemeral_outcome(
    u: UnboundUdp,
    g: Result<(IpAddress, u16), SystemError>,
    r: Result<(), SystemError>,
    after: Option<UdpInner>,
) -> bool {
    if ephemeral_ok(g) {
        r == Ok::<(), SystemError>(()) && match after {
            Some(UdpInner::Bound(b)) => ephemeral_bound(u, g, b),
            _ => false,
        }
    } else {
        r == Err::<(), SystemError>(ephemeral_error(g)) && is_fresh_unbound(after)
    }
}

/// What a send from the unbound `u` does after the implicit bind, when the
/// namespace answered `g`: the bound socket that the bind made then sends as
/// `BoundUdp::try_send` does.
pub open spec fn send_after_bind(
    u: UnboundUdp,
    g: Result<(IpAddress, u16), SystemError>,
    data: Seq<u8>,
    to: Option<IpEndpoint>,
    r: Result<usize, SystemError>,
    after: Option<UdpInner>,
) -> bool {
    if ephemeral_ok(g) {
        exists|bm: BoundUdp|
            #[trigger] ephemeral_bound(u, g, bm) && match after {
                Some(UdpInner::Bound(b2)) => BoundUdp::sent(bm, b2, data, to, r),
                _ => false,
            }
    } else {
        r == Err::<usize, SystemError>(ephemeral_error(g)) && is_fresh_unbound(after)
    }
}

/// What a receive without waiting does to a socket in state `before`,
/// leaving `after`, with a buffer that held `buf0` and holds `buf1`.
pub open spec fn try_recv_outcome(
    before: Option<UdpInner>,
    after: Option<UdpInner>,
    buf0: Seq<u8>,
    buf1: Seq<u8>,
    r: Result<(usize, IpEndpoint), SystemError>,
) -> bool {
    match before {
        None => r == Err::<(usize, IpEndpoint), SystemError>(SystemError::EBADF) && after is None
            && buf1 == buf0,
        Some(UdpInner::Unbound(_)) => r == Err::<(usize, IpEndpoint), SystemError>(
            SystemError::EAGAIN_OR_EWOULDBLOCK,
        ) && after == before && buf1 == buf0,
        Some(UdpInner::Bound(b)) => match after {
            Some(UdpInner::Bound(b2)) => BoundUdp::received(b, b2, buf0, buf1, r),
            _ => false,
        },
    }
}

/// The next step of a receive that got `r` from an attempt: a blocking
/// receive that found nothing waits and tries again; otherwise the answer
/// is `r`.
pub enum RecvAction<T> {
    /// The call is answered.
    Done(Result<T, SystemError>),
    /// Wait until the socket can receive, then try again.
    Wait,
}

/// The step a `recv` takes after an attempt answered `r`.
pub open spec fn recv_step(r: Result<(usize, IpEndpoint), SystemError>, blocking: bool) -> RecvAction<usize> {
    if blocking && r == Err::<(usize, IpEndpoint), SystemError>(SystemError::EAGAIN_OR_EWOULDBLOCK) {
        RecvAction::Wait
    } else {
        match r {
            Ok((n, _)) => RecvAction::Done(Ok(n)),
            Err(e) => RecvAction::Done(Err(e)),
        }
    }
}

/// The step a `recv_from` takes after an attempt answered `r`.
pub open spec fn recv_from_step(r: Result<(usize, IpEndpoint), SystemError>, blocking: bool) -> RecvAction<(usize, Endpoint)> {
    if blocking && r == Err::<(usize, IpEndpoint), SystemError>(SystemError::EAGAIN_OR_EWOULDBLOCK) {
        RecvAction::Wait
    } else {
        match r {
            Ok((n, e)) => RecvAction::Done(Ok((n, Endpoint::Ip(e)))),
            Err(e) => RecvAction::Done(Err(e)),
        }
    }
}

/// `MSG_DONTWAIT`: do not block this call.
pub const MSG_DONTWAIT: u32 = 0x40;

/// Whether a call with `flags` on a socket that is `nonblock` must not wait.
pub open spec fn is_nonblocking_call(nonblock: bool, flags: u32) -> bool {
    nonblock || flags & MSG_DONTWAIT != 0
}

/// `b2` is the socket that an implicit bind of `u` (the namespace answering
/// `g`) makes, then connected to `remote`.
pub open spec fn connected_after_bind(
    u: UnboundUdp,
    g: Result<(IpAddress, u16), SystemError>,
    remote: IpEndpoint,
    b2: BoundUdp,
) -> bool {
    exists|bm: BoundUdp|
        #[trigger] ephemeral_bound(u, g, bm) && BoundUdp::same_but_rx_remote(bm, b2)
            && b2.spec_rx() == bm.spec_rx() && b2.spec_remote() == Some(remote)
}

/// `b2` is `b` with its peer set to `remote` (or cleared when `None`).
pub open spec fn with_peer(b: BoundUdp, b2: BoundUdp, remote: Option<IpEndpoint>) -> bool {
    BoundUdp::same_but_rx_remote(b, b2) && b2.spec_rx() == b.spec_rx() && b2.spec_remote() == remote
}

/// What a connect to `endpoint` does to a socket in state `before`, leaving
/// `after`, when an implicit bind asks `allocate`.
pub open spec fn connect_outcome<G: FnOnce(IpAddress) -> Result<(IpAddress, u16), SystemError>>(
    before: Option<UdpInner>,
    after: Option<UdpInner>,
    endpoint: Endpoint,
    allocate: G,
    r: Result<(), SystemError>,
) -> bool {
    match endpoint {
        Endpoint::Ip(remote) => match before {
            None => r == Err::<(), SystemError>(SystemError::EBADF) && after is None,
            Some(UdpInner::Bound(b)) => r == Ok::<(), SystemError>(()) && match after {
                Some(UdpInner::Bound(b2)) => with_peer(b, b2, Some(remote)),
                _ => false,
            },
            Some(UdpInner::Unbound(u)) => exists|g: Result<(IpAddress, u16), SystemError>|
                #[trigger] allocate.ensures((remote.addr,), g) && if ephemeral_ok(g) {
                    r == Ok::<(), SystemError>(()) && match after {
                        Some(UdpInner::Bound(b2)) => connected_after_bind(u, g, remote, b2),
                        _ => false,
                    }
                } else {
                    r == Err::<(), SystemError>(ephemeral_error(g)) && is_fresh_unbound(after)
                },
        },
        Endpoint::Unspecified => r == Ok::<(), SystemError>(()) && match before {
            Some(UdpInner::Bound(b)) => match after {
                Some(UdpInner::Bound(b2)) => with_peer(b, b2, None),
                _ => false,
            },
            _ => after == before,
        },
        Endpoint::Other => r == Err::<(), SystemError>(SystemError::EAFNOSUPPORT) && after == before,
    }
}

/// The local endpoint that a bound socket reports: its bound address (or
/// 0.0.0.0 when it listens on every address) and port; when that address is
/// unspecified and the socket is connected to an IPv4 loopback peer, the
/// IPv4 loopback address.
pub open spec fn reported_local(b: BoundUdp) -> IpEndpoint {
    let l = b.spec_local();
    let a = match l.addr {
        Some(a) => a,
        None => IpAddress::Ipv4(0),
    };
    let a2 = if spec_is_unspecified(a) {
        match b.spec_remote() {
            Some(r) => if spec_is_ipv4_loopback(r.addr) {
                IpAddress::Ipv4(IPV4_LOOPBACK)
            } else {
                a
            },
            None => a,
        }
    } else {
        a
    };
    IpEndpoint { addr: a2, port: l.port }
}

/// What `remote_endpoint` answers for a socket in state `i`.
pub open spec fn remote_endpoint_of(i: Option<UdpInner>) -> Result<Endpoint, SystemError> {
    match i {
        None => Err::<Endpoint, SystemError>(SystemError::EBADF),
        Some(UdpInner::Unbound(_)) => Err::<Endpoint, SystemError>(SystemError::ENOTCONN),
        Some(UdpInner::Bound(b)) => match b.spec_remote() {
            Some(e) => Ok::<Endpoint, SystemError>(Endpoint::Ip(e)),
            None => Err::<Endpoint, SystemError>(SystemError::ENOTCONN),
        },
    }
}

/// What `local_endpoint` answers for a socket in state `i`.
pub open spec fn local_endpoint_of(i: Option<UdpInner>) -> Result<Endpoint, SystemError> {
    match i {
        None => Err::<Endpoint, SystemError>(SystemError::EBADF),
        Some(UdpInner::Unbound(_)) => Ok::<Endpoint, SystemError>(
            Endpoint::Ip(IpEndpoint { addr: IpAddress::Ipv4(0), port: 0 }),
        ),
        Some(UdpInner::Bound(b)) => Ok::<Endpoint, SystemError>(Endpoint::Ip(reported_local(b))),
    }
}

/// `EPOLLIN`.
pub const EPOLLIN: u32 = 0x0001;
/// `EPOLLOUT`.
pub const EPOLLOUT: u32 = 0x0004;
/// `EPOLLERR`.
pub const EPOLLERR: u32 = 0x0008;
/// `EPOLLHUP`.
pub const EPOLLHUP: u32 = 0x0010;
/// `EPOLLRDNORM`.
pub const EPOLLRDNORM: u32 = 0x0040;
/// `EPOLLWRNORM`.
pub const EPOLLWRNORM: u32 = 0x0100;
/// `EPOLLWRBAND`.
pub const EPOLLWRBAND: u32 = 0x0200;

/// The events of a socket that can receive: `EPOLLIN | EPOLLRDNORM`.
pub open spec fn readable_events() -> u32 {
    0x0041
}

/// The events of a socket that can send: `EPOLLOUT | EPOLLWRNORM | EPOLLWRBAND`.
pub open spec fn writable_events() -> u32 {
    0x0304
}

/// The poll events of a socket in state `i`: `EPOLLERR | EPOLLHUP` when
/// closed, the writable events when unbound, and when bound the writable
/// events when its transmit ring has a free slot together with the readable
/// events when its receive ring holds a record.
pub open spec fn poll_events(i: Option<UdpInner>) -> int {
    match i {
        None => 0x18,
        Some(UdpInner::Unbound(_)) => writable_events() as int,
        Some(UdpInner::Bound(b)) => (if b.spec_tx_full() {
            0
        } else {
            writable_events()
        }) + (if b.spec_rx_pending() {
            readable_events()
        } else {
            0
        }),
    }
}

/// `SOL_IP`.
pub const SOL_IP: u32 = 0;
/// `SOL_IPV6`.
pub const SOL_IPV6: u32 = 41;
/// `IP_RECVERR`.
pub const IP_RECVERR: u32 = 11;
/// `IPV6_RECVERR`.
pub const IPV6_RECVERR: u32 = 25;

/// The `RECVERR` option of a level (0 for a level without one).
pub open spec fn recverr_of(level: u32) -> u32 {
    if level == SOL_IP {
        IP_RECVERR
    } else if level == SOL_IPV6 {
        IPV6_RECVERR
    } else {
        0
    }
}

/// Whether a level is one whose options the socket reads.
pub open spec fn is_ip_level(level: u32) -> bool {
    level == SOL_IP || level == SOL_IPV6
}

/// What reading option `name` of `level` answers into a buffer holding
/// `value`, when the option table answers `p` for `name`: the result and the
/// buffer after. The socket's own state plays no part in it.
pub open spec fn option_outcome(level: u32, p: Option<u32>, value: Seq<u8>) -> (Result<usize, SystemError>, Seq<u8>) {
    if !is_ip_level(level) {
        (Err(SystemError::ENOSYS), value)
    } else {
        match p {
            None => (Err(SystemError::ENOPROTOOPT), value),
            Some(bits) => if bits & recverr_of(level) == recverr_of(level) {
                if value.len() < 4 {
                    (Err(SystemError::EINVAL), value)
                } else {
                    (Ok(4), seq![0u8, 0u8, 0u8, 0u8] + value.subrange(4, value.len() as int))
                }
            } else {
                (Err(SystemError::ENOSYS), value)
            },
        }
    }
}

/// What setting option `name` of `level` answers when the option table
/// answers `p` for `name`.
pub open spec fn set_option_outcome(level: u32, p: Option<u32>) -> Result<(), SystemError> {
    if !is_ip_level(level) {
        Err(SystemError::ENOSYS)
    } else {
        match p {
            None => Err(SystemError::ENOPROTOOPT),
            Some(bits) => if bits & recverr_of(level) == recverr_of(level) {
                Ok(())
            } else {
                Err(SystemError::ENOSYS)
            },
        }
    }
}

/// A UDP socket.
pub struct UdpSocket {
    inner: Option<UdpInner>,
    nonblock: bool,
}

impl UdpSocket {
    /// The socket's state; `None` once it is closed.
    pub closed spec fn spec_inner(&self) -> Option<UdpInner> {
        self.inner
    }

    /// Whether the socket does not block.
    pub closed spec fn spec_nonblock(&self) -> bool {
        self.nonblock
    }

    /// A new, unbound socket.
    pub fn new(nonblock: bool) -> (r: UdpSocket)
        ensures
            is_fresh_unbound(r.spec_inner()),
            r.spec_nonblock() == nonblock,
    {
        UdpSocket { inner: Some(UdpInner::Unbound(UnboundUdp::new())), nonblock }
    }

    /// Whether the socket does not block.
    pub fn is_nonblock(&self) -> (r: bool)
        ensures
            r == self.spec_nonblock(),
    {
        self.nonblock
    }

    /// Whether the socket is bound.
    pub fn is_bound(&self) -> (r: bool)
        ensures
            r == (self.spec_inner() matches Some(UdpInner::Bound(_))),
    {
        if let Some(UdpInner::Bound(_)) = &self.inner {
            return true;
        }
        return false;
    }

    /// Binds the socket to `local_endpoint`. A closed socket answers `EBADF`
    /// and a bound one `EINVAL`, and neither calls `allocate`. An unbound
    /// socket asks `allocate` for the port (`port_request_for`) and binds as
    /// `UnboundUdp::bind` does; when that fails the socket is left unbound
    /// with a new endpoint. On success the answer is the registration with
    /// the interface that the caller then performs, exactly once.
    pub fn do_bind<F>(&mut self, local_endpoint: IpEndpoint, allocate: F) -> (r: Result<Registration, SystemError>) where
        F: FnOnce(IpAddress, PortRequest) -> Result<u16, SystemError>,
        requires
            allocate.requires((local_endpoint.addr, port_request_for(local_endpoint))),
        ensures
            final(self).spec_nonblock() == old(self).spec_nonblock(),
            match old(self).spec_inner() {
                None => r == Err::<Registration, SystemError>(SystemError::EBADF) && final(self).spec_inner() is None,
                Some(UdpInner::Bound(_)) => r == Err::<Registration, SystemError>(SystemError::EINVAL)
                    && final(self).spec_inner() == old(self).spec_inner(),
                Some(UdpInner::Unbound(u)) => exists|g: Result<u16, SystemError>|
                    #[trigger] allocate.ensures((local_endpoint.addr, port_request_for(local_endpoint)), g)
                    && bind_outcome(u, local_endpoint, g, r, final(self).spec_inner()),
            },
    {
        let inner = match self.inner.take() {
            Some(inner) => inner,
            None => return Err(SystemError::EBADF),
        };
        match inner {
            UdpInner::Unbound(unbound) => {
                let request = PortRequest::for_endpoint(local_endpoint);
                let granted = allocate(local_endpoint.addr, request);
                match unbound.bind(local_endpoint, granted) {
                    Ok(bound) => {
                        let local = bound.endpoint();
                        self.inner = Some(UdpInner::Bound(bound));
                        return Ok(Registration { local });
                    },
                    Err(e) => {
                        self.inner = Some(UdpInner::Unbound(UnboundUdp::new()));
                        return Err(e);
                    },
                }
            },
            UdpInner::Bound(bound) => {
                self.inner = Some(UdpInner::Bound(bound));
                return Err(SystemError::EINVAL);
            },
        }
    }

    /// Binds an unbound socket implicitly, asking `allocate` for a local
    /// address and an ephemeral port for the peer `remote` (see
    /// `UnboundUdp::bind_ephemeral`); when that fails the socket is left
    /// unbound with a new endpoint. A bound socket stays as it is, and a
    /// closed one answers `EBADF`.
    pub fn bind_ephemeral<G>(&mut self, remote: IpAddress, allocate: G) -> (r: Result<(), SystemError>) where
        G: FnOnce(IpAddress) -> Result<(IpAddress, u16), SystemError>,
        requires
            allocate.requires((remote,)),
        ensures
            final(self).spec_nonblock() == old(self).spec_nonblock(),
            match old(self).spec_inner() {
                None => r == Err::<(), SystemError>(SystemError::EBADF) && final(self).spec_inner() is None,
                Some(UdpInner::Bound(_)) => r == Ok::<(), SystemError>(())
                    && final(self).spec_inner() == old(self).spec_inner(),
                Some(UdpInner::Unbound(u)) => exists|g: Result<(IpAddress, u16), SystemError>|
                    #[trigger] allocate.ensures((remote,), g)
                    && ephemeral_outcome(u, g, r, final(self).spec_inner()),
            },
    {
        let inner = match self.inner.take() {
            Some(inner) => inner,
            None => return Err(SystemError::EBADF),
        };
        let bound = match inner {
            UdpInner::Bound(inner) => inner,
            UdpInner::Unbound(unbound) => {
                let granted = allocate(remote);
                match unbound.bind_ephemeral(granted) {
                    Ok(bound) => bound,
                    Err(e) => {
                        self.inner = Some(UdpInner::Unbound(UnboundUdp::new()));
                        return Err(e);
                    },
                }
            },
        };
        self.inner = Some(UdpInner::Bound(bound));
        return Ok(());
    }

    /// Closes the socket. A bound socket is closed and forgotten (the state
    /// becomes `None`), and the answer is its local port, which the port
    /// manager is to release; an unbound or already closed socket stays as
    /// it is and the answer is `None`.
    pub fn close(&mut self) -> (r: Option<u16>)
        ensures
            final(self).spec_nonblock() == old(self).spec_nonblock(),
            match old(self).spec_inner() {
                Some(UdpInner::Bound(b)) => r == Some(b.spec_local().port) && final(self).spec_inner() is None,
                _ => r is None && final(self).spec_inner() == old(self).spec_inner(),
            },
    {
        match self.inner.take() {
            Some(UdpInner::Bound(mut bound)) => {
                let port = bound.close();
                Some(port)
            },
            other => {
                self.inner = other;
                None
            },
        }
    }

    /// Sends `buf` to `to`, or to the peer when `to` is `None`, without
    /// waiting. A closed socket answers `EBADF`. An unbound socket answers
    /// `EDESTADDRREQ` when `to` is `None`; otherwise it is first bound
    /// implicitly for `to`'s address (see `bind_ephemeral`), and a failure of
    /// that bind is the answer. The bound socket sends as
    /// `BoundUdp::try_send` does.
    pub fn try_send<G>(&mut self, buf: &[u8], to: Option<IpEndpoint>, allocate: G) -> (r: Result<
        usize,
        SystemError,
    >) where G: FnOnce(IpAddress) -> Result<(IpAddress, u16), SystemError>,
        requires
            to matches Some(t) ==> allocate.requires((t.addr,)),
        ensures
            final(self).spec_nonblock() == old(self).spec_nonblock(),
            match old(self).spec_inner() {
                None => r == Err::<usize, SystemError>(SystemError::EBADF) && final(self).spec_inner() is None,
                Some(UdpInner::Bound(b)) => match final(self).spec_inner() {
                    Some(UdpInner::Bound(b2)) => BoundUdp::sent(b, b2, buf@, to, r),
                    _ => false,
                },
                Some(UdpInner::Unbound(u)) => match to {
                    None => r == Err::<usize, SystemError>(SystemError::EDESTADDRREQ)
                        && final(self).spec_inner() == old(self).spec_inner(),
                    Some(t) => exists|g: Result<(IpAddress, u16), SystemError>|
                        #[trigger] allocate.ensures((t.addr,), g)
                        && send_after_bind(u, g, buf@, to, r, final(self).spec_inner()),
                },
            },
    {
        let inner = match self.inner.take() {
            Some(inner) => inner,
            None => return Err(SystemError::EBADF),
        };
        let ghost mut g_used: Result<(IpAddress, u16), SystemError> = Err(SystemError::EINVAL);
        let mut bound = match inner {
            UdpInner::Bound(bound) => bound,
            UdpInner::Unbound(unbound) => {
                let to_addr = match to {
                    Some(t) => t.addr,
                    None => {
                        self.inner = Some(UdpInner::Unbound(unbound));
                        return Err(SystemError::EDESTADDRREQ);
                    },
                };
                let granted = allocate(to_addr);
                proof {
                    g_used = granted;
                }
                match unbound.bind_ephemeral(granted) {
                    Ok(bound) => bound,
                    Err(e) => {
                        self.inner = Some(UdpInner::Unbound(UnboundUdp::new()));
                        return Err(e);
                    },
                }
            },
        };
        let ghost bm = bound;
        let ret = bound.try_send(buf, to);
        self.inner = Some(UdpInner::Bound(bound));
        proof {
            match old(self).spec_inner() {
                Some(UdpInner::Unbound(u)) => {
                    assert(ephemeral_bound(u, g_used, bm));
                },
                _ => {},
            }
        }
        ret
    }

    /// Receives one datagram without waiting: a closed socket answers
    /// `EBADF`, an unbound one `EAGAIN_OR_EWOULDBLOCK`, and a bound one
    /// receives as `BoundUdp::try_recv` does.
    pub fn try_recv(&mut self, buf: &mut [u8]) -> (r: Result<(usize, IpEndpoint), SystemError>)
        ensures
            final(self).spec_nonblock() == old(self).spec_nonblock(),
            try_recv_outcome(old(self).spec_inner(), final(self).spec_inner(), old(buf)@, final(buf)@, r),
    {
        match self.inner.take() {
            Some(UdpInner::Bound(mut bound)) => {
                let ret = bound.try_recv(buf);
                self.inner = Some(UdpInner::Bound(bound));
                ret
            },
            None => Err(SystemError::EBADF),
            other => {
                self.inner = other;
                Err(SystemError::EAGAIN_OR_EWOULDBLOCK)
            },
        }
    }

    /// Receives one datagram. A call that must not wait (`is_nonblocking_call`)
    /// is answered at once; a blocking call that finds nothing answers
    /// `Wait`, and the caller waits until the socket can receive and calls
    /// again.
    pub fn recv(&mut self, buffer: &mut [u8], flags: u32) -> (r: RecvAction<usize>)
        ensures
            final(self).spec_nonblock() == old(self).spec_nonblock(),
            exists|rr: Result<(usize, IpEndpoint), SystemError>|
                #[trigger] try_recv_outcome(
                    old(self).spec_inner(),
                    final(self).spec_inner(),
                    old(buffer)@,
                    final(buffer)@,
                    rr,
                ) && r == recv_step(rr, !is_nonblocking_call(old(self).spec_nonblock(), flags)),
    {
        let ret = self.try_recv(buffer);
        let nonblocking = self.nonblock || flags & MSG_DONTWAIT != 0;
        if !nonblocking {
            if let Err(SystemError::EAGAIN_OR_EWOULDBLOCK) = ret {
                return RecvAction::Wait;
            }
        }
        match ret {
            Ok((n, _)) => RecvAction::Done(Ok(n)),
            Err(e) => RecvAction::Done(Err(e)),
        }
    }

    /// Sends `buffer` to the connected peer: a closed socket answers
    /// `EBADF`, an unbound one `EDESTADDRREQ`, and a bound one sends as
    /// `BoundUdp::try_send` does with no destination.
    pub fn send(&mut self, buffer: &[u8], flags: u32) -> (r: Result<usize, SystemError>)
        ensures
            final(self).spec_nonblock() == old(self).spec_nonblock(),
            match old(self).spec_inner() {
                None => r == Err::<usize, SystemError>(SystemError::EBADF) && final(self).spec_inner() is None,
                Some(UdpInner::Unbound(_)) => r == Err::<usize, SystemError>(SystemError::EDESTADDRREQ)
                    && final(self).spec_inner() == old(self).spec_inner(),
                Some(UdpInner::Bound(b)) => match final(self).spec_inner() {
                    Some(UdpInner::Bound(b2)) => BoundUdp::sent(b, b2, buffer@, None, r),
                    _ => false,
                },
            },
    {
        match self.inner.take() {
            Some(UdpInner::Bound(mut bound)) => {
                let ret = bound.try_send(buffer, None);
                self.inner = Some(UdpInner::Bound(bound));
                ret
            },
            None => Err(SystemError::EBADF),
            other => {
                self.inner = other;
                Err(SystemError::EDESTADDRREQ)
            },
        }
    }

    /// Sends `buffer` to `address`: an address that is not an IP endpoint
    /// answers `EINVAL`; otherwise the socket sends as `try_send` does.
    pub fn send_to<G>(&mut self, buffer: &[u8], flags: u32, address: Endpoint, allocate: G) -> (r: Result<
        usize,
        SystemError,
    >) where G: FnOnce(IpAddress) -> Result<(IpAddress, u16), SystemError>,
        requires
            address matches Endpoint::Ip(t) ==> allocate.requires((t.addr,)),
        ensures
            final(self).spec_nonblock() == old(self).spec_nonblock(),
            match address {
                Endpoint::Ip(t) => match old(self).spec_inner() {
                    None => r == Err::<usize, SystemError>(SystemError::EBADF) && final(self).spec_inner() is None,
                    Some(UdpInner::Bound(b)) => match final(self).spec_inner() {
                        Some(UdpInner::Bound(b2)) => BoundUdp::sent(b, b2, buffer@, Some(t), r),
                        _ => false,
                    },
                    Some(UdpInner::Unbound(u)) => exists|g: Result<(IpAddress, u16), SystemError>|
                        #[trigger] allocate.ensures((t.addr,), g)
                        && send_after_bind(u, g, buffer@, Some(t), r, final(self).spec_inner()),
                },
                _ => r == Err::<usize, SystemError>(SystemError::EINVAL)
                    && final(self).spec_inner() == old(self).spec_inner(),
            },
    {
        if let Endpoint::Ip(remote) = address {
            return self.try_send(buffer, Some(remote), allocate);
        }
        return Err(SystemError::EINVAL);
    }

    /// Binds the socket to `local_endpoint`: an address that is not an IP
    /// endpoint answers `EAFNOSUPPORT`; otherwise as `do_bind`, and
    /// a success answers the registration that is then owed.
    pub fn bind<F>(&mut self, local_endpoint: Endpoint, allocate: F) -> (r: Result<Registration, SystemError>) where
        F: FnOnce(IpAddress, PortRequest) -> Result<u16, SystemError>,
        requires
            local_endpoint matches Endpoint::Ip(ep) ==> allocate.requires((ep.addr, port_request_for(ep))),
        ensures
            final(self).spec_nonblock() == old(self).spec_nonblock(),
            match local_endpoint {
                Endpoint::Ip(ep) => match old(self).spec_inner() {
                    None => r == Err::<Registration, SystemError>(SystemError::EBADF) && final(self).spec_inner() is None,
                    Some(UdpInner::Bound(_)) => r == Err::<Registration, SystemError>(SystemError::EINVAL)
                        && final(self).spec_inner() == old(self).spec_inner(),
                    Some(UdpInner::Unbound(u)) => exists|g: Result<u16, SystemError>|
                        #[trigger] allocate.ensures((ep.addr, port_request_for(ep)), g)
                        && bind_outcome(u, ep, g, r, final(self).spec_inner()),
                },
                _ => r == Err::<Registration, SystemError>(SystemError::EAFNOSUPPORT)
                    && final(self).spec_inner() == old(self).spec_inner(),
            },
    {
        if let Endpoint::Ip(local_endpoint) = local_endpoint {
            return self.do_bind(local_endpoint, allocate);
        }
        Err(SystemError::EAFNOSUPPORT)
    }

    /// Connects the socket to `endpoint`, binding it implicitly first when it
    /// is unbound, or disconnects it when `endpoint` is `Unspecified`; see
    /// `connect_outcome`.
    pub fn connect<G>(&mut self, endpoint: Endpoint, allocate: G) -> (r: Result<(), SystemError>) where
        G: FnOnce(IpAddress) -> Result<(IpAddress, u16), SystemError>,
        requires
            endpoint matches Endpoint::Ip(t) ==> allocate.requires((t.addr,)),
        ensures
            final(self).spec_nonblock() == old(self).spec_nonblock(),
            connect_outcome(old(self).spec_inner(), final(self).spec_inner(), endpoint, allocate, r),
    {
        match endpoint {
            Endpoint::Ip(remote) => {
                if !self.is_bound() {
                    let ghost before = self.inner;
                    let res = self.bind_ephemeral(remote.addr, allocate);
                    if let Err(e) = res {
                        return Err(e);
                    }
                }
                match self.inner.take() {
                    Some(UdpInner::Bound(mut inner)) => {
                        inner.connect(remote);
                        self.inner = Some(UdpInner::Bound(inner));
                        return Ok(());
                    },
                    other => {
                        self.inner = other;
                        return Err(SystemError::EBADF);
                    },
                }
            },
            Endpoint::Unspecified => {
                match self.inner.take() {
                    Some(UdpInner::Bound(mut inner)) => {
                        inner.disconnect();
                        self.inner = Some(UdpInner::Bound(inner));
                        return Ok(());
                    },
                    other => {
                        self.inner = other;
                        return Ok(());
                    },
                }
            },
            Endpoint::Other => {
                return Err(SystemError::EAFNOSUPPORT);
            },
        }
    }

    /// Receives one datagram and its source, after connecting to `address`
    /// when one is given (a failed connect is the answer). Like `recv`, a
    /// blocking call that finds nothing answers `Wait`; the caller then
    /// calls again with no address.
    pub fn recv_from<G>(
        &mut self,
        buffer: &mut [u8],
        flags: u32,
        address: Option<Endpoint>,
        allocate: G,
    ) -> (r: RecvAction<(usize, Endpoint)>) where
        G: FnOnce(IpAddress) -> Result<(IpAddress, u16), SystemError>,
        requires
            address matches Some(Endpoint::Ip(t)) ==> allocate.requires((t.addr,)),
        ensures
            final(self).spec_nonblock() == old(self).spec_nonblock(),
            match address {
                None => exists|rr: Result<(usize, IpEndpoint), SystemError>|
                    #[trigger] try_recv_outcome(
                        old(self).spec_inner(),
                        final(self).spec_inner(),
                        old(buffer)@,
                        final(buffer)@,
                        rr,
                    ) && r == recv_from_step(rr, !is_nonblocking_call(old(self).spec_nonblock(), flags)),
                Some(a) => exists|mid: Option<UdpInner>, rc: Result<(), SystemError>|
                    #[trigger] connect_outcome(old(self).spec_inner(), mid, a, allocate, rc) && match rc {
                        Err(e) => r == RecvAction::<(usize, Endpoint)>::Done(Err(e))
                            && final(self).spec_inner() == mid && final(buffer)@ == old(buffer)@,
                        Ok(_) => exists|rr: Result<(usize, IpEndpoint), SystemError>|
                            #[trigger] try_recv_outcome(mid, final(self).spec_inner(), old(buffer)@, final(buffer)@, rr)
                            && r == recv_from_step(rr, !is_nonblocking_call(old(self).spec_nonblock(), flags)),
                    },
            },
    {
        if let Some(endpoint) = address {
            if let Err(e) = self.connect(endpoint, allocate) {
                return RecvAction::Done(Err(e));
            }
        }
        let ret = self.try_recv(buffer);
        let nonblocking = self.nonblock || flags & MSG_DONTWAIT != 0;
        if !nonblocking {
            if let Err(SystemError::EAGAIN_OR_EWOULDBLOCK) = ret {
                return RecvAction::Wait;
            }
        }
        match ret {
            Ok((n, remote)) => RecvAction::Done(Ok((n, Endpoint::Ip(remote)))),
            Err(e) => RecvAction::Done(Err(e)),
        }
    }

    /// Closes the socket as `close` does; always succeeds.
    pub fn do_close(&mut self) -> (r: Result<Option<u16>, SystemError>)
        ensures
            final(self).spec_nonblock() == old(self).spec_nonblock(),
            match old(self).spec_inner() {
                Some(UdpInner::Bound(b)) => r == Ok::<Option<u16>, SystemError>(Some(b.spec_local().port))
                    && final(self).spec_inner() is None,
                _ => r == Ok::<Option<u16>, SystemError>(None) && final(self).spec_inner() == old(self).spec_inner(),
            },
    {
        let port = self.close();
        Ok(port)
    }

    /// The connected peer: `EBADF` when closed, `ENOTCONN` when unbound or
    /// not connected.
    pub fn remote_endpoint(&self) -> (r: Result<Endpoint, SystemError>)
        ensures
            r == remote_endpoint_of(self.spec_inner()),
    {
        match &self.inner {
            None => Err(SystemError::EBADF),
            Some(UdpInner::Bound(bound)) => match bound.remote_endpoint() {
                Ok(e) => Ok(Endpoint::Ip(e)),
                Err(e) => Err(e),
            },
            Some(UdpInner::Unbound(_)) => Err(SystemError::ENOTCONN),
        }
    }

    /// The local endpoint: `EBADF` when closed, 0.0.0.0 port 0 when unbound,
    /// and `reported_local` when bound.
    pub fn local_endpoint(&self) -> (r: Result<Endpoint, SystemError>)
        ensures
            r == local_endpoint_of(self.spec_inner()),
    {
        match &self.inner {
            None => Err(SystemError::EBADF),
            Some(UdpInner::Bound(bound)) => {
                let IpListenEndpoint { addr, port } = bound.endpoint();
                let mut local_addr = match addr {
                    Some(a) => a,
                    None => IpAddress::v4(0, 0, 0, 0),
                };
                if local_addr.is_unspecified() {
                    if let Ok(remote) = bound.remote_endpoint() {
                        if remote.addr.is_ipv4_loopback() {
                            local_addr = IpAddress::v4(127, 0, 0, 1);
                        }
                    }
                }
                Ok(Endpoint::Ip(IpEndpoint::new(local_addr, port)))
            },
            Some(UdpInner::Unbound(_)) => Ok(Endpoint::Ip(IpEndpoint::new(IpAddress::v4(0, 0, 0, 0), 0))),
        }
    }

    /// The send buffer size: the transmit ring's payload capacity when
    /// bound, the default size otherwise.
    pub fn send_buffer_size(&self) -> (r: usize)
        ensures
            r == match self.spec_inner() {
                Some(UdpInner::Bound(b)) => b.spec_tx_capacity(),
                _ => DEFAULT_TX_BUF_SIZE,
            },
    {
        match &self.inner {
            Some(UdpInner::Bound(bound)) => bound.payload_send_capacity(),
            _ => DEFAULT_TX_BUF_SIZE,
        }
    }

    /// The receive buffer size: the receive ring's payload capacity when
    /// bound, the default size otherwise.
    pub fn recv_buffer_size(&self) -> (r: usize)
        ensures
            r == match self.spec_inner() {
                Some(UdpInner::Bound(b)) => b.spec_rx_capacity(),
                _ => DEFAULT_RX_BUF_SIZE,
            },
    {
        match &self.inner {
            Some(UdpInner::Bound(bound)) => bound.payload_recv_capacity(),
            _ => DEFAULT_RX_BUF_SIZE,
        }
    }

    /// The poll events of the socket: `EPOLLERR | EPOLLHUP` when closed, the
    /// writable events when unbound, and when bound the readable events when
    /// its receive ring holds a record (always when a datagram waits)
    /// together with the writable events when its transmit ring has a free
    /// slot.
    pub fn check_io_event(&self) -> (r: u32)
        ensures
            r == poll_events(self.spec_inner()),
            match self.spec_inner() {
                Some(UdpInner::Bound(b)) => b.spec_rx().len() > 0 ==> r == (if b.spec_tx_full() {
                    0
                } else {
                    writable_events()
                }) + readable_events(),
                _ => true,
            },
    {
        let mut event: u32 = 0;
        match &self.inner {
            Some(UdpInner::Unbound(_)) => {
                event = event | (EPOLLOUT | EPOLLWRNORM | EPOLLWRBAND);
                assert(0u32 | (0x4u32 | 0x100u32 | 0x200u32) == 0x304u32) by (bit_vector);
            },
            Some(UdpInner::Bound(bound)) => {
                let can_recv = bound.can_recv();
                let can_send = bound.can_send();
                if can_recv {
                    event = event | (EPOLLIN | EPOLLRDNORM);
                    assert(0u32 | (0x1u32 | 0x40u32) == 0x41u32) by (bit_vector);
                }
                if can_send {
                    let before = event;
                    event = event | (EPOLLOUT | EPOLLWRNORM | EPOLLWRBAND);
                    assert(before == 0 || before == 0x41 ==> (before | (0x4u32 | 0x100u32
                        | 0x200u32)) == before + 0x304) by (bit_vector);
                }
            },
            None => {
                event = event | (EPOLLERR | EPOLLHUP);
                assert(0u32 | (0x8u32 | 0x10u32) == 0x18u32) by (bit_vector);
            },
        }
        event
    }

    /// Whether the socket can receive: never when closed or unbound; when
    /// bound, exactly when its receive ring holds a record (always when a
    /// datagram waits).
    pub fn can_recv(&self) -> (r: bool)
        ensures
            match self.spec_inner() {
                Some(UdpInner::Bound(b)) => {
                    &&& r == b.spec_rx_pending()
                    &&& b.spec_rx().len() > 0 ==> r
                },
                _ => !r,
            },
    {
        let ev = self.check_io_event();
        let r = ev & EPOLLIN != 0;
        assert((0u32 & 0x1u32) == 0 && (0x304u32 & 0x1u32) == 0 && (0x41u32 & 0x1u32) != 0
            && (0x345u32 & 0x1u32) != 0 && (0x18u32 & 0x1u32) == 0) by (bit_vector);
        r
    }

    /// Whether the socket can send: never when closed, always when unbound,
    /// and when bound whenever its transmit ring has a free slot.
    pub fn can_send(&self) -> (r: bool)
        ensures
            match self.spec_inner() {
                None => !r,
                Some(UdpInner::Unbound(_)) => r,
                Some(UdpInner::Bound(b)) => r == !b.spec_tx_full(),
            },
    {
        let ev = self.check_io_event();
        let r = ev & EPOLLOUT != 0;
        assert((0u32 & 0x4u32) == 0 && (0x41u32 & 0x4u32) == 0 && (0x304u32 & 0x4u32) != 0
            && (0x345u32 & 0x4u32) != 0 && (0x18u32 & 0x4u32) == 0) by (bit_vector);
        r
    }

    /// Reads socket option `name` of `level` into `value`. `parse` is the
    /// option table of the level: it gives the option flags that `name`
    /// stands for, or `None` when `name` is not an option of the level (it is
    /// consulted for the IP and IPv6 levels only). Only `RECVERR` is
    /// answered: it reads as disabled, four zero bytes, and needs room for
    /// them (`EINVAL`). Other options of the level answer `ENOSYS`, names
    /// that are not options `ENOPROTOOPT`, other levels `ENOSYS`. The answer
    /// is the same whatever state the socket is in (`option_outcome`).
    pub fn option<P>(&self, level: u32, name: usize, value: &mut [u8], parse: P) -> (r: Result<usize, SystemError>) where
        P: FnOnce(u32, u32) -> Option<u32>,
        requires
            is_ip_level(level) ==> parse.requires((level, name as u32)),
        ensures
            !is_ip_level(level) ==> r == option_outcome(level, None, old(value)@).0 && final(value)@ == option_outcome(
                level,
                None,
                old(value)@,
            ).1,
            is_ip_level(level) ==> exists|p: Option<u32>|
                #[trigger] parse.ensures((level, name as u32), p) && r == option_outcome(level, p, old(value)@).0
                    && final(value)@ == option_outcome(level, p, old(value)@).1,
    {
        let recverr = if level == SOL_IP {
            IP_RECVERR
        } else if level == SOL_IPV6 {
            IPV6_RECVERR
        } else {
            return Err(SystemError::ENOSYS);
        };
        match parse(level, name as u32) {
            Some(bits) => {
                if bits & recverr == recverr {
                    if value.len() < 4 {
                        return Err(SystemError::EINVAL);
                    }
                    value[0] = 0;
                    value[1] = 0;
                    value[2] = 0;
                    value[3] = 0;
                    assert(value@ =~= seq![0u8, 0u8, 0u8, 0u8] + old(value)@.subrange(4, old(value)@.len() as int));
                    return Ok(4);
                }
            },
            None => {
                return Err(SystemError::ENOPROTOOPT);
            },
        }
        Err(SystemError::ENOSYS)
    }

    /// Sets socket option `name` of `level`, with `parse` as in `option`.
    /// Only `RECVERR` is accepted (and has no effect); other options of the
    /// level answer `ENOSYS`, names that are not options `ENOPROTOOPT`,
    /// other levels `ENOSYS`.
    pub fn set_option<P>(&self, level: u32, name: usize, value: &[u8], parse: P) -> (r: Result<(), SystemError>) where
        P: FnOnce(u32, u32) -> Option<u32>,
        requires
            is_ip_level(level) ==> parse.requires((level, name as u32)),
        ensures
            !is_ip_level(level) ==> r == set_option_outcome(level, None),
            is_ip_level(level) ==> exists|p: Option<u32>|
                #[trigger] parse.ensures((level, name as u32), p) && r == set_option_outcome(level, p),
    {
        let recverr = if level == SOL_IP {
            IP_RECVERR
        } else if level == SOL_IPV6 {
            IPV6_RECVERR
        } else {
            return Err(SystemError::ENOSYS);
        };
        match parse(level, name as u32) {
            Some(bits) => {
                if bits & recverr == recverr {
                    return Ok(());
                }
            },
            None => {
                return Err(SystemError::ENOPROTOOPT);
            },
        }
        Err(SystemError::ENOSYS)
    }
}

} // verus!
