//! The two states of a UDP socket's endpoint: not yet bound, and bound to a
//! local endpoint (and perhaps connected to a remote one).
use vstd::prelude::*;
use crate::errno::SystemError;
use crate::inet::{IpAddress, IpEndpoint, IpListenEndpoint, IPV4_LOOPBACK, spec_is_unspecified};
use crate::smol::{
    udp_bind, udp_endpoint, udp_close, udp_can_send, udp_can_recv, udp_send_slice,
    udp_peek_slice, udp_recv_slice, udp_payload_send_capacity, udp_payload_recv_capacity,
    packet_buffer_new, udp_socket_new, udp_local, udp_rx, udp_tx, udp_rx_capacity,
    udp_tx_capacity, udp_tx_full, tx_side_kept, udp_rx_pending, udp_tx_accepts, udp_rx_slots,
    udp_tx_slots,
};

verus! {

/// A datagram: the remote endpoint and the payload.
pub type Datagram = (IpEndpoint, Seq<u8>);

/// Number of metadata records of each packet ring.
pub const DEFAULT_METADATA_BUF_SIZE: usize = 1024;

/// Payload bytes of the receive ring.
pub const DEFAULT_RX_BUF_SIZE: usize = 65536;

/// Payload bytes of the transmit ring.
pub const DEFAULT_TX_BUF_SIZE: usize = 65536;

/// The endpoint a socket listens on when bound to `addr` and `port`: the
/// unspecified address listens on every address.
pub open spec fn listen_on(addr: IpAddress, port: u16) -> IpListenEndpoint {
    IpListenEndpoint {
        addr: if spec_is_unspecified(addr) {
            None
        } else {
            Some(addr)
        },
        port,
    }
}

/// The port a bind to `ep` takes, given the port the port manager handed out:
/// port 0 asks for an ephemeral port.
pub open spec fn chosen_port(ep: IpEndpoint, granted: u16) -> u16 {
    if ep.port == 0 {
        granted
    } else {
        ep.port
    }
}

/// Where a datagram sent with an explicit destination `to` (or to the
/// connected peer) goes: an unspecified address means the IPv4 loopback.
pub open spec fn send_target(to: Option<IpEndpoint>, connected: Option<IpEndpoint>) -> Option<
    IpEndpoint,
> {
    let t = match to {
        Some(t) => Some(t),
        None => connected,
    };
    match t {
        Some(e) => Some(
            if spec_is_unspecified(e.addr) {
                IpEndpoint { addr: IpAddress::Ipv4(IPV4_LOOPBACK), port: e.port }
            } else {
                e
            },
        ),
        None => None,
    }
}

/// For a connected socket: the datagram that a receive with room for `cap`
/// bytes takes from `rx`, and what is left of `rx` afterwards. Datagrams from
/// other sources are dropped on the way; the walk stops, leaving the datagram
/// in place, at the first one that does not fit.
pub open spec fn pick_from(rx: Seq<Datagram>, expected: IpEndpoint, cap: nat) -> (
    Option<Datagram>,
    Seq<Datagram>,
)
    decreases rx.len(),
{
    if rx.len() == 0 {
        (None, rx)
    } else if rx[0].1.len() > cap {
        (None, rx)
    } else if rx[0].0 == expected {
        (Some(rx[0]), rx.drop_first())
    } else {
        pick_from(rx.drop_first(), expected, cap)
    }
}

/// The datagram that a receive with room for `cap` bytes takes from `rx`, and
/// what is left of `rx`: from any source when not connected (a datagram that
/// does not fit is dropped and nothing is received), only from the peer when
/// connected.
pub open spec fn recv_pick(rx: Seq<Datagram>, remote: Option<IpEndpoint>, cap: nat) -> (
    Option<Datagram>,
    Seq<Datagram>,
) {
    match remote {
        None => if rx.len() == 0 {
            (None, rx)
        } else if rx[0].1.len() > cap {
            (None, rx.drop_first())
        } else {
            (Some(rx[0]), rx.drop_first())
        },
        Some(expected) => pick_from(rx, expected, cap),
    }
}

/// A socket that is not bound to a local endpoint.
pub struct UnboundUdp {
    socket: smoltcp::socket::udp::Socket<'static>,
}

/// A socket bound to a local endpoint.
pub struct BoundUdp {
    socket: smoltcp::socket::udp::Socket<'static>,
    remote: Option<IpEndpoint>,
    /// True if the socket was bound by the user, false if bound implicitly
    /// by a connect or a send.
    explicitly_bound: bool,
}

impl UnboundUdp {
    #[verifier::type_invariant]
    spec fn not_bound(self) -> bool {
        &&& udp_local(self.socket).port == 0
        &&& !udp_tx_full(self.socket)
        &&& !udp_rx_pending(self.socket)
    }

    /// Datagrams waiting to be received.
    pub closed spec fn spec_rx(&self) -> Seq<Datagram> {
        udp_rx(self.socket)
    }

    /// Datagrams waiting to be sent.
    pub closed spec fn spec_tx(&self) -> Seq<Datagram> {
        udp_tx(self.socket)
    }

    /// Payload capacity of the receive ring.
    pub closed spec fn spec_rx_capacity(&self) -> usize {
        udp_rx_capacity(self.socket)
    }

    /// Payload capacity of the transmit ring.
    pub closed spec fn spec_tx_capacity(&self) -> usize {
        udp_tx_capacity(self.socket)
    }

    /// Whether the transmit ring's metadata slots are all taken.
    pub closed spec fn spec_tx_full(&self) -> bool {
        udp_tx_full(self.socket)
    }

    /// The endpoint the socket is bound to: none, port 0.
    pub closed spec fn spec_local(&self) -> IpListenEndpoint {
        udp_local(self.socket)
    }

    /// Whether the receive ring holds any record.
    pub closed spec fn spec_rx_pending(&self) -> bool {
        udp_rx_pending(self.socket)
    }

    /// Number of metadata records of the receive ring.
    pub closed spec fn spec_rx_slots(&self) -> usize {
        udp_rx_slots(self.socket)
    }

    /// Number of metadata records of the transmit ring.
    pub closed spec fn spec_tx_slots(&self) -> usize {
        udp_tx_slots(self.socket)
    }

    /// A socket as `new` makes it: not bound, empty rings (no record, a free
    /// slot) of the default capacities and numbers of metadata records.
    pub open spec fn is_fresh(&self) -> bool {
        &&& self.spec_local() == (IpListenEndpoint { addr: None, port: 0 })
        &&& !self.spec_tx_full()
        &&& !self.spec_rx_pending()
        &&& self.spec_rx().len() == 0
        &&& self.spec_tx().len() == 0
        &&& self.spec_rx_capacity() == DEFAULT_RX_BUF_SIZE
        &&& self.spec_tx_capacity() == DEFAULT_TX_BUF_SIZE
        &&& self.spec_rx_slots() == DEFAULT_METADATA_BUF_SIZE
        &&& self.spec_tx_slots() == DEFAULT_METADATA_BUF_SIZE
    }

    /// A new socket with empty rings of the default sizes.
    pub fn new() -> (r: Self)
        ensures
            r.is_fresh(),
    {
        let rx_buffer = packet_buffer_new(DEFAULT_METADATA_BUF_SIZE, DEFAULT_RX_BUF_SIZE);
        let tx_buffer = packet_buffer_new(DEFAULT_METADATA_BUF_SIZE, DEFAULT_TX_BUF_SIZE);
        let socket = udp_socket_new(rx_buffer, tx_buffer);
        UnboundUdp { socket }
    }

    /// Binds the socket to `local_endpoint`. `allocated` is what the port
    /// manager answered: the ephemeral port it handed out when
    /// `local_endpoint.port` is 0, or the outcome of reserving that port.
    /// Its error is passed on; a bind to port 0 is refused with `EINVAL`.
    pub fn bind(self, local_endpoint: IpEndpoint, allocated: Result<u16, SystemError>) -> (r: Result<
        BoundUdp,
        SystemError,
    >)
        ensures
            match allocated {
                Err(e) => r == Err::<BoundUdp, SystemError>(e),
                Ok(p) => {
                    let port = chosen_port(local_endpoint, p);
                    if port == 0 {
                        r == Err::<BoundUdp, SystemError>(SystemError::EINVAL)
                    } else {
                        r is Ok && BoundUdp::bound_from(
                            r->Ok_0,
                            self,
                            listen_on(local_endpoint.addr, port),
                            true,
                        )
                    }
                },
            },
    {
        proof {
            use_type_invariant(&self);
        }
        let bind_addr = local_endpoint.addr;
        let bind_port = if local_endpoint.port == 0 {
            allocated?
        } else {
            allocated?;
            local_endpoint.port
        };
        let mut socket = self.socket;
        let listen = if bind_addr.is_unspecified() {
            IpListenEndpoint { addr: None, port: bind_port }
        } else {
            IpListenEndpoint { addr: Some(bind_addr), port: bind_port }
        };
        if udp_bind(&mut socket, listen).is_err() {
            return Err(SystemError::EINVAL);
        }
        Ok(BoundUdp { socket, remote: None, explicitly_bound: true })
    }

    /// Binds the socket implicitly, before a connect or a send. `allocated`
    /// is what the network namespace answered: the local address chosen for
    /// the remote peer and an ephemeral port. Its error is passed on; port 0
    /// is refused with `EINVAL`.
    pub fn bind_ephemeral(self, allocated: Result<(IpAddress, u16), SystemError>) -> (r: Result<
        BoundUdp,
        SystemError,
    >)
        ensures
            match allocated {
                Err(e) => r == Err::<BoundUdp, SystemError>(e),
                Ok((local_addr, port)) => if port == 0 {
                    r == Err::<BoundUdp, SystemError>(SystemError::EINVAL)
                } else {
                    r is Ok && BoundUdp::bound_from(
                        r->Ok_0,
                        self,
                        listen_on(local_addr, port),
                        false,
                    )
                },
            },
    {
        proof {
            use_type_invariant(&self);
        }
        let (local_addr, bound_port) = allocated?;
        let mut socket = self.socket;
        let listen = if local_addr.is_unspecified() {
            IpListenEndpoint { addr: None, port: bound_port }
        } else {
            IpListenEndpoint { addr: Some(local_addr), port: bound_port }
        };
        if udp_bind(&mut socket, listen).is_err() {
            return Err(SystemError::EINVAL);
        }
        Ok(BoundUdp { socket, remote: None, explicitly_bound: false })
    }
}

impl BoundUdp {
    /// The underlying smoltcp socket.
    pub closed spec fn spec_socket(&self) -> smoltcp::socket::udp::Socket<'static> {
        self.socket
    }

    /// The local endpoint.
    pub closed spec fn spec_local(&self) -> IpListenEndpoint {
        udp_local(self.socket)
    }

    /// The connected peer, if any.
    pub closed spec fn spec_remote(&self) -> Option<IpEndpoint> {
        self.remote
    }

    /// Whether the user bound the socket.
    pub closed spec fn spec_explicitly_bound(&self) -> bool {
        self.explicitly_bound
    }

    /// Datagrams waiting to be received.
    pub closed spec fn spec_rx(&self) -> Seq<Datagram> {
        udp_rx(self.socket)
    }

    /// Datagrams waiting to be sent.
    pub closed spec fn spec_tx(&self) -> Seq<Datagram> {
        udp_tx(self.socket)
    }

    /// Payload capacity of the receive ring.
    pub closed spec fn spec_rx_capacity(&self) -> usize {
        udp_rx_capacity(self.socket)
    }

    /// Payload capacity of the transmit ring.
    pub closed spec fn spec_tx_capacity(&self) -> usize {
        udp_tx_capacity(self.socket)
    }

    /// Whether the transmit ring's metadata slots are all taken.
    pub closed spec fn spec_tx_full(&self) -> bool {
        udp_tx_full(self.socket)
    }

    /// Whether the receive ring holds any record (a datagram, or a leftover
    /// padding record).
    pub closed spec fn spec_rx_pending(&self) -> bool {
        udp_rx_pending(self.socket)
    }

    /// Whether the transmit ring, as it stands, takes a datagram of `len`
    /// bytes.
    pub closed spec fn spec_tx_accepts(&self, len: usize) -> bool {
        udp_tx_accepts(self.socket, len)
    }

    /// Number of metadata records of the receive ring.
    pub closed spec fn spec_rx_slots(&self) -> usize {
        udp_rx_slots(self.socket)
    }

    /// Number of metadata records of the transmit ring.
    pub closed spec fn spec_tx_slots(&self) -> usize {
        udp_tx_slots(self.socket)
    }

    /// Takes the socket apart: the smoltcp socket (for the interface to poll
    /// in its socket set), the peer, and whether the user bound it.
    pub fn into_parts(self) -> (r: (smoltcp::socket::udp::Socket<'static>, Option<IpEndpoint>, bool))
        ensures
            r.0 == self.spec_socket(),
            r.1 == self.spec_remote(),
            r.2 == self.spec_explicitly_bound(),
    {
        (self.socket, self.remote, self.explicitly_bound)
    }

    /// Puts a socket back together from what `into_parts` gave.
    pub fn from_parts(
        socket: smoltcp::socket::udp::Socket<'static>,
        remote: Option<IpEndpoint>,
        explicitly_bound: bool,
    ) -> (r: BoundUdp)
        ensures
            r.spec_socket() == socket,
            r.spec_remote() == remote,
            r.spec_explicitly_bound() == explicitly_bound,
    {
        BoundUdp { socket, remote, explicitly_bound }
    }

    /// Calls `f` on the underlying smoltcp socket and answers what it answers.
    pub fn with_socket<F, T>(&self, f: F) -> (r: T) where
        F: Fn(&smoltcp::socket::udp::Socket<'static>) -> T,
        requires
            f.requires((&self.spec_socket(),)),
        ensures
            f.ensures((&self.spec_socket(),), r),
    {
        f(&self.socket)
    }

    /// The local endpoint the socket is bound to.
    pub fn endpoint(&self) -> (r: IpListenEndpoint)
        ensures
            r == self.spec_local(),
    {
        udp_endpoint(&self.socket)
    }

    /// The connected peer; `ENOTCONN` when there is none.
    pub fn remote_endpoint(&self) -> (r: Result<IpEndpoint, SystemError>)
        ensures
            r == match self.spec_remote() {
                Some(e) => Ok::<IpEndpoint, SystemError>(e),
                None => Err::<IpEndpoint, SystemError>(SystemError::ENOTCONN),
            },
    {
        match self.remote {
            Some(e) => Ok(e),
            None => Err(SystemError::ENOTCONN),
        }
    }

    /// Connects the socket to `remote`.
    pub fn connect(&mut self, remote: IpEndpoint)
        ensures
            final(self).spec_remote() == Some(remote),
            BoundUdp::same_but_rx_remote(*old(self), *final(self)),
            final(self).spec_rx() == old(self).spec_rx(),
    {
        self.remote = Some(remote);
    }

    /// Forgets the connected peer.
    pub fn disconnect(&mut self)
        ensures
            final(self).spec_remote() == None::<IpEndpoint>,
            BoundUdp::same_but_rx_remote(*old(self), *final(self)),
            final(self).spec_rx() == old(self).spec_rx(),
    {
        self.remote = None;
    }

    /// Whether the socket should be unbound when it is disconnected: it
    /// should when it was bound implicitly.
    pub fn should_unbind_on_disconnect(&self) -> (r: bool)
        ensures
            r == !self.spec_explicitly_bound(),
    {
        !self.explicitly_bound
    }

    /// Payload capacity of the transmit ring.
    pub fn payload_send_capacity(&self) -> (r: usize)
        ensures
            r == self.spec_tx_capacity(),
    {
        udp_payload_send_capacity(&self.socket)
    }

    /// Payload capacity of the receive ring.
    pub fn payload_recv_capacity(&self) -> (r: usize)
        ensures
            r == self.spec_rx_capacity(),
    {
        udp_payload_recv_capacity(&self.socket)
    }

    /// Whether the receive ring holds any record (`spec_rx_pending`): true
    /// whenever a datagram waits.
    pub fn can_recv(&self) -> (r: bool)
        ensures
            r == self.spec_rx_pending(),
            self.spec_rx().len() > 0 ==> r,
    {
        udp_can_recv(&self.socket)
    }

    /// Whether the transmit ring has a free metadata slot.
    pub fn can_send(&self) -> (r: bool)
        ensures
            r == !self.spec_tx_full(),
    {
        udp_can_send(&self.socket)
    }

    /// Receives one datagram into `buf` without waiting. When connected, only
    /// datagrams from the peer are taken and those from other sources are
    /// dropped; see `recv_pick`. With nothing to take the answer is
    /// `EAGAIN_OR_EWOULDBLOCK`.
    pub fn try_recv(&mut self, buf: &mut [u8]) -> (r: Result<(usize, IpEndpoint), SystemError>)
        ensures
            BoundUdp::received(*old(self), *final(self), old(buf)@, final(buf)@, r),
    {
        let ghost s0 = self.socket;
        let ghost cap = buf@.len();
        let ghost eb = self.explicitly_bound;
        let remote = self.remote;
        match remote {
            Some(expected_remote) => {
                loop
                    invariant
                        remote == Some(expected_remote),
                        self.remote == remote,
                        self.explicitly_bound == eb,
                        old(self).socket == s0,
                        old(self).remote == remote,
                        old(self).explicitly_bound == eb,
                        old(buf)@.len() == cap,
                        buf@.len() == cap,
                        tx_side_kept(s0, self.socket),
                        pick_from(udp_rx(self.socket), expected_remote, cap) == pick_from(
                            udp_rx(s0),
                            expected_remote,
                            cap,
                        ),
                    decreases udp_rx(self.socket).len(),
                {
                    if !udp_can_recv(&self.socket) {
                        return Err(SystemError::EAGAIN_OR_EWOULDBLOCK);
                    }
                    if let Ok((_size, source)) = udp_peek_slice(&mut self.socket, buf) {
                        if source == expected_remote {
                            if let Ok((size, source)) = udp_recv_slice(&mut self.socket, buf) {
                                proof {
                                    let d = pick_from(udp_rx(s0), expected_remote, cap).0->Some_0;
                                    assert(buf@.subrange(0, d.1.len() as int) =~= d.1);
                                }
                                return Ok((size, source));
                            }
                        } else {
                            let _ = udp_recv_slice(&mut self.socket, buf);
                            continue ;
                        }
                    }
                    return Err(SystemError::EAGAIN_OR_EWOULDBLOCK);
                }
            },
            None => {
                if udp_can_recv(&self.socket) {
                    if let Ok((size, source)) = udp_recv_slice(&mut self.socket, buf) {
                        proof {
                            let d = udp_rx(s0)[0];
                            assert(buf@.subrange(0, d.1.len() as int) =~= d.1);
                        }
                        return Ok((size, source));
                    }
                }
                return Err(SystemError::EAGAIN_OR_EWOULDBLOCK);
            },
        }
    }

    /// Sends `buf` to `to`, or to the peer when `to` is `None` (`ENOTCONN`
    /// when there is none). A datagram to an unspecified address goes to the
    /// IPv4 loopback. The answer is the length sent, or `ENOBUFS` when the
    /// transmit ring refuses the datagram.
    pub fn try_send(&mut self, buf: &[u8], to: Option<IpEndpoint>) -> (r: Result<usize, SystemError>)
        ensures
            BoundUdp::sent(*old(self), *final(self), buf@, to, r),
    {
        let connected_remote = self.remote;
        let mut remote = match to {
            Some(t) => t,
            None => match connected_remote {
                Some(c) => c,
                None => return Err(SystemError::ENOTCONN),
            },
        };
        if remote.addr.is_unspecified() {
            remote.addr = IpAddress::v4(127, 0, 0, 1);
        }
        if udp_can_send(&self.socket) {
            match udp_send_slice(&mut self.socket, buf, remote) {
                Ok(_) => {
                    return Ok(buf.len());
                },
                Err(_) => {
                    return Err(SystemError::ENOBUFS);
                },
            }
        }
        Err(SystemError::ENOBUFS)
    }

    /// Closes the socket: it is unbound and both rings are emptied. The
    /// answer is the local port, which the port manager is to release.
    pub fn close(&mut self) -> (port: u16)
        ensures
            port == old(self).spec_local().port,
            final(self).spec_local() == (IpListenEndpoint { addr: None, port: 0 }),
            final(self).spec_rx().len() == 0,
            final(self).spec_tx().len() == 0,
            final(self).spec_remote() == old(self).spec_remote(),
            final(self).spec_explicitly_bound() == old(self).spec_explicitly_bound(),
            final(self).spec_rx_capacity() == old(self).spec_rx_capacity(),
            final(self).spec_tx_capacity() == old(self).spec_tx_capacity(),
    {
        let port = udp_endpoint(&self.socket).port;
        udp_close(&mut self.socket);
        port
    }

    /// `b` is what binding `u` to `local` makes, with no peer; its rings,
    /// like those of every unbound socket, hold no record and have a free
    /// slot.
    pub open spec fn bound_from(b: BoundUdp, u: UnboundUdp, local: IpListenEndpoint, explicit: bool) -> bool {
        &&& b.spec_local() == local
        &&& b.spec_remote() == None::<IpEndpoint>
        &&& b.spec_explicitly_bound() == explicit
        &&& b.spec_rx() == u.spec_rx()
        &&& b.spec_tx() == u.spec_tx()
        &&& b.spec_rx_capacity() == u.spec_rx_capacity()
        &&& b.spec_tx_capacity() == u.spec_tx_capacity()
        &&& !b.spec_tx_full()
        &&& !b.spec_rx_pending()
        &&& b.spec_rx_slots() == u.spec_rx_slots()
        &&& b.spec_tx_slots() == u.spec_tx_slots()
    }

    /// `b` is `a` with only its peer and its receive ring possibly changed.
    pub open spec fn same_but_rx_remote(a: BoundUdp, b: BoundUdp) -> bool {
        &&& b.spec_local() == a.spec_local()
        &&& b.spec_explicitly_bound() == a.spec_explicitly_bound()
        &&& b.spec_tx() == a.spec_tx()
        &&& b.spec_rx_capacity() == a.spec_rx_capacity()
        &&& b.spec_tx_capacity() == a.spec_tx_capacity()
        &&& b.spec_tx_full() == a.spec_tx_full()
        &&& b.spec_rx_slots() == a.spec_rx_slots()
        &&& b.spec_tx_slots() == a.spec_tx_slots()
    }

    /// What a send of `data` to `to` (or to the peer) from `a` does, leaving
    /// `b` and answering `r`.
    pub open spec fn sent(a: BoundUdp, b: BoundUdp, data: Seq<u8>, to: Option<IpEndpoint>, r: Result<usize, SystemError>) -> bool {
        &&& b.spec_local() == a.spec_local()
        &&& b.spec_remote() == a.spec_remote()
        &&& b.spec_explicitly_bound() == a.spec_explicitly_bound()
        &&& b.spec_rx() == a.spec_rx()
        &&& b.spec_rx_capacity() == a.spec_rx_capacity()
        &&& b.spec_tx_capacity() == a.spec_tx_capacity()
        &&& b.spec_rx_slots() == a.spec_rx_slots()
        &&& b.spec_tx_slots() == a.spec_tx_slots()
        &&& match send_target(to, a.spec_remote()) {
            None => r == Err::<usize, SystemError>(SystemError::ENOTCONN) && b.spec_tx() == a.spec_tx()
                && b.spec_tx_full() == a.spec_tx_full(),
            Some(t) => {
                &&& (r == Ok::<usize, SystemError>(data.len() as usize) && b.spec_tx() == a.spec_tx().push((t, data)))
                    || (r == Err::<usize, SystemError>(SystemError::ENOBUFS) && b.spec_tx() == a.spec_tx())
                &&& (r is Ok) <==> (!a.spec_tx_full() && t.port != 0 && a.spec_local().port != 0
                    && a.spec_tx_accepts(data.len() as usize))
                &&& (a.spec_tx_full() || t.port == 0 || a.spec_local().port == 0
                    || data.len() > a.spec_tx_capacity()) ==> r == Err::<usize, SystemError>(SystemError::ENOBUFS)
            },
        }
    }

    /// What a receive into a buffer of `cap` bytes that held `buf0` does to
    /// `a`, leaving `b`, the buffer `buf1`, and answering `r`.
    pub open spec fn received(a: BoundUdp, b: BoundUdp, buf0: Seq<u8>, buf1: Seq<u8>, r: Result<(usize, IpEndpoint), SystemError>) -> bool {
        let (pick, rest) = recv_pick(a.spec_rx(), a.spec_remote(), buf0.len());
        &&& BoundUdp::same_but_rx_remote(a, b)
        &&& b.spec_remote() == a.spec_remote()
        &&& b.spec_rx() == rest
        &&& buf1.len() == buf0.len()
        &&& match pick {
            Some(d) => r == Ok::<(usize, IpEndpoint), SystemError>((d.1.len() as usize, d.0))
                && buf1.subrange(0, d.1.len() as int) == d.1,
            None => r == Err::<(usize, IpEndpoint), SystemError>(SystemError::EAGAIN_OR_EWOULDBLOCK),
        }
        &&& a.spec_remote() is None ==> match pick {
            Some(d) => buf1 == d.1 + buf0.subrange(d.1.len() as int, buf0.len() as int),
            None => buf1 == buf0,
        }
    }
}

} // verus!
