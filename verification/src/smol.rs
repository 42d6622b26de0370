//! The calls into smoltcp's UDP socket that the datagram socket makes, with
//! the contracts that smoltcp's source shows for them.
//!
//! A socket is described by the names below: the datagrams waiting in its
//! receive and transmit rings (padding records left out), the endpoint it is
//! bound to, the payload capacity and the number of metadata records of
//! each ring, whether the receive ring holds any record, whether the
//! transmit ring's metadata slots are all taken, and whether it takes a
//! datagram of a given length.
use vstd::prelude::*;
use crate::inet::{IpAddress, IpEndpoint, IpListenEndpoint};

verus! {

#[verifier::external_type_specification]
#[verifier::external_body]
pub struct ExUdpSocket<'a>(smoltcp::socket::udp::Socket<'a>);

#[verifier::external_type_specification]
#[verifier::external_body]
#[verifier::reject_recursive_types(H)]
pub struct ExPacketBuffer<'a, H: 'a>(smoltcp::storage::PacketBuffer<'a, H>);

#[verifier::external_type_specification]
#[verifier::external_body]
pub struct ExUdpMetadata(smoltcp::socket::udp::UdpMetadata);

#[verifier::external_type_specification]
#[verifier::external_body]
pub struct ExBindError(smoltcp::socket::udp::BindError);

#[verifier::external_type_specification]
#[verifier::external_body]
pub struct ExSendError(smoltcp::socket::udp::SendError);

#[verifier::external_type_specification]
#[verifier::external_body]
pub struct ExRecvError(smoltcp::socket::udp::RecvError);

/// The datagrams held by a packet buffer, oldest first, each with the remote
/// endpoint it came from or goes to.
pub uninterp spec fn buffer_datagrams(
    b: smoltcp::storage::PacketBuffer<'static, smoltcp::socket::udp::UdpMetadata>,
) -> Seq<(IpEndpoint, Seq<u8>)>;

/// The payload capacity in bytes that a packet buffer was made with.
pub uninterp spec fn buffer_payload_capacity(
    b: smoltcp::storage::PacketBuffer<'static, smoltcp::socket::udp::UdpMetadata>,
) -> usize;

/// The number of metadata records that a packet buffer was made with.
pub uninterp spec fn buffer_slots(
    b: smoltcp::storage::PacketBuffer<'static, smoltcp::socket::udp::UdpMetadata>,
) -> usize;

/// Whether a packet buffer's metadata ring holds any record.
pub uninterp spec fn buffer_pending(
    b: smoltcp::storage::PacketBuffer<'static, smoltcp::socket::udp::UdpMetadata>,
) -> bool;

/// Whether every metadata slot of a packet buffer is taken.
pub uninterp spec fn buffer_full(
    b: smoltcp::storage::PacketBuffer<'static, smoltcp::socket::udp::UdpMetadata>,
) -> bool;

/// The datagrams waiting in a socket's receive ring, oldest first.
pub uninterp spec fn udp_rx(s: smoltcp::socket::udp::Socket<'static>) -> Seq<(IpEndpoint, Seq<u8>)>;

/// The datagrams waiting in a socket's transmit ring, oldest first.
pub uninterp spec fn udp_tx(s: smoltcp::socket::udp::Socket<'static>) -> Seq<(IpEndpoint, Seq<u8>)>;

/// The endpoint a socket is bound to (port 0 when it is not bound).
pub uninterp spec fn udp_local(s: smoltcp::socket::udp::Socket<'static>) -> IpListenEndpoint;

/// The payload capacity of a socket's receive ring.
pub uninterp spec fn udp_rx_capacity(s: smoltcp::socket::udp::Socket<'static>) -> usize;

/// The payload capacity of a socket's transmit ring.
pub uninterp spec fn udp_tx_capacity(s: smoltcp::socket::udp::Socket<'static>) -> usize;

/// The number of metadata records of a socket's receive ring.
pub uninterp spec fn udp_rx_slots(s: smoltcp::socket::udp::Socket<'static>) -> usize;

/// The number of metadata records of a socket's transmit ring.
pub uninterp spec fn udp_tx_slots(s: smoltcp::socket::udp::Socket<'static>) -> usize;

/// Whether a socket's transmit ring, as it stands, takes a datagram of `len`
/// bytes: a free metadata slot, and room for the payload (after the padding
/// that wraps it to the start of the ring, where needed).
pub uninterp spec fn udp_tx_accepts(s: smoltcp::socket::udp::Socket<'static>, len: usize) -> bool;

/// Whether a socket's receive ring holds any record: a datagram, or a
/// padding record left over from an enqueue that found no slot after it.
pub uninterp spec fn udp_rx_pending(s: smoltcp::socket::udp::Socket<'static>) -> bool;

/// Whether every metadata slot of a socket's transmit ring is taken.
pub uninterp spec fn udp_tx_full(s: smoltcp::socket::udp::Socket<'static>) -> bool;

/// Everything of a socket but its transmit side stays as it was.
pub open spec fn rx_side_kept(
    a: smoltcp::socket::udp::Socket<'static>,
    b: smoltcp::socket::udp::Socket<'static>,
) -> bool {
    &&& udp_rx(b) == udp_rx(a)
    &&& udp_rx_pending(b) == udp_rx_pending(a)
    &&& udp_local(b) == udp_local(a)
    &&& udp_rx_capacity(b) == udp_rx_capacity(a)
    &&& udp_tx_capacity(b) == udp_tx_capacity(a)
    &&& udp_rx_slots(b) == udp_rx_slots(a)
    &&& udp_tx_slots(b) == udp_tx_slots(a)
}

/// Everything of a socket but its receive ring stays as it was.
pub open spec fn tx_side_kept(
    a: smoltcp::socket::udp::Socket<'static>,
    b: smoltcp::socket::udp::Socket<'static>,
) -> bool {
    &&& udp_tx(b) == udp_tx(a)
    &&& udp_tx_full(b) == udp_tx_full(a)
    &&& udp_local(b) == udp_local(a)
    &&& udp_rx_capacity(b) == udp_rx_capacity(a)
    &&& udp_tx_capacity(b) == udp_tx_capacity(a)
    &&& udp_rx_slots(b) == udp_rx_slots(a)
    &&& udp_tx_slots(b) == udp_tx_slots(a)
}

/// `smoltcp::storage::PacketBuffer::new`, with `slots` metadata records and
/// `bytes` bytes of payload storage: the new buffer holds no record, has
/// `slots` metadata records and a payload capacity of `bytes`; its metadata
/// ring is full only when it has no slot at all.
#[verifier::external_body]
pub(crate) fn packet_buffer_new(slots: usize, bytes: usize) -> (r: smoltcp::storage::PacketBuffer<
    'static,
    smoltcp::socket::udp::UdpMetadata,
>)
    ensures
        buffer_datagrams(r) == Seq::<(IpEndpoint, Seq<u8>)>::empty(),
        buffer_payload_capacity(r) == bytes,
        buffer_slots(r) == slots,
        !buffer_pending(r),
        buffer_full(r) == (slots == 0),
{
    smoltcp::storage::PacketBuffer::new(
        vec![smoltcp::socket::udp::PacketMetadata::EMPTY; slots],
        vec![0u8; bytes],
    )
}

/// `smoltcp::socket::udp::Socket::new`: the socket takes over both buffers
/// (its receive ring holds a record exactly when `rx` does, its transmit
/// ring is full exactly when `tx` is) and is not bound.
#[verifier::external_body]
pub(crate) fn udp_socket_new(
    rx: smoltcp::storage::PacketBuffer<'static, smoltcp::socket::udp::UdpMetadata>,
    tx: smoltcp::storage::PacketBuffer<'static, smoltcp::socket::udp::UdpMetadata>,
) -> (r: smoltcp::socket::udp::Socket<'static>)
    ensures
        udp_rx(r) == buffer_datagrams(rx),
        udp_tx(r) == buffer_datagrams(tx),
        udp_rx_capacity(r) == buffer_payload_capacity(rx),
        udp_tx_capacity(r) == buffer_payload_capacity(tx),
        udp_rx_slots(r) == buffer_slots(rx),
        udp_tx_slots(r) == buffer_slots(tx),
        udp_local(r) == (IpListenEndpoint { addr: None, port: 0 }),
        udp_rx_pending(r) == buffer_pending(rx),
        udp_tx_full(r) == buffer_full(tx),
{
    smoltcp::socket::udp::Socket::new(rx, tx)
}

/// `Socket::endpoint`: the endpoint the socket is bound to.
#[verifier::external_body]
pub(crate) fn udp_endpoint(s: &smoltcp::socket::udp::Socket<'static>) -> (r: IpListenEndpoint)
    ensures
        r == udp_local(*s),
{
    let e = s.endpoint();
    let addr = match e.addr {
        Some(smoltcp::wire::IpAddress::Ipv4(v)) => Some(IpAddress::Ipv4(v.into())),
        Some(smoltcp::wire::IpAddress::Ipv6(v)) => Some(IpAddress::Ipv6(v.into())),
        None => None,
    };
    IpListenEndpoint { addr, port: e.port }
}

/// `Socket::bind`: refused when the port is 0 or the socket is already bound
/// to a nonzero port; otherwise the socket is bound to `ep`. Nothing else of
/// the socket changes.
#[verifier::external_body]
pub(crate) fn udp_bind(s: &mut smoltcp::socket::udp::Socket<'static>, ep: IpListenEndpoint) -> (r:
    Result<(), smoltcp::socket::udp::BindError>)
    ensures
        r.is_err() <==> (ep.port == 0 || udp_local(*old(s)).port != 0),
        r.is_ok() ==> udp_local(*final(s)) == ep,
        r.is_err() ==> udp_local(*final(s)) == udp_local(*old(s)),
        udp_rx(*final(s)) == udp_rx(*old(s)),
        udp_tx(*final(s)) == udp_tx(*old(s)),
        udp_tx_full(*final(s)) == udp_tx_full(*old(s)),
        udp_rx_pending(*final(s)) == udp_rx_pending(*old(s)),
        udp_rx_capacity(*final(s)) == udp_rx_capacity(*old(s)),
        udp_tx_capacity(*final(s)) == udp_tx_capacity(*old(s)),
        udp_rx_slots(*final(s)) == udp_rx_slots(*old(s)),
        udp_tx_slots(*final(s)) == udp_tx_slots(*old(s)),
{
    let addr = match ep.addr {
        Some(IpAddress::Ipv4(v)) => Some(smoltcp::wire::IpAddress::Ipv4(v.into())),
        Some(IpAddress::Ipv6(v)) => Some(smoltcp::wire::IpAddress::Ipv6(v.into())),
        None => None,
    };
    s.bind(smoltcp::wire::IpListenEndpoint { addr, port: ep.port })
}

/// `Socket::close`: the socket is unbound and both rings are emptied (no
/// record is left; the transmit ring is full only when it has no slot); the
/// capacities stay.
#[verifier::external_body]
pub(crate) fn udp_close(s: &mut smoltcp::socket::udp::Socket<'static>)
    ensures
        udp_local(*final(s)) == (IpListenEndpoint { addr: None, port: 0 }),
        udp_rx(*final(s)) == Seq::<(IpEndpoint, Seq<u8>)>::empty(),
        udp_tx(*final(s)) == Seq::<(IpEndpoint, Seq<u8>)>::empty(),
        !udp_rx_pending(*final(s)),
        udp_tx_full(*final(s)) == (udp_tx_slots(*old(s)) == 0),
        udp_rx_capacity(*final(s)) == udp_rx_capacity(*old(s)),
        udp_tx_capacity(*final(s)) == udp_tx_capacity(*old(s)),
        udp_rx_slots(*final(s)) == udp_rx_slots(*old(s)),
        udp_tx_slots(*final(s)) == udp_tx_slots(*old(s)),
{
    s.close()
}

/// `Socket::can_send`: whether the transmit ring has a free metadata slot.
#[verifier::external_body]
pub(crate) fn udp_can_send(s: &smoltcp::socket::udp::Socket<'static>) -> (r: bool)
    ensures
        r == !udp_tx_full(*s),
{
    s.can_send()
}

/// `Socket::can_recv`: whether the receive ring holds a record
/// (`udp_rx_pending`). It does whenever a datagram waits; a leftover padding
/// record alone also makes it `true`, so `true` does not by itself promise a
/// datagram.
#[verifier::external_body]
pub(crate) fn udp_can_recv(s: &smoltcp::socket::udp::Socket<'static>) -> (r: bool)
    ensures
        r == udp_rx_pending(*s),
        udp_rx(*s).len() > 0 ==> r,
{
    s.can_recv()
}

/// `Socket::payload_send_capacity`.
#[verifier::external_body]
pub(crate) fn udp_payload_send_capacity(s: &smoltcp::socket::udp::Socket<'static>) -> (r: usize)
    ensures
        r == udp_tx_capacity(*s),
{
    s.payload_send_capacity()
}

/// `Socket::payload_recv_capacity`.
#[verifier::external_body]
pub(crate) fn udp_payload_recv_capacity(s: &smoltcp::socket::udp::Socket<'static>) -> (r: usize)
    ensures
        r == udp_rx_capacity(*s),
{
    s.payload_recv_capacity()
}

/// `Socket::send_slice` to `remote`: accepted exactly when the socket is
/// bound, the remote address is specified, the remote port is not 0 and the
/// transmit ring takes `data` (`udp_tx_accepts`), which it never does when
/// every metadata slot is taken or `data` is longer than the payload
/// capacity. On success the datagram is appended to the transmit ring; on
/// refusal the ring's datagrams stay. The receive side is not touched.
#[verifier::external_body]
pub(crate) fn udp_send_slice(
    s: &mut smoltcp::socket::udp::Socket<'static>,
    data: &[u8],
    remote: IpEndpoint,
) -> (r: Result<(), smoltcp::socket::udp::SendError>)
    ensures
        (udp_local(*old(s)).port == 0 || crate::inet::spec_is_unspecified(remote.addr)
            || remote.port == 0 || udp_tx_full(*old(s)) || data@.len() > udp_tx_capacity(
            *old(s),
        )) ==> r.is_err(),
        r.is_ok() <==> (udp_local(*old(s)).port != 0 && !crate::inet::spec_is_unspecified(remote.addr)
            && remote.port != 0 && udp_tx_accepts(*old(s), data@.len() as usize)),
        r.is_ok() ==> udp_tx(*final(s)) == udp_tx(*old(s)).push((remote, data@)),
        r.is_err() ==> udp_tx(*final(s)) == udp_tx(*old(s)),
        rx_side_kept(*old(s), *final(s)),
{
    let addr = match remote.addr {
        IpAddress::Ipv4(v) => smoltcp::wire::IpAddress::Ipv4(v.into()),
        IpAddress::Ipv6(v) => smoltcp::wire::IpAddress::Ipv6(v.into()),
    };
    s.send_slice(data, smoltcp::wire::IpEndpoint::new(addr, remote.port))
}

/// `Socket::peek_slice`: with no datagram waiting it fails; when the oldest
/// datagram is longer than `buf` it fails and `buf` stays; otherwise the
/// datagram is copied to the front of `buf` and its length and source are
/// returned. The rings stay as they were.
#[verifier::external_body]
pub(crate) fn udp_peek_slice(s: &mut smoltcp::socket::udp::Socket<'static>, buf: &mut [u8]) -> (r:
    Result<(usize, IpEndpoint), smoltcp::socket::udp::RecvError>)
    ensures
        udp_rx(*final(s)) == udp_rx(*old(s)),
        tx_side_kept(*old(s), *final(s)),
        final(buf)@.len() == old(buf)@.len(),
        udp_rx(*old(s)).len() == 0 ==> r.is_err() && final(buf)@ == old(buf)@,
        udp_rx(*old(s)).len() > 0 ==> ({
            let d = udp_rx(*old(s))[0];
            if d.1.len() > old(buf)@.len() {
                r.is_err() && final(buf)@ == old(buf)@
            } else {
                r == Ok::<(usize, IpEndpoint), smoltcp::socket::udp::RecvError>(
                    (d.1.len() as usize, d.0),
                ) && final(buf)@ == d.1 + old(buf)@.subrange(d.1.len() as int, old(buf)@.len() as int)
            }
        }),
{
    match s.peek_slice(buf) {
        Ok((n, meta)) => {
            let addr = match meta.endpoint.addr {
                smoltcp::wire::IpAddress::Ipv4(v) => IpAddress::Ipv4(v.into()),
                smoltcp::wire::IpAddress::Ipv6(v) => IpAddress::Ipv6(v.into()),
            };
            Ok((n, IpEndpoint { addr, port: meta.endpoint.port }))
        },
        Err(e) => Err(e),
    }
}

/// `Socket::recv_slice`: with no datagram waiting it fails and nothing
/// changes; otherwise the oldest datagram leaves the receive ring, and it is
/// copied to the front of `buf` (its length and source returned) when it
/// fits, or dropped with a failure and `buf` untouched when it does not.
#[verifier::external_body]
pub(crate) fn udp_recv_slice(s: &mut smoltcp::socket::udp::Socket<'static>, buf: &mut [u8]) -> (r:
    Result<(usize, IpEndpoint), smoltcp::socket::udp::RecvError>)
    ensures
        tx_side_kept(*old(s), *final(s)),
        final(buf)@.len() == old(buf)@.len(),
        udp_rx(*old(s)).len() == 0 ==> r.is_err() && final(buf)@ == old(buf)@ && udp_rx(
            *final(s),
        ) == udp_rx(*old(s)),
        udp_rx(*old(s)).len() > 0 ==> ({
            let d = udp_rx(*old(s))[0];
            &&& udp_rx(*final(s)) == udp_rx(*old(s)).drop_first()
            &&& if d.1.len() > old(buf)@.len() {
                r.is_err() && final(buf)@ == old(buf)@
            } else {
                r == Ok::<(usize, IpEndpoint), smoltcp::socket::udp::RecvError>(
                    (d.1.len() as usize, d.0),
                ) && final(buf)@ == d.1 + old(buf)@.subrange(d.1.len() as int, old(buf)@.len() as int)
            }
        }),
{
    match s.recv_slice(buf) {
        Ok((n, meta)) => {
            let addr = match meta.endpoint.addr {
                smoltcp::wire::IpAddress::Ipv4(v) => IpAddress::Ipv4(v.into()),
                smoltcp::wire::IpAddress::Ipv6(v) => IpAddress::Ipv6(v.into()),
            };
            Ok((n, IpEndpoint { addr, port: meta.endpoint.port }))
        },
        Err(e) => Err(e),
    }
}

} // verus!
