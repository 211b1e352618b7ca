//! The network stack as this crate sees it: the socket set of `smoltcp`, a
//! mathematical model of what it holds, and the stack's own calls under
//! contracts over that model.
//!
//! Nothing in this module is proved against the stack's code. Each function
//! marked `external_body` states what the stack's source and documentation
//! say of the call it makes; everything above this module is verified
//! against these statements.
//!
//! Three things are said of a socket set: what sockets it holds
//! ([`socket_set_view`]), whether it can always take one more
//! ([`socket_set_grows`]), and what each datagram socket's transmit buffer
//! would take now ([`socket_set_tx_room`]).

use crate::addr::{IpAddress, IpEndpoint, Ipv4Address};
use smoltcp::socket::{RawSocket, SocketHandle, SocketSet, TcpSocket, UdpSocket};
use vstd::prelude::*;

verus! {

/// The stack's set of sockets. Opaque: seen only through [`socket_set_view`].
#[verifier::external_type_specification]
#[verifier::external_body]
pub struct ExSocketSet<'a>(SocketSet<'a>);

/// The stack's token for one socket of a set.
#[verifier::external_type_specification]
#[verifier::external_body]
pub struct ExSocketHandle(SocketHandle);

/// The stack's error type; this crate only tells failure from success.
#[verifier::external_type_specification]
#[verifier::external_body]
pub struct ExStackError(smoltcp::Error);

/// A socket set that owns its storage.
pub type Sockets = SocketSet<'static>;

/// What a call into the stack returns.
pub type StackResult<T> = Result<T, smoltcp::Error>;

/// State of a TCP socket, in terms of the TCP state machine.
#[derive(Clone, Copy, Debug, PartialEq, Eq, Structural)]
pub enum TcpState {
    Closed,
    Listen,
    SynSent,
    SynReceived,
    Established,
    FinWait1,
    FinWait2,
    CloseWait,
    Closing,
    LastAck,
    TimeWait,
}

/// A packet queued in a datagram socket, with the remote endpoint it came
/// from or goes to.
pub struct Datagram {
    pub endpoint: IpEndpoint,
    pub data: Seq<u8>,
}

/// The size of a packet buffer: how many packets it has slots for, and how
/// many octets of payload it holds.
pub struct PacketCapacity {
    pub slots: nat,
    pub octets: nat,
}

/// What the stack holds of a raw socket.
pub struct RawModel {
    /// The IP protocol number the socket is bound to.
    pub protocol: u8,
    /// Packets received and not yet read, oldest first.
    pub rx: Seq<Seq<u8>>,
    /// Packets queued for transmission, oldest first.
    pub tx: Seq<Seq<u8>>,
    /// Size of the receive buffer.
    pub rx_capacity: PacketCapacity,
    /// Size of the transmit buffer.
    pub tx_capacity: PacketCapacity,
}

/// What the stack holds of a UDP socket.
pub struct UdpModel {
    /// The endpoint the socket is bound to; port 0 while unbound.
    pub endpoint: IpEndpoint,
    /// Datagrams received and not yet read, oldest first.
    pub rx: Seq<Datagram>,
    /// Datagrams queued for transmission, oldest first.
    pub tx: Seq<Datagram>,
    /// Size of the receive buffer.
    pub rx_capacity: PacketCapacity,
    /// Size of the transmit buffer.
    pub tx_capacity: PacketCapacity,
}

/// What the stack holds of a TCP socket.
pub struct TcpModel {
    pub state: TcpState,
    pub local: IpEndpoint,
    pub remote: IpEndpoint,
    /// Octets received and not yet read.
    pub rx: Seq<u8>,
    /// Octets queued for transmission.
    pub tx: Seq<u8>,
    /// Size of the receive buffer in octets.
    pub rx_capacity: nat,
    /// Size of the transmit buffer in octets.
    pub tx_capacity: nat,
}

/// What the stack holds of one socket.
pub enum SocketModel {
    Raw(RawModel),
    Udp(UdpModel),
    Tcp(TcpModel),
}

/// One slot of the socket set: the socket and its reference count.
pub struct SocketEntry {
    pub socket: SocketModel,
    pub refs: nat,
}

/// Sockets by handle, with their reference counts.
pub type SocketMap = Map<SocketHandle, SocketEntry>;

/// The sockets that a set holds, by handle.
pub uninterp spec fn socket_set_view(sockets: Sockets) -> SocketMap;

/// Whether a set grows on demand: it owns its storage, so that a socket can
/// always be added. A set over borrowed storage is full at some point.
pub uninterp spec fn socket_set_grows(sockets: Sockets) -> bool;

/// For each datagram socket of a set, by handle, the payload lengths that its
/// transmit buffer would take now. What a buffer takes depends on how its
/// packets lie in it, which the model of a socket does not hold. TCP sockets
/// have no entry.
pub uninterp spec fn socket_set_tx_room(sockets: Sockets) -> Map<SocketHandle, Set<nat>>;

/// The payload lengths that an empty packet buffer takes: every length up to
/// its size, if it has a slot at all.
pub open spec fn empty_room(capacity: PacketCapacity) -> Set<nat> {
    Set::new(|len: nat| capacity.slots > 0 && len <= capacity.octets)
}

/// The size of a packet buffer with `slots` slots and `octets` octets.
pub open spec fn packet_capacity(slots: usize, octets: usize) -> PacketCapacity {
    PacketCapacity { slots: slots as nat, octets: octets as nat }
}

impl TcpState {
    /// Whether the socket processes packets: every state but `Closed` and
    /// `TimeWait`.
    pub open spec fn spec_is_open(&self) -> bool {
        !(self is Closed || self is TimeWait)
    }

    /// Whether a connection is active: open and not merely listening.
    pub open spec fn spec_is_active(&self) -> bool {
        !(self is Closed || self is TimeWait || self is Listen)
    }

    /// Whether the transmit half of the connection is open.
    pub open spec fn may_send(&self) -> bool {
        self is Established || self is CloseWait
    }

    /// Whether the receive half of the connection is open, whatever the
    /// receive buffer holds.
    pub open spec fn may_recv(&self) -> bool {
        self is Established || self is FinWait1 || self is FinWait2
    }

    /// The state after the transmit half was closed.
    pub open spec fn after_close(&self) -> TcpState {
        match self {
            TcpState::Listen | TcpState::SynSent => TcpState::Closed,
            TcpState::SynReceived | TcpState::Established => TcpState::FinWait1,
            TcpState::CloseWait => TcpState::LastAck,
            s => *s,
        }
    }

    /// Whether the socket processes packets: every state but `Closed` and
    /// `TimeWait`.
    #[verifier::when_used_as_spec(spec_is_open)]
    pub fn is_open(&self) -> (r: bool)
        ensures
            r == self.spec_is_open(),
    {
        match self {
            TcpState::Closed => false,
            TcpState::TimeWait => false,
            _ => true,
        }
    }

    /// Whether a connection is active: open and not merely listening.
    #[verifier::when_used_as_spec(spec_is_active)]
    pub fn is_active(&self) -> (r: bool)
        ensures
            r == self.spec_is_active(),
    {
        match self {
            TcpState::Closed => false,
            TcpState::TimeWait => false,
            TcpState::Listen => false,
            _ => true,
        }
    }
}

impl TcpModel {
    /// A socket as the stack creates it: closed, unbound, with empty buffers.
    pub open spec fn fresh(rx_capacity: nat, tx_capacity: nat) -> TcpModel {
        TcpModel {
            state: TcpState::Closed,
            local: IpEndpoint::unassigned(),
            remote: IpEndpoint::unassigned(),
            rx: Seq::empty(),
            tx: Seq::empty(),
            rx_capacity,
            tx_capacity,
        }
    }

    /// Whether the receive half is open or unread octets are left.
    pub open spec fn may_recv(self) -> bool {
        self.state.may_recv() || self.rx.len() > 0
    }

    /// Whether at least one more octet can be queued for transmission.
    pub open spec fn can_send(self) -> bool {
        self.state.may_send() && self.tx.len() < self.tx_capacity
    }

    /// Whether at least one octet can be read.
    pub open spec fn can_recv(self) -> bool {
        self.rx.len() > 0
    }

    /// Whether the stack accepts a request to listen on `endpoint`: the port
    /// is not zero and the socket is not open.
    pub open spec fn accepts_listen(self, endpoint: IpEndpoint) -> bool {
        endpoint.port != 0 && !self.state.spec_is_open()
    }

    /// Whether the stack accepts an active open to `remote` from
    /// `local_port`: the socket is not open, the remote endpoint is fully
    /// specified and the local port is not zero.
    pub open spec fn accepts_connect(self, remote: IpEndpoint, local_port: u16) -> bool {
        !self.state.spec_is_open() && remote.spec_is_specified() && local_port != 0
    }

    /// The socket after the stack accepted a request to listen on `endpoint`.
    pub open spec fn listening(self, endpoint: IpEndpoint) -> TcpModel {
        TcpModel {
            state: TcpState::Listen,
            local: endpoint,
            ..TcpModel::fresh(self.rx_capacity, self.tx_capacity)
        }
    }

    /// The socket after the stack accepted an active open to `remote`.
    pub open spec fn connecting(self, remote: IpEndpoint, local_port: u16) -> TcpModel {
        TcpModel {
            state: TcpState::SynSent,
            local: IpEndpoint {
                addr: IpAddress::Ipv4(Ipv4Address([0u8, 0u8, 0u8, 0u8])),
                port: local_port,
            },
            remote,
            ..TcpModel::fresh(self.rx_capacity, self.tx_capacity)
        }
    }

    /// The socket after its transmit half was closed.
    pub open spec fn closing(self) -> TcpModel {
        TcpModel { state: self.state.after_close(), ..self }
    }

    /// How many of `len` offered octets the transmit buffer has room for.
    pub open spec fn send_room(self, len: nat) -> int {
        min_of(len as int, self.tx_capacity - self.tx.len())
    }

    /// The socket after `data` was offered for transmission.
    pub open spec fn sent(self, data: Seq<u8>) -> TcpModel {
        TcpModel { tx: self.tx + data.subrange(0, self.send_room(data.len())), ..self }
    }

    /// The socket after a read into a buffer of `len` octets.
    pub open spec fn received(self, len: nat) -> TcpModel {
        TcpModel {
            rx: self.rx.subrange(min_of(len as int, self.rx.len() as int), self.rx.len() as int),
            ..self
        }
    }
}

impl RawModel {
    /// A socket as the stack creates it: with empty buffers of the given
    /// size.
    pub open spec fn fresh(protocol: u8, capacity: PacketCapacity) -> RawModel {
        RawModel {
            protocol,
            rx: Seq::empty(),
            tx: Seq::empty(),
            rx_capacity: capacity,
            tx_capacity: capacity,
        }
    }

    /// The socket after a packet was queued for transmission.
    pub open spec fn sent(self, data: Seq<u8>) -> RawModel {
        RawModel { tx: self.tx.push(data), ..self }
    }

    /// The socket after its oldest received packet was taken.
    pub open spec fn received(self) -> RawModel {
        RawModel { rx: self.rx.subrange(1, self.rx.len() as int), ..self }
    }
}

impl UdpModel {
    /// A socket as the stack creates it: unbound, with empty buffers of the
    /// given size.
    pub open spec fn fresh(capacity: PacketCapacity) -> UdpModel {
        UdpModel {
            endpoint: IpEndpoint::unassigned(),
            rx: Seq::empty(),
            tx: Seq::empty(),
            rx_capacity: capacity,
            tx_capacity: capacity,
        }
    }

    /// Whether the stack accepts a request to bind to `endpoint`: the port is
    /// not zero and the socket is not bound yet.
    pub open spec fn accepts_bind(self, endpoint: IpEndpoint) -> bool {
        endpoint.port != 0 && self.endpoint.port == 0
    }

    /// Whether the stack can address a datagram from this socket to
    /// `endpoint`: the socket is bound and `endpoint` is fully specified.
    pub open spec fn may_send_to(self, endpoint: IpEndpoint) -> bool {
        self.endpoint.port != 0 && endpoint.spec_is_specified()
    }

    /// The socket after it was bound.
    pub open spec fn bound(self, endpoint: IpEndpoint) -> UdpModel {
        UdpModel { endpoint, ..self }
    }

    /// The socket after a datagram was queued for transmission.
    pub open spec fn sent(self, endpoint: IpEndpoint, data: Seq<u8>) -> UdpModel {
        UdpModel { tx: self.tx.push(Datagram { endpoint, data }), ..self }
    }

    /// The socket after its oldest received datagram was taken.
    pub open spec fn received(self) -> UdpModel {
        UdpModel { rx: self.rx.subrange(1, self.rx.len() as int), ..self }
    }
}

/// Whether `handle` names a socket of `sockets`.
pub open spec fn has_socket(sockets: SocketMap, handle: SocketHandle) -> bool {
    sockets.contains_key(handle)
}

/// Whether `handle` names a TCP socket of `sockets`.
pub open spec fn has_tcp(sockets: SocketMap, handle: SocketHandle) -> bool {
    sockets.contains_key(handle) && sockets[handle].socket is Tcp
}

/// Whether `handle` names a UDP socket of `sockets`.
pub open spec fn has_udp(sockets: SocketMap, handle: SocketHandle) -> bool {
    sockets.contains_key(handle) && sockets[handle].socket is Udp
}

/// Whether `handle` names a raw socket of `sockets`.
pub open spec fn has_raw(sockets: SocketMap, handle: SocketHandle) -> bool {
    sockets.contains_key(handle) && sockets[handle].socket is Raw
}

/// The TCP socket that `handle` names.
pub open spec fn tcp_model(sockets: SocketMap, handle: SocketHandle) -> TcpModel {
    sockets[handle].socket->Tcp_0
}

/// The UDP socket that `handle` names.
pub open spec fn udp_model(sockets: SocketMap, handle: SocketHandle) -> UdpModel {
    sockets[handle].socket->Udp_0
}

/// The raw socket that `handle` names.
pub open spec fn raw_model(sockets: SocketMap, handle: SocketHandle) -> RawModel {
    sockets[handle].socket->Raw_0
}

/// `sockets` with one more socket, which has one reference.
pub open spec fn with_new(sockets: SocketMap, handle: SocketHandle, socket: SocketModel) -> SocketMap {
    sockets.insert(handle, SocketEntry { socket, refs: 1 })
}

/// `sockets` with the socket under `handle` replaced and its reference count
/// kept.
pub open spec fn with_socket(sockets: SocketMap, handle: SocketHandle, socket: SocketModel) -> SocketMap {
    sockets.insert(handle, SocketEntry { socket, refs: sockets[handle].refs })
}

/// `sockets` with the socket under `handle` replaced by the TCP socket `tcp`.
pub open spec fn with_tcp(sockets: SocketMap, handle: SocketHandle, tcp: TcpModel) -> SocketMap {
    with_socket(sockets, handle, SocketModel::Tcp(tcp))
}

/// `sockets` with the socket under `handle` replaced by the UDP socket `udp`.
pub open spec fn with_udp(sockets: SocketMap, handle: SocketHandle, udp: UdpModel) -> SocketMap {
    with_socket(sockets, handle, SocketModel::Udp(udp))
}

/// `sockets` with the socket under `handle` replaced by the raw socket `raw`.
pub open spec fn with_raw(sockets: SocketMap, handle: SocketHandle, raw: RawModel) -> SocketMap {
    with_socket(sockets, handle, SocketModel::Raw(raw))
}

/// `sockets` with one reference added to the socket under `handle`.
pub open spec fn retained(sockets: SocketMap, handle: SocketHandle) -> SocketMap {
    sockets.insert(
        handle,
        SocketEntry { socket: sockets[handle].socket, refs: sockets[handle].refs + 1 },
    )
}

/// `sockets` with one reference taken from the socket under `handle`.
pub open spec fn released(sockets: SocketMap, handle: SocketHandle) -> SocketMap {
    sockets.insert(
        handle,
        SocketEntry {
            socket: sockets[handle].socket,
            refs: (sockets[handle].refs - 1) as nat,
        },
    )
}

/// Whether pruning removes this entry: nothing refers to it, and if it is a
/// TCP socket it is closed.
pub open spec fn is_prunable(entry: SocketEntry) -> bool {
    entry.refs == 0 && (entry.socket matches SocketModel::Tcp(t) ==> t.state is Closed)
}

/// An entry that pruning leaves in the set: an unreferenced TCP socket has
/// its transmit half closed, any other entry is unchanged.
pub open spec fn pruned_entry(entry: SocketEntry) -> SocketEntry {
    match entry.socket {
        SocketModel::Tcp(t) if entry.refs == 0 => SocketEntry {
            socket: SocketModel::Tcp(TcpModel { state: t.state.after_close(), ..t }),
            refs: entry.refs,
        },
        _ => entry,
    }
}

/// What pruning leaves of a set.
pub open spec fn pruned(m: SocketMap) -> SocketMap {
    Map::new(
        |h: SocketHandle| m.contains_key(h) && !is_prunable(m[h]),
        |h: SocketHandle| pruned_entry(m[h]),
    )
}

/// The smaller of two numbers.
pub open spec fn min_of(a: int, b: int) -> int {
    if a <= b {
        a
    } else {
        b
    }
}

/// What a read of up to `buf.len()` octets from the front of `queue` leaves in
/// `buf`: the octets read, then the rest of the buffer as it was.
pub open spec fn filled_from(buf: Seq<u8>, queue: Seq<u8>) -> Seq<u8> {
    let n = min_of(buf.len() as int, queue.len() as int);
    queue.subrange(0, n) + buf.subrange(n, buf.len() as int)
}

/// Whether the stack queues a datagram of `len` octets from the UDP socket
/// under `handle` to `endpoint`: the socket is bound, `endpoint` is fully
/// specified, and the transmit buffer takes the length now.
pub open spec fn udp_takes(sockets: Sockets, handle: SocketHandle, endpoint: IpEndpoint, len: nat) -> bool {
    &&& udp_model(socket_set_view(sockets), handle).may_send_to(endpoint)
    &&& socket_set_tx_room(sockets)[handle].contains(len)
}

/// Whether the stack queues a packet of `len` octets on the raw socket under
/// `handle`: the transmit buffer takes the length now.
pub open spec fn raw_takes(sockets: Sockets, handle: SocketHandle, len: nat) -> bool {
    socket_set_tx_room(sockets)[handle].contains(len)
}

/// Creates an empty socket set that grows on demand.
///
/// Wraps `SocketSet::new` on an empty `Vec`: the set holds no socket and owns
/// its storage.
#[verifier::external_body]
pub(crate) fn socket_set_new() -> (sockets: Sockets)
    ensures
        socket_set_view(sockets) =~= Map::empty(),
        socket_set_grows(sockets),
        socket_set_tx_room(sockets) =~= Map::empty(),
{
    SocketSet::new(Vec::new())
}

/// Adds a new TCP socket with receive and transmit buffers of the given
/// sizes.
///
/// Wraps `SocketSet::add` on `TcpSocket::new`: the socket takes a slot that
/// was free, starts closed and unbound with empty buffers, and has one
/// reference. `TcpSocket::new` panics on a receive buffer over 1 GiB, and
/// `SocketSet::add` on a set over borrowed storage that is full.
#[verifier::external_body]
pub(crate) fn socket_set_add_tcp(sockets: &mut Sockets, rx_size: usize, tx_size: usize) -> (handle: SocketHandle)
    requires
        socket_set_grows(*old(sockets)),
        rx_size <= 0x4000_0000,
    ensures
        socket_set_grows(*final(sockets)),
        !has_socket(socket_set_view(*old(sockets)), handle),
        socket_set_view(*final(sockets)) == with_new(
            socket_set_view(*old(sockets)),
            handle,
            SocketModel::Tcp(TcpModel::fresh(rx_size as nat, tx_size as nat)),
        ),
        socket_set_tx_room(*final(sockets)) == socket_set_tx_room(*old(sockets)),
{
    let rx = smoltcp::socket::TcpSocketBuffer::new(vec![0u8; rx_size]);
    let tx = smoltcp::socket::TcpSocketBuffer::new(vec![0u8; tx_size]);
    sockets.add(TcpSocket::new(rx, tx))
}

/// Adds a new UDP socket whose receive and transmit buffers each hold up to
/// `packets` datagrams and `size` octets.
///
/// Wraps `SocketSet::add` on `UdpSocket::new`: the socket takes a slot that
/// was free, starts unbound with empty buffers, and has one reference. An
/// empty packet buffer takes every payload up to its size, if it has a slot.
/// `SocketSet::add` panics on a set over borrowed storage that is full.
#[verifier::external_body]
pub(crate) fn socket_set_add_udp(sockets: &mut Sockets, packets: usize, size: usize) -> (handle: SocketHandle)
    requires
        socket_set_grows(*old(sockets)),
    ensures
        socket_set_grows(*final(sockets)),
        !has_socket(socket_set_view(*old(sockets)), handle),
        socket_set_view(*final(sockets)) == with_new(
            socket_set_view(*old(sockets)),
            handle,
            SocketModel::Udp(UdpModel::fresh(packet_capacity(packets, size))),
        ),
        socket_set_tx_room(*final(sockets)) == socket_set_tx_room(*old(sockets)).insert(handle, empty_room(packet_capacity(packets, size))),
{
    let meta = smoltcp::socket::UdpPacketMetadata::EMPTY;
    let rx = smoltcp::socket::UdpSocketBuffer::new(vec![meta; packets], vec![0u8; size]);
    let tx = smoltcp::socket::UdpSocketBuffer::new(vec![meta; packets], vec![0u8; size]);
    sockets.add(UdpSocket::new(rx, tx))
}

/// Adds a new raw IPv4 socket bound to `protocol`, whose receive and transmit
/// buffers each hold up to `packets` packets and `size` octets.
///
/// Wraps `SocketSet::add` on `RawSocket::new`: the socket takes a slot that
/// was free, has empty buffers and one reference. An empty packet buffer
/// takes every payload up to its size, if it has a slot. `SocketSet::add`
/// panics on a set over borrowed storage that is full.
#[verifier::external_body]
pub(crate) fn socket_set_add_raw(sockets: &mut Sockets, protocol: u8, packets: usize, size: usize) -> (handle: SocketHandle)
    requires
        socket_set_grows(*old(sockets)),
    ensures
        socket_set_grows(*final(sockets)),
        !has_socket(socket_set_view(*old(sockets)), handle),
        socket_set_view(*final(sockets)) == with_new(
            socket_set_view(*old(sockets)),
            handle,
            SocketModel::Raw(RawModel::fresh(protocol, packet_capacity(packets, size))),
        ),
        socket_set_tx_room(*final(sockets)) == socket_set_tx_room(*old(sockets)).insert(handle, empty_room(packet_capacity(packets, size))),
{
    let meta = smoltcp::socket::RawPacketMetadata::EMPTY;
    let rx = smoltcp::socket::RawSocketBuffer::new(vec![meta; packets], vec![0u8; size]);
    let tx = smoltcp::socket::RawSocketBuffer::new(vec![meta; packets], vec![0u8; size]);
    let version = smoltcp::wire::IpVersion::Ipv4;
    sockets.add(RawSocket::new(version, smoltcp::wire::IpProtocol::from(protocol), rx, tx))
}

/// Adds one reference to a socket.
///
/// Wraps `SocketSet::retain`, which panics on a handle that is not in the set.
#[verifier::external_body]
pub(crate) fn socket_set_retain(sockets: &mut Sockets, handle: SocketHandle)
    requires
        has_socket(socket_set_view(*old(sockets)), handle),
        socket_set_view(*old(sockets))[handle].refs < usize::MAX,
    ensures
        socket_set_grows(*final(sockets)) == socket_set_grows(*old(sockets)),
        socket_set_tx_room(*final(sockets)) == socket_set_tx_room(*old(sockets)),
        socket_set_view(*final(sockets)) == retained(socket_set_view(*old(sockets)), handle),
{
    sockets.retain(handle)
}

/// Takes one reference from a socket.
///
/// Wraps `SocketSet::release`, which panics on a handle that is not in the
/// set and on a reference count that is already zero.
#[verifier::external_body]
pub(crate) fn socket_set_release(sockets: &mut Sockets, handle: SocketHandle)
    requires
        has_socket(socket_set_view(*old(sockets)), handle),
        socket_set_view(*old(sockets))[handle].refs > 0,
    ensures
        socket_set_grows(*final(sockets)) == socket_set_grows(*old(sockets)),
        socket_set_tx_room(*final(sockets)) == socket_set_tx_room(*old(sockets)),
        socket_set_view(*final(sockets)) == released(socket_set_view(*old(sockets)), handle),
{
    sockets.release(handle)
}

/// Prunes the set.
///
/// Wraps `SocketSet::prune`: of the sockets that nothing refers to, raw and
/// UDP sockets and closed TCP sockets are removed, and any other TCP socket
/// has its transmit half closed and stays. Referenced sockets are untouched.
#[verifier::external_body]
pub(crate) fn socket_set_prune(sockets: &mut Sockets)
    ensures
        socket_set_grows(*final(sockets)) == socket_set_grows(*old(sockets)),
        socket_set_tx_room(*final(sockets)) == socket_set_tx_room(*old(sockets)).restrict(socket_set_view(*final(sockets)).dom()),
        socket_set_view(*final(sockets)) == pruned(socket_set_view(*old(sockets))),
{
    sockets.prune()
}

/// The state of a TCP socket.
///
/// Wraps `TcpSocket::state` behind `SocketSet::get`, which panics unless the
/// handle names a TCP socket of the set. Nothing is changed.
#[verifier::external_body]
pub(crate) fn tcp_state(sockets: &mut Sockets, handle: SocketHandle) -> (state: TcpState)
    requires
        has_tcp(socket_set_view(*old(sockets)), handle),
    ensures
        socket_set_grows(*final(sockets)) == socket_set_grows(*old(sockets)),
        socket_set_tx_room(*final(sockets)) == socket_set_tx_room(*old(sockets)),
        state == tcp_model(socket_set_view(*old(sockets)), handle).state,
        socket_set_view(*final(sockets)) == socket_set_view(*old(sockets)),
{
    match sockets.get::<TcpSocket>(handle).state() {
        smoltcp::socket::TcpState::Closed => TcpState::Closed,
        smoltcp::socket::TcpState::Listen => TcpState::Listen,
        smoltcp::socket::TcpState::SynSent => TcpState::SynSent,
        smoltcp::socket::TcpState::SynReceived => TcpState::SynReceived,
        smoltcp::socket::TcpState::Established => TcpState::Established,
        smoltcp::socket::TcpState::FinWait1 => TcpState::FinWait1,
        smoltcp::socket::TcpState::FinWait2 => TcpState::FinWait2,
        smoltcp::socket::TcpState::CloseWait => TcpState::CloseWait,
        smoltcp::socket::TcpState::Closing => TcpState::Closing,
        smoltcp::socket::TcpState::LastAck => TcpState::LastAck,
        smoltcp::socket::TcpState::TimeWait => TcpState::TimeWait,
    }
}

/// Whether a TCP socket can take octets for transmission: its transmit half
/// is open and its transmit buffer is not full.
///
/// Wraps `TcpSocket::can_send` behind `SocketSet::get`. Nothing is changed.
#[verifier::external_body]
pub(crate) fn tcp_can_send(sockets: &mut Sockets, handle: SocketHandle) -> (can: bool)
    requires
        has_tcp(socket_set_view(*old(sockets)), handle),
    ensures
        socket_set_grows(*final(sockets)) == socket_set_grows(*old(sockets)),
        socket_set_tx_room(*final(sockets)) == socket_set_tx_room(*old(sockets)),
        can == tcp_model(socket_set_view(*old(sockets)), handle).can_send(),
        socket_set_view(*final(sockets)) == socket_set_view(*old(sockets)),
{
    sockets.get::<TcpSocket>(handle).can_send()
}

/// Whether a TCP socket has received octets to hand out.
///
/// Wraps `TcpSocket::can_recv` behind `SocketSet::get`. Nothing is changed.
#[verifier::external_body]
pub(crate) fn tcp_can_recv(sockets: &mut Sockets, handle: SocketHandle) -> (can: bool)
    requires
        has_tcp(socket_set_view(*old(sockets)), handle),
    ensures
        socket_set_grows(*final(sockets)) == socket_set_grows(*old(sockets)),
        socket_set_tx_room(*final(sockets)) == socket_set_tx_room(*old(sockets)),
        can == tcp_model(socket_set_view(*old(sockets)), handle).can_recv(),
        socket_set_view(*final(sockets)) == socket_set_view(*old(sockets)),
{
    sockets.get::<TcpSocket>(handle).can_recv()
}

/// The remote endpoint of a TCP socket; an address that is not IPv4 is given
/// as unspecified.
///
/// Wraps `TcpSocket::remote_endpoint` behind `SocketSet::get`. Nothing is
/// changed.
#[verifier::external_body]
pub(crate) fn tcp_remote_endpoint(sockets: &mut Sockets, handle: SocketHandle) -> (endpoint: IpEndpoint)
    requires
        has_tcp(socket_set_view(*old(sockets)), handle),
    ensures
        socket_set_grows(*final(sockets)) == socket_set_grows(*old(sockets)),
        socket_set_tx_room(*final(sockets)) == socket_set_tx_room(*old(sockets)),
        endpoint == tcp_model(socket_set_view(*old(sockets)), handle).remote,
        socket_set_view(*final(sockets)) == socket_set_view(*old(sockets)),
{
    let ep = sockets.get::<TcpSocket>(handle).remote_endpoint();
    let addr = match ep.addr {
        smoltcp::wire::IpAddress::Ipv4(a) => IpAddress::Ipv4(Ipv4Address(a.0)),
        _ => IpAddress::Unspecified,
    };
    IpEndpoint { addr, port: ep.port }
}

/// Starts listening on `endpoint`.
///
/// Wraps `TcpSocket::listen` behind `SocketSet::get`. The stack refuses a zero
/// port and a socket that is open; otherwise it resets the socket, binds it
/// to `endpoint` and moves it to `Listen`.
#[verifier::external_body]
pub(crate) fn tcp_listen(sockets: &mut Sockets, handle: SocketHandle, endpoint: IpEndpoint) -> (r: StackResult<()>)
    requires
        has_tcp(socket_set_view(*old(sockets)), handle),
    ensures
        socket_set_grows(*final(sockets)) == socket_set_grows(*old(sockets)),
        socket_set_tx_room(*final(sockets)) == socket_set_tx_room(*old(sockets)),
        r is Ok <==> tcp_model(socket_set_view(*old(sockets)), handle).accepts_listen(endpoint),
        r is Ok ==> socket_set_view(*final(sockets)) == with_tcp(
            socket_set_view(*old(sockets)),
            handle,
            tcp_model(socket_set_view(*old(sockets)), handle).listening(endpoint),
        ),
        r is Err ==> socket_set_view(*final(sockets)) == socket_set_view(*old(sockets)),
{
    let addr = match endpoint.addr {
        IpAddress::Ipv4(a) => smoltcp::wire::IpAddress::Ipv4(smoltcp::wire::Ipv4Address(a.0)),
        IpAddress::Unspecified => smoltcp::wire::IpAddress::Unspecified,
    };
    sockets.get::<TcpSocket>(handle).listen((addr, endpoint.port))
}

/// Starts an active open to `remote` from the local port `local_port`.
///
/// Wraps `TcpSocket::connect` behind `SocketSet::get`. The stack refuses a
/// socket that is open, a remote endpoint that is not fully specified and a
/// zero local port; otherwise it resets the socket, records both endpoints
/// (the local address as the unspecified address of the remote's family) and
/// moves it to `SynSent`.
#[verifier::external_body]
pub(crate) fn tcp_connect(sockets: &mut Sockets, handle: SocketHandle, remote: IpEndpoint, local_port: u16) -> (r: StackResult<()>)
    requires
        has_tcp(socket_set_view(*old(sockets)), handle),
    ensures
        socket_set_grows(*final(sockets)) == socket_set_grows(*old(sockets)),
        socket_set_tx_room(*final(sockets)) == socket_set_tx_room(*old(sockets)),
        r is Ok <==> tcp_model(socket_set_view(*old(sockets)), handle).accepts_connect(remote, local_port),
        r is Ok ==> socket_set_view(*final(sockets)) == with_tcp(
            socket_set_view(*old(sockets)),
            handle,
            tcp_model(socket_set_view(*old(sockets)), handle).connecting(remote, local_port),
        ),
        r is Err ==> socket_set_view(*final(sockets)) == socket_set_view(*old(sockets)),
{
    let addr = match remote.addr {
        IpAddress::Ipv4(a) => smoltcp::wire::IpAddress::Ipv4(smoltcp::wire::Ipv4Address(a.0)),
        IpAddress::Unspecified => smoltcp::wire::IpAddress::Unspecified,
    };
    sockets.get::<TcpSocket>(handle).connect((addr, remote.port), local_port)
}

/// Closes the transmit half of a TCP socket.
///
/// Wraps `TcpSocket::close` behind `SocketSet::get`: only the state changes,
/// as [`TcpState::after_close`] says.
#[verifier::external_body]
pub(crate) fn tcp_close(sockets: &mut Sockets, handle: SocketHandle)
    requires
        has_tcp(socket_set_view(*old(sockets)), handle),
    ensures
        socket_set_grows(*final(sockets)) == socket_set_grows(*old(sockets)),
        socket_set_tx_room(*final(sockets)) == socket_set_tx_room(*old(sockets)),
        socket_set_view(*final(sockets)) == with_tcp(
            socket_set_view(*old(sockets)),
            handle,
            tcp_model(socket_set_view(*old(sockets)), handle).closing(),
        ),
{
    sockets.get::<TcpSocket>(handle).close()
}

/// Queues octets of `data` for transmission and returns how many were taken.
///
/// Wraps `TcpSocket::send_slice` behind `SocketSet::get`. The stack fails
/// unless the transmit half is open; otherwise it takes as many octets from
/// the front of `data` as the transmit buffer has room for.
#[verifier::external_body]
pub(crate) fn tcp_send_slice(sockets: &mut Sockets, handle: SocketHandle, data: &[u8]) -> (r: StackResult<usize>)
    requires
        has_tcp(socket_set_view(*old(sockets)), handle),
    ensures
        socket_set_grows(*final(sockets)) == socket_set_grows(*old(sockets)),
        socket_set_tx_room(*final(sockets)) == socket_set_tx_room(*old(sockets)),
        r is Ok <==> tcp_model(socket_set_view(*old(sockets)), handle).state.may_send(),
        r is Ok ==> r->Ok_0 == tcp_model(socket_set_view(*old(sockets)), handle).send_room(data@.len()),
        r is Ok ==> socket_set_view(*final(sockets)) == with_tcp(
            socket_set_view(*old(sockets)),
            handle,
            tcp_model(socket_set_view(*old(sockets)), handle).sent(data@),
        ),
        r is Err ==> socket_set_view(*final(sockets)) == socket_set_view(*old(sockets)),
{
    sockets.get::<TcpSocket>(handle).send_slice(data)
}

/// Moves received octets into the front of `data` and returns how many.
///
/// Wraps `TcpSocket::recv_slice` behind `SocketSet::get`. The stack fails
/// unless the receive half is open or unread octets are left; otherwise it
/// hands out as many of the oldest unread octets as `data` has room for, which
/// may be none.
#[verifier::external_body]
pub(crate) fn tcp_recv_slice(sockets: &mut Sockets, handle: SocketHandle, data: &mut [u8]) -> (r: StackResult<usize>)
    requires
        has_tcp(socket_set_view(*old(sockets)), handle),
    ensures
        socket_set_grows(*final(sockets)) == socket_set_grows(*old(sockets)),
        socket_set_tx_room(*final(sockets)) == socket_set_tx_room(*old(sockets)),
        r is Ok <==> tcp_model(socket_set_view(*old(sockets)), handle).may_recv(),
        r is Ok ==> r->Ok_0 == min_of(
            old(data)@.len() as int,
            tcp_model(socket_set_view(*old(sockets)), handle).rx.len() as int,
        ),
        r is Ok ==> final(data)@ == filled_from(
            old(data)@,
            tcp_model(socket_set_view(*old(sockets)), handle).rx,
        ),
        r is Ok ==> socket_set_view(*final(sockets)) == with_tcp(
            socket_set_view(*old(sockets)),
            handle,
            tcp_model(socket_set_view(*old(sockets)), handle).received(old(data)@.len()),
        ),
        r is Err ==> final(data)@ == old(data)@,
        r is Err ==> socket_set_view(*final(sockets)) == socket_set_view(*old(sockets)),
{
    sockets.get::<TcpSocket>(handle).recv_slice(data)
}

/// The endpoint a UDP socket is bound to; an address that is not IPv4 is
/// given as unspecified.
///
/// Wraps `UdpSocket::endpoint` behind `SocketSet::get`, which panics unless
/// the handle names a UDP socket of the set. Nothing is changed, no buffer
/// touched.
#[verifier::external_body]
pub(crate) fn udp_endpoint(sockets: &mut Sockets, handle: SocketHandle) -> (endpoint: IpEndpoint)
    requires
        has_udp(socket_set_view(*old(sockets)), handle),
    ensures
        socket_set_grows(*final(sockets)) == socket_set_grows(*old(sockets)),
        socket_set_tx_room(*final(sockets)) == socket_set_tx_room(*old(sockets)),
        endpoint == udp_model(socket_set_view(*old(sockets)), handle).endpoint,
        socket_set_view(*final(sockets)) == socket_set_view(*old(sockets)),
{
    let ep = sockets.get::<UdpSocket>(handle).endpoint();
    let addr = match ep.addr {
        smoltcp::wire::IpAddress::Ipv4(a) => IpAddress::Ipv4(Ipv4Address(a.0)),
        _ => IpAddress::Unspecified,
    };
    IpEndpoint { addr, port: ep.port }
}

/// Binds a UDP socket to `endpoint`.
///
/// Wraps `UdpSocket::bind` behind `SocketSet::get`. The stack refuses a zero
/// port and a socket that is bound already. No buffer is touched.
#[verifier::external_body]
pub(crate) fn udp_bind(sockets: &mut Sockets, handle: SocketHandle, endpoint: IpEndpoint) -> (r: StackResult<()>)
    requires
        has_udp(socket_set_view(*old(sockets)), handle),
    ensures
        socket_set_grows(*final(sockets)) == socket_set_grows(*old(sockets)),
        socket_set_tx_room(*final(sockets)) == socket_set_tx_room(*old(sockets)),
        r is Ok <==> udp_model(socket_set_view(*old(sockets)), handle).accepts_bind(endpoint),
        r is Ok ==> socket_set_view(*final(sockets)) == with_udp(
            socket_set_view(*old(sockets)),
            handle,
            udp_model(socket_set_view(*old(sockets)), handle).bound(endpoint),
        ),
        r is Err ==> socket_set_view(*final(sockets)) == socket_set_view(*old(sockets)),
{
    let addr = match endpoint.addr {
        IpAddress::Ipv4(a) => smoltcp::wire::IpAddress::Ipv4(smoltcp::wire::Ipv4Address(a.0)),
        IpAddress::Unspecified => smoltcp::wire::IpAddress::Unspecified,
    };
    sockets.get::<UdpSocket>(handle).bind((addr, endpoint.port))
}

/// Queues one datagram holding `data` for transmission to `endpoint`.
///
/// Wraps `UdpSocket::send_slice` behind `SocketSet::get`. The stack refuses an
/// unbound socket, a destination that is not fully specified, and a payload
/// that the transmit buffer does not take now.
#[verifier::external_body]
pub(crate) fn udp_send_slice(sockets: &mut Sockets, handle: SocketHandle, data: &[u8], endpoint: IpEndpoint) -> (r: StackResult<()>)
    requires
        has_udp(socket_set_view(*old(sockets)), handle),
    ensures
        socket_set_grows(*final(sockets)) == socket_set_grows(*old(sockets)),
        socket_set_tx_room(*final(sockets)).remove(handle) == socket_set_tx_room(*old(sockets)).remove(handle),
        r is Ok <==> udp_takes(*old(sockets), handle, endpoint, data@.len()),
        r is Ok ==> socket_set_view(*final(sockets)) == with_udp(
            socket_set_view(*old(sockets)),
            handle,
            udp_model(socket_set_view(*old(sockets)), handle).sent(endpoint, data@),
        ),
        r is Err ==> socket_set_view(*final(sockets)) == socket_set_view(*old(sockets)),
{
    let addr = match endpoint.addr {
        IpAddress::Ipv4(a) => smoltcp::wire::IpAddress::Ipv4(smoltcp::wire::Ipv4Address(a.0)),
        IpAddress::Unspecified => smoltcp::wire::IpAddress::Unspecified,
    };
    let to = smoltcp::wire::IpEndpoint::new(addr, endpoint.port);
    sockets.get::<UdpSocket>(handle).send_slice(data, to)
}

/// Takes the oldest received datagram, copies its front into `data` and
/// returns how many octets were copied and where the datagram came from.
///
/// Wraps `UdpSocket::recv_slice` behind `SocketSet::get`. The stack fails
/// exactly when no datagram is waiting; what does not fit into `data` is
/// dropped with the datagram.
#[verifier::external_body]
pub(crate) fn udp_recv_slice(sockets: &mut Sockets, handle: SocketHandle, data: &mut [u8]) -> (r: StackResult<(usize, IpEndpoint)>)
    requires
        has_udp(socket_set_view(*old(sockets)), handle),
    ensures
        socket_set_grows(*final(sockets)) == socket_set_grows(*old(sockets)),
        socket_set_tx_room(*final(sockets)) == socket_set_tx_room(*old(sockets)),
        r is Ok <==> udp_model(socket_set_view(*old(sockets)), handle).rx.len() > 0,
        r is Ok ==> r->Ok_0.0 == min_of(
            old(data)@.len() as int,
            udp_model(socket_set_view(*old(sockets)), handle).rx[0].data.len() as int,
        ),
        r is Ok ==> r->Ok_0.1 == udp_model(socket_set_view(*old(sockets)), handle).rx[0].endpoint,
        r is Ok ==> final(data)@ == filled_from(
            old(data)@,
            udp_model(socket_set_view(*old(sockets)), handle).rx[0].data,
        ),
        r is Ok ==> socket_set_view(*final(sockets)) == with_udp(
            socket_set_view(*old(sockets)),
            handle,
            udp_model(socket_set_view(*old(sockets)), handle).received(),
        ),
        r is Err ==> final(data)@ == old(data)@,
        r is Err ==> socket_set_view(*final(sockets)) == socket_set_view(*old(sockets)),
{
    let (n, ep) = sockets.get::<UdpSocket>(handle).recv_slice(data)?;
    let addr = match ep.addr {
        smoltcp::wire::IpAddress::Ipv4(a) => IpAddress::Ipv4(Ipv4Address(a.0)),
        _ => IpAddress::Unspecified,
    };
    Ok((n, IpEndpoint { addr, port: ep.port }))
}

/// The IP protocol number a raw socket is bound to.
///
/// Wraps `RawSocket::ip_protocol` behind `SocketSet::get`, which panics
/// unless the handle names a raw socket of the set. Nothing is changed, no
/// buffer touched.
#[verifier::external_body]
pub(crate) fn raw_ip_protocol(sockets: &mut Sockets, handle: SocketHandle) -> (protocol: u8)
    requires
        has_raw(socket_set_view(*old(sockets)), handle),
    ensures
        socket_set_grows(*final(sockets)) == socket_set_grows(*old(sockets)),
        socket_set_tx_room(*final(sockets)) == socket_set_tx_room(*old(sockets)),
        protocol == raw_model(socket_set_view(*old(sockets)), handle).protocol,
        socket_set_view(*final(sockets)) == socket_set_view(*old(sockets)),
{
    sockets.get::<RawSocket>(handle).ip_protocol().into()
}

/// Queues one packet holding `data` for transmission.
///
/// Wraps `RawSocket::send_slice` behind `SocketSet::get`. The stack refuses a
/// payload that the transmit buffer does not take now.
#[verifier::external_body]
pub(crate) fn raw_send_slice(sockets: &mut Sockets, handle: SocketHandle, data: &[u8]) -> (r: StackResult<()>)
    requires
        has_raw(socket_set_view(*old(sockets)), handle),
    ensures
        socket_set_grows(*final(sockets)) == socket_set_grows(*old(sockets)),
        socket_set_tx_room(*final(sockets)).remove(handle) == socket_set_tx_room(*old(sockets)).remove(handle),
        r is Ok <==> raw_takes(*old(sockets), handle, data@.len()),
        r is Ok ==> socket_set_view(*final(sockets)) == with_raw(
            socket_set_view(*old(sockets)),
            handle,
            raw_model(socket_set_view(*old(sockets)), handle).sent(data@),
        ),
        r is Err ==> socket_set_view(*final(sockets)) == socket_set_view(*old(sockets)),
{
    sockets.get::<RawSocket>(handle).send_slice(data)
}

/// Takes the oldest received packet, copies its front into `data` and returns
/// how many octets were copied.
///
/// Wraps `RawSocket::recv_slice` behind `SocketSet::get`. The stack fails
/// exactly when no packet is waiting; what does not fit into `data` is dropped
/// with the packet.
#[verifier::external_body]
pub(crate) fn raw_recv_slice(sockets: &mut Sockets, handle: SocketHandle, data: &mut [u8]) -> (r: StackResult<usize>)
    requires
        has_raw(socket_set_view(*old(sockets)), handle),
    ensures
        socket_set_grows(*final(sockets)) == socket_set_grows(*old(sockets)),
        socket_set_tx_room(*final(sockets)) == socket_set_tx_room(*old(sockets)),
        r is Ok <==> raw_model(socket_set_view(*old(sockets)), handle).rx.len() > 0,
        r is Ok ==> r->Ok_0 == min_of(
            old(data)@.len() as int,
            raw_model(socket_set_view(*old(sockets)), handle).rx[0].len() as int,
        ),
        r is Ok ==> final(data)@ == filled_from(
            old(data)@,
            raw_model(socket_set_view(*old(sockets)), handle).rx[0],
        ),
        r is Ok ==> socket_set_view(*final(sockets)) == with_raw(
            socket_set_view(*old(sockets)),
            handle,
            raw_model(socket_set_view(*old(sockets)), handle).received(),
        ),
        r is Err ==> final(data)@ == old(data)@,
        r is Err ==> socket_set_view(*final(sockets)) == socket_set_view(*old(sockets)),
{
    sockets.get::<RawSocket>(handle).recv_slice(data)
}

} // verus!
