//! Socket calls: creation, binding, listening and accepting, connecting,
//! shutdown, names, options and readiness.
//!
//! Every call works on the caller's descriptor table and on the shared stack,
//! both handed in. No call blocks and none drives the interface: a call that
//! would have to wait returns [`Progress::Pending`], and a call that changed
//! something the interface has to act on sets [`NetStack::poll_pending`].
//! User memory is the caller's business: addresses and buffers come in and go
//! out as values.
//!
//! Sending and receiving live in [`crate::transfer`], duplication and release
//! of sockets in [`crate::registry`]; their calls are found here as well.

pub use crate::registry::{sys_close_socket, sys_dup2_socket};
pub use crate::transfer::{sys_read_socket, sys_recvfrom, sys_sendto, sys_write_socket};

use crate::addr::{IpAddress, IpEndpoint, SockaddrIn, AF_INET, AF_UNIX, SOCKADDR_IN_SIZE};
use crate::error::{Progress, SysError, SysResult};
use crate::iface::NetStack;
use crate::port::next_ephemeral_port;
use crate::process::{
    is_free_fd, lemma_hand_over, lemma_insert_fresh, lemma_set_same_handle,
    lemma_with_socket_wf, lookup, FileLike, Process, SocketType, SocketWrapper, TcpSocketState,
};
use crate::stack::{
    socket_set_add_raw, socket_set_add_tcp, socket_set_add_udp, tcp_can_recv, tcp_can_send,
    tcp_close, tcp_connect, tcp_listen, tcp_model, tcp_remote_endpoint, tcp_state, with_new,
    empty_room, packet_capacity, with_tcp, RawModel, SocketMap, SocketModel, TcpModel, TcpState, UdpModel,
};
use vstd::prelude::*;

verus! {

/// Socket type of a TCP socket.
pub const SOCK_STREAM: usize = 1;

/// Socket type of a UDP socket.
pub const SOCK_DGRAM: usize = 2;

/// Socket type of a raw IP socket.
pub const SOCK_RAW: usize = 3;

/// The bits of the socket type argument that select the type.
pub const SOCK_TYPE_MASK: usize = 0xf;

/// Size in octets of each buffer of a new socket.
pub const SOCKET_BUFFER_SIZE: usize = 2048;

/// Packet slots in each buffer of a new UDP socket.
pub const UDP_PACKET_SLOTS: usize = 1;

/// Packet slots in each buffer of a new raw socket.
pub const RAW_PACKET_SLOTS: usize = 2;

/// Why `socket` refuses its arguments, if it does: a domain that is neither
/// IPv4 nor UNIX, or a type that is none of stream, datagram and raw.
pub open spec fn socket_error(domain: usize, socket_type: usize) -> Option<SysError> {
    if domain != AF_INET && domain != AF_UNIX {
        Some(SysError::EAFNOSUPPORT)
    } else if socket_type & SOCK_TYPE_MASK != SOCK_STREAM && socket_type & SOCK_TYPE_MASK
        != SOCK_DGRAM && socket_type & SOCK_TYPE_MASK != SOCK_RAW {
        Some(SysError::EINVAL)
    } else {
        None
    }
}

/// The type tag of a new socket.
pub open spec fn new_socket_type(socket_type: usize) -> SocketType {
    if socket_type & SOCK_TYPE_MASK == SOCK_STREAM {
        SocketType::Tcp(TcpSocketState { local_endpoint: None, is_listening: false })
    } else if socket_type & SOCK_TYPE_MASK == SOCK_DGRAM {
        SocketType::Udp
    } else {
        SocketType::Raw
    }
}

/// The protocol number of a new raw socket: the low eight bits of the
/// protocol argument.
pub open spec fn raw_protocol(protocol: usize) -> u8 {
    (protocol & 0xff) as u8
}

/// What the stack holds of a new socket: receive and transmit buffers of
/// 2048 octets each, with one packet slot on a UDP socket and two on a raw
/// socket.
pub open spec fn new_socket_model(socket_type: usize, protocol: usize) -> SocketModel {
    if socket_type & SOCK_TYPE_MASK == SOCK_STREAM {
        SocketModel::Tcp(TcpModel::fresh(SOCKET_BUFFER_SIZE as nat, SOCKET_BUFFER_SIZE as nat))
    } else if socket_type & SOCK_TYPE_MASK == SOCK_DGRAM {
        SocketModel::Udp(UdpModel::fresh(packet_capacity(UDP_PACKET_SLOTS, SOCKET_BUFFER_SIZE)))
    } else {
        SocketModel::Raw(
            RawModel::fresh(
                raw_protocol(protocol),
                packet_capacity(RAW_PACKET_SLOTS, SOCKET_BUFFER_SIZE),
            ),
        )
    }
}

/// Creates a socket and returns its descriptor, the lowest that was free.
///
/// The domain has to be IPv4 or UNIX (the latter is accepted, not served) and
/// the type, under the type mask, stream, datagram or raw. The new socket has
/// buffers of 2048 octets and one reference, held by the new descriptor.
pub fn sys_socket(proc: &mut Process, net: &mut NetStack, domain: usize, socket_type: usize, protocol: usize) -> (r: SysResult)
    requires
        old(proc).wf(old(net)),
        old(net).wf(),
    ensures
        final(proc).wf(final(net)),
        final(net).same_config(old(net)),
        final(net).poll_pending == old(net).poll_pending,
        socket_error(domain, socket_type) matches Some(e) ==> {
            &&& r == Err::<usize, SysError>(e)
            &&& final(proc)@ == old(proc)@
            &&& final(net)@ == old(net)@
            &&& final(net).tx_room() == old(net).tx_room()
        },
        socket_error(domain, socket_type) is None ==> {
            &&& r matches Ok(fd)
            &&& is_free_fd(old(proc)@, fd)
            &&& final(proc)@[fd] matches FileLike::Socket(wrapper)
            &&& wrapper.socket_type == new_socket_type(socket_type)
            &&& !old(net)@.contains_key(wrapper.handle)
            &&& final(proc)@ == old(proc)@.insert(fd, FileLike::Socket(wrapper))
            &&& final(net)@ == with_new(
                old(net)@,
                wrapper.handle,
                new_socket_model(socket_type, protocol),
            )
            &&& final(net).tx_room() == (if wrapper.socket_type is Tcp {
                old(net).tx_room()
            } else {
                old(net).tx_room().insert(
                    wrapper.handle,
                    Set::new(|len: nat| len <= SOCKET_BUFFER_SIZE),
                )
            })
        },
{
    if domain != AF_INET && domain != AF_UNIX {
        return Err(SysError::EAFNOSUPPORT);
    }
    let kind = socket_type & SOCK_TYPE_MASK;
    if kind != SOCK_STREAM && kind != SOCK_DGRAM && kind != SOCK_RAW {
        return Err(SysError::EINVAL);
    }
    let fd = proc.get_free_fd();
    let wrapper = if kind == SOCK_STREAM {
        let tcp_handle = socket_set_add_tcp(
            &mut net.sockets,
            SOCKET_BUFFER_SIZE,
            SOCKET_BUFFER_SIZE,
        );
        SocketWrapper {
            handle: tcp_handle,
            socket_type: SocketType::Tcp(
                TcpSocketState { local_endpoint: None, is_listening: false },
            ),
        }
    } else if kind == SOCK_DGRAM {
        let udp_handle = socket_set_add_udp(
            &mut net.sockets,
            UDP_PACKET_SLOTS,
            SOCKET_BUFFER_SIZE,
        );
        SocketWrapper { handle: udp_handle, socket_type: SocketType::Udp }
    } else {
        assert(protocol & 0xff < 256) by (bit_vector);
        let raw_handle = socket_set_add_raw(
            &mut net.sockets,
            (protocol & 0xff) as u8,
            RAW_PACKET_SLOTS,
            SOCKET_BUFFER_SIZE,
        );
        SocketWrapper { handle: raw_handle, socket_type: SocketType::Raw }
    };
    proof {
        assert(empty_room(packet_capacity(UDP_PACKET_SLOTS, SOCKET_BUFFER_SIZE)) =~= Set::new(
            |len: nat| len <= SOCKET_BUFFER_SIZE,
        ));
        assert(empty_room(packet_capacity(RAW_PACKET_SLOTS, SOCKET_BUFFER_SIZE)) =~= Set::new(
            |len: nat| len <= SOCKET_BUFFER_SIZE,
        ));
        lemma_insert_fresh(old(proc)@, old(net)@, fd, wrapper, net@[wrapper.handle].socket);
    }
    proc.set_socket(fd, wrapper);
    Ok(fd)
}

/// Sets a socket option: accepted and ignored.
pub fn sys_setsockopt(fd: usize, level: usize, optname: usize, optval: &[u8]) -> (r: SysResult)
    ensures
        r == Ok::<usize, SysError>(0),
{
    Ok(0)
}

/// Reads a socket option: no option is supported.
pub fn sys_getsockopt(fd: usize, level: usize, optname: usize) -> (r: SysResult)
    ensures
        r == Err::<usize, SysError>(SysError::ENOPROTOOPT),
{
    Err(SysError::ENOPROTOOPT)
}

/// The endpoint that `bind` stores for `addr`: the one that `addr` names,
/// with a zero port replaced by the ephemeral port after `last_port`.
pub open spec fn bind_endpoint(addr: SockaddrIn, last_port: u16) -> IpEndpoint {
    let endpoint = addr.spec_to_endpoint()->Ok_0;
    if endpoint.port == 0 {
        IpEndpoint { addr: endpoint.addr, port: next_ephemeral_port(last_port) }
    } else {
        endpoint
    }
}

/// Whether `bind` takes an ephemeral port for `addr`: the address is long
/// enough and well formed, and its port is zero.
pub open spec fn bind_takes_port(addr: SockaddrIn, len: usize) -> bool {
    &&& len >= SOCKADDR_IN_SIZE
    &&& addr.spec_to_endpoint() matches Ok(endpoint)
    &&& endpoint.port == 0
}

/// Whether the socket `wrapper` can be bound: it is a TCP socket that is
/// not marked as listening, and the stack's socket is not open, that is
/// neither listening nor connecting nor connected.
pub open spec fn can_bind(sockets: SocketMap, wrapper: SocketWrapper) -> bool {
    &&& wrapper.socket_type matches SocketType::Tcp(state)
    &&& !state.is_listening
    &&& !tcp_model(sockets, wrapper.handle).state.spec_is_open()
}

/// What `bind` returns.
pub open spec fn bind_result(files: Map<usize, FileLike>, sockets: SocketMap, fd: usize, addr: SockaddrIn, len: usize) -> SysResult {
    if len < SOCKADDR_IN_SIZE || addr.spec_to_endpoint() is Err {
        Err(SysError::EINVAL)
    } else {
        match lookup(files, fd) {
            Err(e) => Err(e),
            Ok(wrapper) => if can_bind(sockets, wrapper) {
                Ok(0)
            } else {
                Err(SysError::EINVAL)
            },
        }
    }
}

/// The socket that `bind` leaves under the descriptor of `wrapper`.
pub open spec fn bound_wrapper(wrapper: SocketWrapper, endpoint: IpEndpoint) -> SocketWrapper {
    SocketWrapper {
        handle: wrapper.handle,
        socket_type: SocketType::Tcp(
            TcpSocketState { local_endpoint: Some(endpoint), is_listening: false },
        ),
    }
}

/// Binds the TCP socket under `fd` to the endpoint that `addr` names.
///
/// Only a TCP socket that is neither listening nor connected can be bound. A
/// zero port is replaced by a fresh ephemeral port; the port is taken as soon
/// as the address is read, whatever the descriptor turns out to be. Binding
/// only records the endpoint in the table: the stack's socket is looked at,
/// and not touched until `listen` or `connect`.
pub fn sys_bind(proc: &mut Process, net: &mut NetStack, fd: usize, addr: &SockaddrIn, len: usize) -> (r: SysResult)
    requires
        old(proc).wf(old(net)),
        old(net).wf(),
    ensures
        final(proc).wf(final(net)),
        final(net).wf(),
        final(net).tx_room() == old(net).tx_room(),
        r == bind_result(old(proc)@, old(net)@, fd, *addr, len),
        final(net)@ == old(net)@,
        final(net).ipv4_address == old(net).ipv4_address,
        final(net).poll_pending == old(net).poll_pending,
        final(net).ephemeral_port == (if bind_takes_port(*addr, len) {
            next_ephemeral_port(old(net).ephemeral_port)
        } else {
            old(net).ephemeral_port
        }),
        r is Err ==> final(proc)@ == old(proc)@,
        r is Ok ==> final(proc)@ == old(proc)@.insert(
            fd,
            FileLike::Socket(
                bound_wrapper(
                    lookup(old(proc)@, fd)->Ok_0,
                    bind_endpoint(*addr, old(net).ephemeral_port),
                ),
            ),
        ),
        r is Ok ==> bind_endpoint(*addr, old(net).ephemeral_port).port != 0,
{
    if len < SOCKADDR_IN_SIZE {
        return Err(SysError::EINVAL);
    }
    let mut endpoint = match addr.to_endpoint() {
        Ok(endpoint) => endpoint,
        Err(e) => {
            return Err(e);
        },
    };
    if endpoint.port == 0 {
        endpoint.port = net.next_port();
    }
    let wrapper = match proc.get_socket(fd) {
        Ok(wrapper) => wrapper,
        Err(e) => {
            return Err(e);
        },
    };
    assert(proc@[fd].wf(net@));
    match wrapper.socket_type {
        SocketType::Tcp(socket_state) => {
            if socket_state.is_listening {
                return Err(SysError::EINVAL);
            }
            if tcp_state(&mut net.sockets, wrapper.handle).is_open() {
                return Err(SysError::EINVAL);
            }
            let bound = SocketWrapper {
                handle: wrapper.handle,
                socket_type: SocketType::Tcp(
                    TcpSocketState { local_endpoint: Some(endpoint), is_listening: false },
                ),
            };
            proof {
                lemma_set_same_handle(old(proc)@, net@, fd, bound);
            }
            proc.set_socket(fd, bound);
            Ok(0)
        },
        _ => Err(SysError::EINVAL),
    }
}

/// Whether `listen` on `fd` reaches the stack and is accepted there: the
/// socket is a bound TCP socket not yet marked as listening, and the stack's
/// socket is neither listening nor open.
pub open spec fn listen_starts(files: Map<usize, FileLike>, sockets: SocketMap, fd: usize) -> bool {
    &&& lookup(files, fd) matches Ok(wrapper)
    &&& wrapper.socket_type matches SocketType::Tcp(state)
    &&& !state.is_listening
    &&& state.local_endpoint matches Some(endpoint)
    &&& !(tcp_model(sockets, wrapper.handle).state is Listen)
    &&& tcp_model(sockets, wrapper.handle).accepts_listen(endpoint)
}

/// What `listen` returns.
pub open spec fn listen_result(files: Map<usize, FileLike>, sockets: SocketMap, fd: usize) -> SysResult {
    match lookup(files, fd) {
        Err(e) => Err(e),
        Ok(wrapper) => match wrapper.socket_type {
            SocketType::Tcp(state) => if state.is_listening {
                Ok(0)
            } else if state.local_endpoint is None {
                Err(SysError::EINVAL)
            } else if tcp_model(sockets, wrapper.handle).state is Listen || listen_starts(
                files,
                sockets,
                fd,
            ) {
                Ok(0)
            } else {
                Err(SysError::EINVAL)
            },
            _ => Err(SysError::EINVAL),
        },
    }
}

/// The socket that a successful `listen` leaves under the descriptor of
/// `wrapper`.
pub open spec fn listening_wrapper(wrapper: SocketWrapper) -> SocketWrapper {
    SocketWrapper {
        handle: wrapper.handle,
        socket_type: SocketType::Tcp(
            TcpSocketState {
                local_endpoint: wrapper.socket_type->Tcp_0.local_endpoint,
                is_listening: true,
            },
        ),
    }
}

/// Makes the TCP socket under `fd` listen on the endpoint it was bound to.
///
/// `backlog` is accepted and not enforced: the stack has no queue to size.
/// Listening twice is no error. Where the stack starts to listen, the
/// interface has to be polled.
pub fn sys_listen(proc: &mut Process, net: &mut NetStack, fd: usize, backlog: usize) -> (r: SysResult)
    requires
        old(proc).wf(old(net)),
    ensures
        final(proc).wf(final(net)),
        r == listen_result(old(proc)@, old(net)@, fd),
        final(net).same_config(old(net)),
        final(net).tx_room() == old(net).tx_room(),
        listen_starts(old(proc)@, old(net)@, fd) ==> {
            let wrapper = lookup(old(proc)@, fd)->Ok_0;
            let endpoint = wrapper.socket_type->Tcp_0.local_endpoint->Some_0;
            &&& final(proc)@ == old(proc)@.insert(
                fd,
                FileLike::Socket(listening_wrapper(wrapper)),
            )
            &&& final(net)@ == with_tcp(
                old(net)@,
                wrapper.handle,
                tcp_model(old(net)@, wrapper.handle).listening(endpoint),
            )
            &&& final(net).poll_pending
        },
        !listen_starts(old(proc)@, old(net)@, fd) ==> {
            &&& final(proc)@ == old(proc)@
            &&& final(net)@ == old(net)@
            &&& final(net).poll_pending == old(net).poll_pending
        },
{
    let wrapper = match proc.get_socket(fd) {
        Ok(wrapper) => wrapper,
        Err(e) => {
            return Err(e);
        },
    };
    assert(proc@[fd].wf(net@));
    match wrapper.socket_type {
        SocketType::Tcp(socket_state) => {
            if socket_state.is_listening {
                // it is fine to listen twice
                Ok(0)
            } else {
                match socket_state.local_endpoint {
                    Some(local_endpoint) => {
                        let state = tcp_state(&mut net.sockets, wrapper.handle);
                        match state {
                            TcpState::Listen => Ok(0),
                            _ => match tcp_listen(&mut net.sockets, wrapper.handle, local_endpoint) {
                                Ok(()) => {
                                    let listening = SocketWrapper {
                                        handle: wrapper.handle,
                                        socket_type: SocketType::Tcp(
                                            TcpSocketState {
                                                local_endpoint: socket_state.local_endpoint,
                                                is_listening: true,
                                            },
                                        ),
                                    };
                                    proof {
                                        lemma_with_socket_wf(
                                            old(proc)@,
                                            old(net)@,
                                            wrapper.handle,
                                            net@[wrapper.handle].socket,
                                        );
                                        lemma_set_same_handle(old(proc)@, net@, fd, listening);
                                    }
                                    proc.set_socket(fd, listening);
                                    net.poll_pending = true;
                                    Ok(0)
                                },
                                Err(_) => Err(SysError::EINVAL),
                            },
                        }
                    },
                    None => Err(SysError::EINVAL),
                }
            }
        },
        _ => Err(SysError::EINVAL),
    }
}

/// Whether the caller has room for a socket address.
pub open spec fn has_room(addr_len: Option<u32>) -> bool {
    addr_len matches Some(len) && len >= SOCKADDR_IN_SIZE
}

/// Whether a call that may hand out an address has no room for it: the
/// caller asked for the address and offers less than its size.
pub open spec fn lacks_room(addr_len: Option<u32>) -> bool {
    addr_len matches Some(len) && len < SOCKADDR_IN_SIZE
}

/// The address to hand out for `peer`: none where the caller did not ask,
/// where there is no peer, or where the wire format cannot hold its address.
pub open spec fn peer_addr(addr_len: Option<u32>, peer: Option<IpEndpoint>) -> Option<SockaddrIn> {
    if addr_len is Some && peer is Some && peer->Some_0.addr is Ipv4 {
        Some(SockaddrIn::spec_from(peer->Some_0))
    } else {
        None
    }
}

/// The address to hand out for `peer`, if the caller asked for one.
pub(crate) fn address_for(addr_len: Option<u32>, peer: Option<IpEndpoint>) -> (r: Option<SockaddrIn>)
    ensures
        r == peer_addr(addr_len, peer),
{
    match (addr_len, peer) {
        (Some(_), Some(endpoint)) => match endpoint.addr {
            IpAddress::Ipv4(_) => Some(SockaddrIn::from(endpoint)),
            IpAddress::Unspecified => None,
        },
        _ => None,
    }
}

/// Why `accept` on `fd` fails, if it does: no room for the address that was
/// asked for, no socket under `fd`, or a socket that is not a bound TCP
/// socket.
pub open spec fn accept_error(files: Map<usize, FileLike>, fd: usize, addr_len: Option<u32>) -> Option<SysError> {
    if lacks_room(addr_len) {
        Some(SysError::EINVAL)
    } else {
        match lookup(files, fd) {
            Err(e) => Some(e),
            Ok(wrapper) => match wrapper.socket_type {
                SocketType::Tcp(TcpSocketState { local_endpoint: Some(_), .. }) => None,
                _ => Some(SysError::EINVAL),
            },
        }
    }
}

/// Whether `accept` on `fd` has a connection to hand out: nothing is wrong
/// with the call, and a connection is active on the stack's socket.
pub open spec fn accept_ready(files: Map<usize, FileLike>, sockets: SocketMap, fd: usize, addr_len: Option<u32>) -> bool {
    &&& accept_error(files, fd, addr_len) is None
    &&& tcp_model(sockets, lookup(files, fd)->Ok_0.handle).state.spec_is_active()
}

/// The socket that `accept` leaves under the new descriptor: the one the
/// call was made on, no longer marked as listening.
pub open spec fn accepted_wrapper(wrapper: SocketWrapper) -> SocketWrapper {
    SocketWrapper {
        handle: wrapper.handle,
        socket_type: SocketType::Tcp(
            TcpSocketState {
                local_endpoint: wrapper.socket_type->Tcp_0.local_endpoint,
                is_listening: false,
            },
        ),
    }
}

/// Accepts a connection on the listening socket under `fd`, without waiting.
///
/// The stack keeps one connection per socket and no queue of pending ones.
/// So once a connection is active on the socket under `fd`, that socket moves
/// to a new descriptor, the lowest that is free, with its listening mark
/// cleared; and `fd` gets a new socket of the stack that listens on the same
/// local endpoint, under the type tag that `fd` had. The new descriptor is
/// returned, and with it, if the caller asked, the remote address. While no
/// connection is active the result is `Pending`: the caller suspends and
/// calls again.
///
/// `addr_len` is the room the caller has for the remote address, `None`
/// where it does not ask for it. The interface has to be polled after a
/// hand-over.
pub fn sys_accept(proc: &mut Process, net: &mut NetStack, fd: usize, addr_len: Option<u32>) -> (r: (Progress, Option<SockaddrIn>))
    requires
        old(proc).wf(old(net)),
        old(net).wf(),
    ensures
        final(proc).wf(final(net)),
        final(net).same_config(old(net)),
        final(net).tx_room() == old(net).tx_room(),
        accept_error(old(proc)@, fd, addr_len) matches Some(e) ==> r.0 == Progress::Failed(e),
        accept_error(old(proc)@, fd, addr_len) is None && !accept_ready(
            old(proc)@,
            old(net)@,
            fd,
            addr_len,
        ) ==> r.0 == Progress::Pending,
        !accept_ready(old(proc)@, old(net)@, fd, addr_len) ==> {
            &&& final(proc)@ == old(proc)@
            &&& final(net)@ == old(net)@
            &&& final(net).poll_pending == old(net).poll_pending
            &&& r.1 is None
        },
        accept_ready(old(proc)@, old(net)@, fd, addr_len) ==> {
            let wrapper = lookup(old(proc)@, fd)->Ok_0;
            let endpoint = wrapper.socket_type->Tcp_0.local_endpoint->Some_0;
            &&& r.0 matches Progress::Ready(new_fd)
            &&& is_free_fd(old(proc)@, new_fd)
            &&& lookup(final(proc)@, fd) matches Ok(listener)
            &&& listener.socket_type == wrapper.socket_type
            &&& !old(net)@.contains_key(listener.handle)
            &&& final(proc)@ == old(proc)@.insert(fd, FileLike::Socket(listener)).insert(
                new_fd,
                FileLike::Socket(accepted_wrapper(wrapper)),
            )
            &&& final(net)@ == with_new(
                old(net)@,
                listener.handle,
                SocketModel::Tcp(
                    TcpModel::fresh(
                        SOCKET_BUFFER_SIZE as nat,
                        SOCKET_BUFFER_SIZE as nat,
                    ).listening(endpoint),
                ),
            )
            &&& tcp_model(final(net)@, listener.handle).state is Listen
            &&& tcp_model(final(net)@, listener.handle).local == endpoint
            &&& lookup(final(proc)@, new_fd) == Ok::<SocketWrapper, SysError>(
                accepted_wrapper(wrapper),
            )
            &&& !accepted_wrapper(wrapper).socket_type->Tcp_0.is_listening
            &&& final(net).poll_pending
            &&& r.1 == peer_addr(addr_len, Some(tcp_model(old(net)@, wrapper.handle).remote))
        },
{
    match addr_len {
        Some(max_addr_len) => {
            if (max_addr_len as usize) < SOCKADDR_IN_SIZE {
                return (Progress::Failed(SysError::EINVAL), None);
            }
        },
        None => {},
    }
    let wrapper = match proc.get_socket(fd) {
        Ok(wrapper) => wrapper,
        Err(e) => {
            return (Progress::Failed(e), None);
        },
    };
    assert(proc@[fd].wf(net@));
    let socket_state = match wrapper.socket_type {
        SocketType::Tcp(socket_state) => socket_state,
        _ => {
            return (Progress::Failed(SysError::EINVAL), None);
        },
    };
    let endpoint = match socket_state.local_endpoint {
        Some(endpoint) => endpoint,
        None => {
            return (Progress::Failed(SysError::EINVAL), None);
        },
    };
    if !tcp_state(&mut net.sockets, wrapper.handle).is_active() {
        return (Progress::Pending, None);
    }
    let remote_endpoint = tcp_remote_endpoint(&mut net.sockets, wrapper.handle);

    // move the current one to new_fd
    // create a new one in fd
    let new_fd = proc.get_free_fd();
    let tcp_handle = socket_set_add_tcp(&mut net.sockets, SOCKET_BUFFER_SIZE, SOCKET_BUFFER_SIZE);
    let armed = tcp_listen(&mut net.sockets, tcp_handle, endpoint);
    assert(armed is Ok);
    let listener = SocketWrapper { handle: tcp_handle, socket_type: SocketType::Tcp(socket_state) };
    let accepted = SocketWrapper {
        handle: wrapper.handle,
        socket_type: SocketType::Tcp(
            TcpSocketState { local_endpoint: socket_state.local_endpoint, is_listening: false },
        ),
    };
    proof {
        assert(net@ =~= with_new(old(net)@, tcp_handle, net@[tcp_handle].socket));
        lemma_hand_over(
            old(proc)@,
            old(net)@,
            fd,
            new_fd,
            listener,
            accepted,
            net@[tcp_handle].socket,
        );
    }
    proc.set_socket(fd, listener);
    proc.set_socket(new_fd, accepted);
    net.poll_pending = true;
    (Progress::Ready(new_fd), address_for(addr_len, Some(remote_endpoint)))
}

/// Whether `connect` on `fd` reaches the stack: the address is well formed
/// and the descriptor names a TCP socket.
pub open spec fn connect_reaches_stack(files: Map<usize, FileLike>, fd: usize, addr: SockaddrIn) -> bool {
    &&& addr.spec_to_endpoint() is Ok
    &&& lookup(files, fd) matches Ok(wrapper)
    &&& wrapper.socket_type is Tcp
}

/// Whether `connect` on `fd` starts an active open: it reaches the stack, and
/// the stack accepts the open from the next ephemeral port.
pub open spec fn connect_starts(files: Map<usize, FileLike>, sockets: SocketMap, fd: usize, addr: SockaddrIn, last_port: u16) -> bool {
    &&& connect_reaches_stack(files, fd, addr)
    &&& tcp_model(sockets, lookup(files, fd)->Ok_0.handle).accepts_connect(
        addr.spec_to_endpoint()->Ok_0,
        next_ephemeral_port(last_port),
    )
}

/// What `connect` returns.
pub open spec fn connect_result(files: Map<usize, FileLike>, sockets: SocketMap, fd: usize, addr: SockaddrIn, last_port: u16) -> Progress {
    if addr.spec_to_endpoint() is Err {
        Progress::Failed(SysError::EINVAL)
    } else {
        match lookup(files, fd) {
            Err(e) => Progress::Failed(e),
            Ok(wrapper) => if wrapper.socket_type is Tcp {
                if connect_starts(files, sockets, fd, addr, last_port) {
                    Progress::Pending
                } else {
                    Progress::Failed(SysError::ENOBUFS)
                }
            } else {
                Progress::Ready(0)
            },
        }
    }
}

/// Starts to connect the socket under `fd` to the endpoint that `addr` names.
///
/// On a TCP socket an ephemeral port is taken and an active open issued. If
/// the stack accepts it the result is `Pending`: the caller polls the
/// interface and asks [`sys_connect_poll`] how the open went, and while that
/// is `Pending` too, suspends, polls and asks again. On a UDP socket nothing
/// is done and the call succeeds. Raw sockets cannot be connected.
pub fn sys_connect(proc: &Process, net: &mut NetStack, fd: usize, addr: &SockaddrIn, addrlen: usize) -> (r: Progress)
    requires
        proc.wf(old(net)),
        old(net).wf(),
        addr.spec_to_endpoint() is Ok ==> (lookup(proc@, fd) matches Ok(wrapper) ==> !(
        wrapper.socket_type is Raw)),
    ensures
        proc.wf(final(net)),
        final(net).wf(),
        final(net).tx_room() == old(net).tx_room(),
        r == connect_result(proc@, old(net)@, fd, *addr, old(net).ephemeral_port),
        !connect_reaches_stack(proc@, fd, *addr) ==> *final(net) == *old(net),
        connect_reaches_stack(proc@, fd, *addr) ==> {
            &&& final(net).ephemeral_port == next_ephemeral_port(old(net).ephemeral_port)
            &&& final(net).ipv4_address == old(net).ipv4_address
        },
        connect_starts(proc@, old(net)@, fd, *addr, old(net).ephemeral_port) ==> {
            let wrapper = lookup(proc@, fd)->Ok_0;
            &&& final(net)@ == with_tcp(
                old(net)@,
                wrapper.handle,
                tcp_model(old(net)@, wrapper.handle).connecting(
                    addr.spec_to_endpoint()->Ok_0,
                    next_ephemeral_port(old(net).ephemeral_port),
                ),
            )
            &&& final(net).poll_pending
        },
        !connect_starts(proc@, old(net)@, fd, *addr, old(net).ephemeral_port) ==> {
            &&& final(net)@ == old(net)@
            &&& final(net).poll_pending == old(net).poll_pending
        },
{
    let endpoint = match addr.to_endpoint() {
        Ok(endpoint) => endpoint,
        Err(e) => {
            return Progress::Failed(e);
        },
    };
    let wrapper = match proc.get_socket(fd) {
        Ok(wrapper) => wrapper,
        Err(e) => {
            return Progress::Failed(e);
        },
    };
    assert(proc@[fd].wf(net@));
    match wrapper.socket_type {
        SocketType::Tcp(_) => {
            let temp_port = net.next_port();
            match tcp_connect(&mut net.sockets, wrapper.handle, endpoint, temp_port) {
                Ok(()) => {
                    proof {
                        lemma_with_socket_wf(
                            proc@,
                            old(net)@,
                            wrapper.handle,
                            net@[wrapper.handle].socket,
                        );
                    }
                    net.poll_pending = true;
                    Progress::Pending
                },
                Err(_) => Progress::Failed(SysError::ENOBUFS),
            }
        },
        // nothing to do when only sendto() is used
        _ => Progress::Ready(0),
    }
}

/// How an active open stands, by the state of the socket: still under way
/// while the socket is in `SynSent`, done once it is `Established`, and
/// refused in every other state.
pub open spec fn connect_progress(state: TcpState) -> Progress {
    match state {
        TcpState::SynSent => Progress::Pending,
        TcpState::Established => Progress::Ready(0),
        _ => Progress::Failed(SysError::ECONNREFUSED),
    }
}

/// What [`sys_connect_poll`] returns.
pub open spec fn connect_poll_result(files: Map<usize, FileLike>, sockets: SocketMap, fd: usize) -> Progress {
    match lookup(files, fd) {
        Err(e) => Progress::Failed(e),
        Ok(wrapper) => if wrapper.socket_type is Tcp {
            connect_progress(tcp_model(sockets, wrapper.handle).state)
        } else {
            Progress::Failed(SysError::EINVAL)
        },
    }
}

/// Tells how the active open that [`sys_connect`] started on `fd` went. To be
/// called after the interface was polled; nothing is changed.
pub fn sys_connect_poll(proc: &Process, net: &mut NetStack, fd: usize) -> (r: Progress)
    requires
        proc.wf(old(net)),
    ensures
        proc.wf(final(net)),
        r == connect_poll_result(proc@, old(net)@, fd),
        final(net)@ == old(net)@,
        final(net).same_config(old(net)),
        final(net).tx_room() == old(net).tx_room(),
        final(net).poll_pending == old(net).poll_pending,
{
    let wrapper = match proc.get_socket(fd) {
        Ok(wrapper) => wrapper,
        Err(e) => {
            return Progress::Failed(e);
        },
    };
    assert(proc@[fd].wf(net@));
    match wrapper.socket_type {
        SocketType::Tcp(_) => {
            match tcp_state(&mut net.sockets, wrapper.handle) {
                // still connecting
                TcpState::SynSent => Progress::Pending,
                TcpState::Established => Progress::Ready(0),
                _ => Progress::Failed(SysError::ECONNREFUSED),
            }
        },
        _ => Progress::Failed(SysError::EINVAL),
    }
}

/// What `shutdown` returns: success on a TCP socket.
pub open spec fn shutdown_result(files: Map<usize, FileLike>, fd: usize) -> SysResult {
    match lookup(files, fd) {
        Err(e) => Err(e),
        Ok(wrapper) => if wrapper.socket_type is Tcp {
            Ok(0)
        } else {
            Err(SysError::EINVAL)
        },
    }
}

/// Closes the transmit half of the TCP socket under `fd`.
///
/// `how` is not looked at: the two directions are not told apart. The
/// interface has to be polled afterwards.
pub fn sys_shutdown(proc: &Process, net: &mut NetStack, fd: usize, how: usize) -> (r: SysResult)
    requires
        proc.wf(old(net)),
    ensures
        proc.wf(final(net)),
        r == shutdown_result(proc@, fd),
        final(net).same_config(old(net)),
        final(net).tx_room() == old(net).tx_room(),
        r is Ok ==> {
            let wrapper = lookup(proc@, fd)->Ok_0;
            &&& final(net)@ == with_tcp(
                old(net)@,
                wrapper.handle,
                tcp_model(old(net)@, wrapper.handle).closing(),
            )
            &&& final(net).poll_pending
        },
        r is Err ==> final(net)@ == old(net)@ && final(net).poll_pending == old(net).poll_pending,
{
    let wrapper = match proc.get_socket(fd) {
        Ok(wrapper) => wrapper,
        Err(e) => {
            return Err(e);
        },
    };
    assert(proc@[fd].wf(net@));
    match wrapper.socket_type {
        SocketType::Tcp(_) => {
            tcp_close(&mut net.sockets, wrapper.handle);
            proof {
                lemma_with_socket_wf(
                    proc@,
                    old(net)@,
                    wrapper.handle,
                    net@[wrapper.handle].socket,
                );
            }
            net.poll_pending = true;
            Ok(0)
        },
        _ => Err(SysError::EINVAL),
    }
}

/// What `getsockname` returns: the bound endpoint of a TCP socket in wire
/// form, or the reason why there is none.
pub open spec fn getsockname_result(files: Map<usize, FileLike>, fd: usize, addr_len: Option<u32>) -> Result<SockaddrIn, SysError> {
    if !has_room(addr_len) {
        Err(SysError::EINVAL)
    } else {
        match lookup(files, fd) {
            Err(e) => Err(e),
            Ok(wrapper) => match wrapper.socket_type {
                SocketType::Tcp(
                    TcpSocketState { local_endpoint: Some(endpoint), .. },
                ) => if endpoint.addr is Ipv4 {
                    Ok(SockaddrIn::spec_from(endpoint))
                } else {
                    Err(SysError::EINVAL)
                },
                _ => Err(SysError::EINVAL),
            },
        }
    }
}

/// The local address of the TCP socket under `fd`: the endpoint it was bound
/// to.
///
/// `addr_len` is the room the caller has for the address, `None` where it
/// has no place for it at all.
pub fn sys_getsockname(proc: &Process, fd: usize, addr_len: Option<u32>) -> (r: Result<SockaddrIn, SysError>)
    ensures
        r == getsockname_result(proc@, fd, addr_len),
{
    match addr_len {
        None => {
            return Err(SysError::EINVAL);
        },
        Some(len) => {
            if (len as usize) < SOCKADDR_IN_SIZE {
                return Err(SysError::EINVAL);
            }
        },
    }
    let wrapper = match proc.get_socket(fd) {
        Ok(wrapper) => wrapper,
        Err(e) => {
            return Err(e);
        },
    };
    match wrapper.socket_type {
        SocketType::Tcp(state) => match state.local_endpoint {
            Some(endpoint) => match endpoint.addr {
                IpAddress::Ipv4(_) => Ok(SockaddrIn::from(endpoint)),
                IpAddress::Unspecified => Err(SysError::EINVAL),
            },
            None => Err(SysError::EINVAL),
        },
        _ => Err(SysError::EINVAL),
    }
}

/// What `getpeername` returns: the remote endpoint of an open TCP socket in
/// wire form, or the reason why there is none.
pub open spec fn getpeername_result(files: Map<usize, FileLike>, sockets: SocketMap, fd: usize, addr_len: Option<u32>) -> Result<SockaddrIn, SysError> {
    if !has_room(addr_len) {
        Err(SysError::EINVAL)
    } else {
        match lookup(files, fd) {
            Err(e) => Err(e),
            Ok(wrapper) => if wrapper.socket_type is Tcp && tcp_model(sockets, wrapper.handle).state.spec_is_open() && tcp_model(sockets, wrapper.handle).remote.addr is Ipv4 {
                Ok(SockaddrIn::spec_from(tcp_model(sockets, wrapper.handle).remote))
            } else {
                Err(SysError::EINVAL)
            },
        }
    }
}

/// The remote address of the TCP socket under `fd`.
///
/// `addr_len` is the room the caller has for the address, `None` where it
/// has no place for it at all. A socket that is not open has no peer; nor has
/// one whose remote address the wire format cannot hold.
pub fn sys_getpeername(proc: &Process, net: &mut NetStack, fd: usize, addr_len: Option<u32>) -> (r: Result<SockaddrIn, SysError>)
    requires
        proc.wf(old(net)),
    ensures
        proc.wf(final(net)),
        r == getpeername_result(proc@, old(net)@, fd, addr_len),
        final(net)@ == old(net)@,
        final(net).same_config(old(net)),
        final(net).tx_room() == old(net).tx_room(),
        final(net).poll_pending == old(net).poll_pending,
{
    match addr_len {
        None => {
            return Err(SysError::EINVAL);
        },
        Some(len) => {
            if (len as usize) < SOCKADDR_IN_SIZE {
                return Err(SysError::EINVAL);
            }
        },
    }
    let wrapper = match proc.get_socket(fd) {
        Ok(wrapper) => wrapper,
        Err(e) => {
            return Err(e);
        },
    };
    assert(proc@[fd].wf(net@));
    match wrapper.socket_type {
        SocketType::Tcp(_) => {
            let state = tcp_state(&mut net.sockets, wrapper.handle);
            if state.is_open() {
                let remote_endpoint = tcp_remote_endpoint(&mut net.sockets, wrapper.handle);
                match remote_endpoint.addr {
                    IpAddress::Ipv4(_) => Ok(SockaddrIn::from(remote_endpoint)),
                    IpAddress::Unspecified => Err(SysError::EINVAL),
                }
            } else {
                Err(SysError::EINVAL)
            }
        },
        _ => Err(SysError::EINVAL),
    }
}

/// The readiness of a TCP socket: readable, writable, errored.
///
/// A listening socket is readable once a connection is active on it. Any
/// other socket is in error when it is not open; an open one is readable when
/// octets wait to be read and writable when the stack can take more.
pub open spec fn readiness(is_listening: bool, tcp: TcpModel) -> (bool, bool, bool) {
    if is_listening && tcp.state.spec_is_active() {
        (true, false, false)
    } else if !tcp.state.spec_is_open() {
        (false, false, true)
    } else {
        (tcp.can_recv(), tcp.can_send(), false)
    }
}

/// Checks the state of a TCP socket and returns (readable, writable,
/// errored). Other socket types are not served.
pub fn poll_socket(wrapper: &SocketWrapper, net: &mut NetStack) -> (r: (bool, bool, bool))
    requires
        wrapper.wf(old(net)@),
        wrapper.socket_type is Tcp,
    ensures
        r == readiness(wrapper.socket_type->Tcp_0.is_listening, tcp_model(old(net)@, wrapper.handle)),
        final(net)@ == old(net)@,
        final(net).same_config(old(net)),
        final(net).tx_room() == old(net).tx_room(),
        final(net).poll_pending == old(net).poll_pending,
{
    let mut input = false;
    let mut output = false;
    let mut err = false;
    let is_listening = match wrapper.socket_type {
        SocketType::Tcp(state) => state.is_listening,
        _ => false,
    };
    let state = tcp_state(&mut net.sockets, wrapper.handle);
    if is_listening && state.is_active() {
        // a new connection
        input = true;
    } else if !state.is_open() {
        err = true;
    } else {
        if tcp_can_recv(&mut net.sockets, wrapper.handle) {
            input = true;
        }
        if tcp_can_send(&mut net.sockets, wrapper.handle) {
            output = true;
        }
    }
    (input, output, err)
}

} // verus!
