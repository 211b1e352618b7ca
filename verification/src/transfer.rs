//! Data transfer: sending and receiving on sockets.
//!
//! A TCP socket moves octets of a stream, a UDP socket datagrams with the
//! endpoint of the other side, and a raw socket whole IPv4 packets: what is
//! sent on it is framed here, what is received comes with its header.

use crate::addr::{IpAddress, IpEndpoint, Ipv4Address, SockaddrIn, SOCKADDR_IN_SIZE};
use crate::error::{Progress, SysError, SysResult};
use crate::iface::NetStack;
use crate::net::{address_for, lacks_room, peer_addr};
use crate::packet::{
    build_raw_packet, ipv4_src_addr, raw_packet, IPV4_HEADER_LEN, IPV4_MAX_PAYLOAD,
};
use crate::port::next_ephemeral_port;
use crate::process::{lemma_with_socket_wf, lookup, FileLike, Process, SocketType, SocketWrapper};
use crate::stack::{
    filled_from, min_of, raw_ip_protocol, raw_recv_slice, raw_send_slice, tcp_can_send,
    tcp_model, tcp_recv_slice, tcp_remote_endpoint, tcp_send_slice, tcp_state, udp_bind,
    udp_endpoint, udp_recv_slice, udp_send_slice, with_raw, with_socket, with_tcp, with_udp,
    SocketMap, SocketModel, TcpModel, UdpModel,
};
use vstd::prelude::*;

verus! {

/// What a send on a TCP socket returns: the number of octets the stack took,
/// or the reason why it took none.
pub open spec fn tcp_send_result(tcp: TcpModel, len: nat) -> SysResult {
    if !tcp.state.spec_is_open() {
        Err(SysError::ENOTCONN)
    } else if !tcp.can_send() {
        Err(SysError::ENOBUFS)
    } else {
        Ok(tcp.send_room(len) as usize)
    }
}

/// Sends on the TCP socket `wrapper`.
pub(crate) fn tcp_send(net: &mut NetStack, wrapper: &SocketWrapper, data: &[u8]) -> (r: SysResult)
    requires
        wrapper.wf(old(net)@),
        wrapper.socket_type is Tcp,
    ensures
        r == tcp_send_result(tcp_model(old(net)@, wrapper.handle), data@.len()),
        final(net).same_config(old(net)),
        final(net).tx_room() == old(net).tx_room(),
        r is Ok ==> {
            &&& final(net)@ == with_tcp(
                old(net)@,
                wrapper.handle,
                tcp_model(old(net)@, wrapper.handle).sent(data@),
            )
            &&& final(net).poll_pending
        },
        r is Err ==> final(net)@ == old(net)@ && final(net).poll_pending == old(net).poll_pending,
{
    let state = tcp_state(&mut net.sockets, wrapper.handle);
    if state.is_open() {
        if tcp_can_send(&mut net.sockets, wrapper.handle) {
            match tcp_send_slice(&mut net.sockets, wrapper.handle, data) {
                Ok(size) => {
                    net.poll_pending = true;
                    Ok(size)
                },
                Err(_) => Err(SysError::ENOBUFS),
            }
        } else {
            Err(SysError::ENOBUFS)
        }
    } else {
        Err(SysError::ENOTCONN)
    }
}

/// What a write to the socket under `fd` returns.
pub open spec fn write_result(files: Map<usize, FileLike>, sockets: SocketMap, fd: usize, len: nat) -> SysResult {
    match lookup(files, fd) {
        Err(e) => Err(e),
        Ok(wrapper) => tcp_send_result(tcp_model(sockets, wrapper.handle), len),
    }
}

/// Writes `data` to the TCP socket under `fd`.
///
/// The stack may take fewer octets than offered; that is no error. After a
/// successful write the interface has to be polled. Only TCP sockets can be
/// written to without an address.
pub fn sys_write_socket(proc: &Process, net: &mut NetStack, fd: usize, data: &[u8]) -> (r: SysResult)
    requires
        proc.wf(old(net)),
        lookup(proc@, fd) matches Ok(wrapper) ==> wrapper.socket_type is Tcp,
    ensures
        proc.wf(final(net)),
        r == write_result(proc@, old(net)@, fd, data@.len()),
        final(net).same_config(old(net)),
        final(net).tx_room() == old(net).tx_room(),
        r is Ok ==> {
            let wrapper = lookup(proc@, fd)->Ok_0;
            &&& final(net)@ == with_tcp(
                old(net)@,
                wrapper.handle,
                tcp_model(old(net)@, wrapper.handle).sent(data@),
            )
            &&& final(net).poll_pending
        },
        r is Err ==> final(net)@ == old(net)@ && final(net).poll_pending == old(net).poll_pending,
{
    let wrapper = match proc.get_socket(fd) {
        Ok(wrapper) => wrapper,
        Err(e) => {
            return Err(e);
        },
    };
    assert(proc@[fd].wf(net@));
    let r = tcp_send(net, &wrapper, data);
    proof {
        if r is Ok {
            lemma_with_socket_wf(proc@, old(net)@, wrapper.handle, net@[wrapper.handle].socket);
        }
    }
    r
}

/// Whether a receive on `socket` into a buffer of `len` octets has something
/// to hand out: a TCP socket that holds unread octets, or a datagram socket
/// with a packet waiting. A TCP socket whose receive half is open serves an
/// empty buffer at once, with no octet.
pub open spec fn recv_ready(socket: SocketModel, len: nat) -> bool {
    match socket {
        SocketModel::Tcp(tcp) => tcp.rx.len() > 0 || (len == 0 && tcp.state.may_recv()),
        SocketModel::Udp(udp) => udp.rx.len() > 0,
        SocketModel::Raw(raw) => raw.rx.len() > 0,
    }
}

/// The octets that a receive on `socket` draws from: the unread stream of a
/// TCP socket, the oldest packet of a datagram socket.
pub open spec fn recv_source(socket: SocketModel) -> Seq<u8> {
    match socket {
        SocketModel::Tcp(tcp) => tcp.rx,
        SocketModel::Udp(udp) => udp.rx[0].data,
        SocketModel::Raw(raw) => raw.rx[0],
    }
}

/// Whether `socket` is open: a TCP socket in an open state, a UDP socket that
/// is bound. A raw socket always is.
pub open spec fn socket_is_open(socket: SocketModel) -> bool {
    match socket {
        SocketModel::Tcp(tcp) => tcp.state.spec_is_open(),
        SocketModel::Udp(udp) => udp.endpoint.port != 0,
        SocketModel::Raw(_) => true,
    }
}

/// What one receive attempt on `socket` with a buffer of `len` octets
/// returns: the number of octets handed out; or, with nothing to hand out,
/// that the socket is not open, or that the caller has to wait.
pub open spec fn recv_progress(socket: SocketModel, len: nat) -> Progress {
    if recv_ready(socket, len) {
        Progress::Ready(min_of(len as int, recv_source(socket).len() as int) as usize)
    } else if !socket_is_open(socket) {
        Progress::Failed(SysError::ENOTCONN)
    } else {
        Progress::Pending
    }
}

/// `socket` after a receive with a buffer of `len` octets handed something
/// out: a TCP socket without the octets read, a datagram socket without its
/// oldest packet.
pub open spec fn recv_taken(socket: SocketModel, len: nat) -> SocketModel {
    match socket {
        SocketModel::Tcp(tcp) => SocketModel::Tcp(tcp.received(len)),
        SocketModel::Udp(udp) => SocketModel::Udp(udp.received()),
        SocketModel::Raw(raw) => SocketModel::Raw(raw.received()),
    }
}

/// Where what a receive handed out came from: the remote endpoint of a TCP
/// connection, the sender of a UDP datagram, and for a raw packet the source
/// address that stands in the buffer, octets 12 to 15, with port 0. A buffer
/// under 16 octets shows no source address.
pub open spec fn recv_peer(socket: SocketModel, filled: Seq<u8>) -> Option<IpEndpoint> {
    match socket {
        SocketModel::Tcp(tcp) => Some(tcp.remote),
        SocketModel::Udp(udp) => Some(udp.rx[0].endpoint),
        SocketModel::Raw(_) => if filled.len() >= 16 {
            Some(
                IpEndpoint {
                    addr: IpAddress::Ipv4(
                        Ipv4Address([filled[12], filled[13], filled[14], filled[15]]),
                    ),
                    port: 0,
                },
            )
        } else {
            None
        },
    }
}

/// One receive attempt on the socket `wrapper`.
fn recv_step(net: &mut NetStack, wrapper: &SocketWrapper, buffer: &mut [u8]) -> (r: (Progress, Option<IpEndpoint>))
    requires
        wrapper.wf(old(net)@),
    ensures
        r.0 == recv_progress(old(net)@[wrapper.handle].socket, old(buffer)@.len()),
        final(net).same_config(old(net)),
        final(net).tx_room() == old(net).tx_room(),
        r.0 is Ready ==> {
            let socket = old(net)@[wrapper.handle].socket;
            &&& final(buffer)@ == filled_from(old(buffer)@, recv_source(socket))
            &&& final(net)@ == with_socket(
                old(net)@,
                wrapper.handle,
                recv_taken(socket, old(buffer)@.len()),
            )
            &&& final(net).poll_pending
            &&& r.1 == recv_peer(socket, final(buffer)@)
        },
        !(r.0 is Ready) ==> {
            &&& final(buffer)@ == old(buffer)@
            &&& final(net)@ == old(net)@
            &&& final(net).poll_pending == old(net).poll_pending
            &&& r.1 is None
        },
{
    match wrapper.socket_type {
        SocketType::Raw => {
            match raw_recv_slice(&mut net.sockets, wrapper.handle, buffer) {
                Ok(size) => {
                    let peer = if buffer.len() >= 16 {
                        let source = ipv4_src_addr(buffer);
                        proof {
                            let filled = buffer@;
                            let octets = [filled[12], filled[13], filled[14], filled[15]];
                            assert(octets@ =~= filled.subrange(12, 16));
                            assert(source.0@ =~= octets@);
                            assert(source.0 =~= octets);
                        }
                        Some(IpEndpoint { addr: IpAddress::Ipv4(source), port: 0 })
                    } else {
                        None
                    };
                    net.poll_pending = true;
                    (Progress::Ready(size), peer)
                },
                Err(_) => (Progress::Pending, None),
            }
        },
        SocketType::Udp => {
            match udp_recv_slice(&mut net.sockets, wrapper.handle, buffer) {
                Ok((size, endpoint)) => {
                    net.poll_pending = true;
                    (Progress::Ready(size), Some(endpoint))
                },
                Err(_) => {
                    let bound = udp_endpoint(&mut net.sockets, wrapper.handle);
                    if bound.port != 0 {
                        (Progress::Pending, None)
                    } else {
                        (Progress::Failed(SysError::ENOTCONN), None)
                    }
                },
            }
        },
        SocketType::Tcp(_) => {
            match tcp_recv_slice(&mut net.sockets, wrapper.handle, buffer) {
                Ok(size) => {
                    if size > 0 || buffer.len() == 0 {
                        let remote = tcp_remote_endpoint(&mut net.sockets, wrapper.handle);
                        net.poll_pending = true;
                        (Progress::Ready(size), Some(remote))
                    } else {
                        // the receive half is open and nothing has arrived yet
                        proof {
                            let tcp = tcp_model(old(net)@, wrapper.handle);
                            assert(tcp.rx.len() == 0);
                            assert(tcp.received(old(buffer)@.len()).rx =~= tcp.rx);
                            assert(net@ =~= old(net)@);
                            assert(buffer@ =~= old(buffer)@);
                        }
                        (Progress::Pending, None)
                    }
                },
                Err(_) => {
                    let state = tcp_state(&mut net.sockets, wrapper.handle);
                    if state.is_open() {
                        (Progress::Pending, None)
                    } else {
                        (Progress::Failed(SysError::ENOTCONN), None)
                    }
                },
            }
        },
    }
}

/// What a read from the socket under `fd` into a buffer of `len` octets
/// returns.
pub open spec fn read_result(files: Map<usize, FileLike>, sockets: SocketMap, fd: usize, len: nat) -> Progress {
    match lookup(files, fd) {
        Err(e) => Progress::Failed(e),
        Ok(wrapper) => recv_progress(sockets[wrapper.handle].socket, len),
    }
}

/// Reads from the socket under `fd` into `buffer`, without waiting.
///
/// What the stack has is handed out at once: from a TCP socket as many unread
/// octets as fit, from a datagram socket the front of the oldest packet. With
/// nothing to hand out, a socket that is not open fails, and on an open one
/// the caller suspends and reads again. After a successful read the interface
/// has to be polled.
pub fn sys_read_socket(proc: &Process, net: &mut NetStack, fd: usize, buffer: &mut [u8]) -> (r: Progress)
    requires
        proc.wf(old(net)),
    ensures
        proc.wf(final(net)),
        r == read_result(proc@, old(net)@, fd, old(buffer)@.len()),
        final(net).same_config(old(net)),
        final(net).tx_room() == old(net).tx_room(),
        r is Ready ==> {
            let wrapper = lookup(proc@, fd)->Ok_0;
            let socket = old(net)@[wrapper.handle].socket;
            &&& final(buffer)@ == filled_from(old(buffer)@, recv_source(socket))
            &&& final(net)@ == with_socket(
                old(net)@,
                wrapper.handle,
                recv_taken(socket, old(buffer)@.len()),
            )
            &&& final(net).poll_pending
        },
        !(r is Ready) ==> {
            &&& final(buffer)@ == old(buffer)@
            &&& final(net)@ == old(net)@
            &&& final(net).poll_pending == old(net).poll_pending
        },
{
    let wrapper = match proc.get_socket(fd) {
        Ok(wrapper) => wrapper,
        Err(e) => {
            return Progress::Failed(e);
        },
    };
    assert(proc@[fd].wf(net@));
    let (progress, _) = recv_step(net, &wrapper, buffer);
    proof {
        if progress is Ready {
            lemma_with_socket_wf(proc@, old(net)@, wrapper.handle, net@[wrapper.handle].socket);
        }
    }
    progress
}

/// What `recvfrom` returns.
pub open spec fn recvfrom_result(files: Map<usize, FileLike>, sockets: SocketMap, fd: usize, len: nat, addr_len: Option<u32>) -> Progress {
    if lacks_room(addr_len) {
        Progress::Failed(SysError::EINVAL)
    } else {
        read_result(files, sockets, fd, len)
    }
}

/// Reads from the socket under `fd` into `buffer`, without waiting, and tells
/// where the data came from.
///
/// `addr_len` is the room the caller has for the sender's address, `None`
/// where it does not ask for it. The read itself is that of
/// [`sys_read_socket`]. The address comes with a successful read: of a TCP
/// socket the remote endpoint of the connection, of a UDP socket the sender
/// of the datagram, of a raw socket the source address in the packet's header.
pub fn sys_recvfrom(proc: &Process, net: &mut NetStack, fd: usize, buffer: &mut [u8], flags: usize, addr_len: Option<u32>) -> (r: (Progress, Option<SockaddrIn>))
    requires
        proc.wf(old(net)),
    ensures
        proc.wf(final(net)),
        r.0 == recvfrom_result(proc@, old(net)@, fd, old(buffer)@.len(), addr_len),
        final(net).same_config(old(net)),
        final(net).tx_room() == old(net).tx_room(),
        r.0 is Ready ==> {
            let wrapper = lookup(proc@, fd)->Ok_0;
            let socket = old(net)@[wrapper.handle].socket;
            &&& final(buffer)@ == filled_from(old(buffer)@, recv_source(socket))
            &&& final(net)@ == with_socket(
                old(net)@,
                wrapper.handle,
                recv_taken(socket, old(buffer)@.len()),
            )
            &&& final(net).poll_pending
            &&& r.1 == peer_addr(addr_len, recv_peer(socket, final(buffer)@))
        },
        !(r.0 is Ready) ==> {
            &&& final(buffer)@ == old(buffer)@
            &&& final(net)@ == old(net)@
            &&& final(net).poll_pending == old(net).poll_pending
            &&& r.1 is None
        },
{
    match addr_len {
        Some(max_addr_len) => {
            if (max_addr_len as usize) < SOCKADDR_IN_SIZE {
                return (Progress::Failed(SysError::EINVAL), None);
            }
        },
        None => {},
    }
    let wrapper = match proc.get_socket(fd) {
        Ok(wrapper) => wrapper,
        Err(e) => {
            return (Progress::Failed(e), None);
        },
    };
    assert(proc@[fd].wf(net@));
    let (progress, peer) = recv_step(net, &wrapper, buffer);
    proof {
        if progress is Ready {
            lemma_with_socket_wf(proc@, old(net)@, wrapper.handle, net@[wrapper.handle].socket);
        }
    }
    (progress, address_for(addr_len, peer))
}

/// What a send on a datagram socket returns: the length of the payload if
/// the stack queued it, and the error for a full buffer if it did not.
pub open spec fn spec_datagram_send_result(len: usize, queued: bool) -> SysResult {
    if queued {
        Ok(len)
    } else {
        Err(SysError::ENOBUFS)
    }
}

/// What a send on a datagram socket returns, given whether the stack queued
/// the payload.
#[verifier::when_used_as_spec(spec_datagram_send_result)]
pub fn datagram_send_result(len: usize, queued: bool) -> (r: SysResult)
    ensures
        r == spec_datagram_send_result(len, queued),
{
    if queued {
        Ok(len)
    } else {
        Err(SysError::ENOBUFS)
    }
}

/// Whether the stack queues `data` for `dst` on the raw socket `wrapper`: the
/// transmit buffer takes the framed packet, 20 octets longer than `data`.
pub open spec fn raw_send_queues(before: NetStack, wrapper: SocketWrapper, data: Seq<u8>) -> bool {
    before.tx_room()[wrapper.handle].contains((IPV4_HEADER_LEN + data.len()) as nat)
}

/// How a send of `data` to `dst` on the raw socket `wrapper` relates the
/// stack before and after to the result: where the transmit buffer takes the
/// framed packet, the packet is queued and a poll asked for; where not,
/// nothing changes.
pub open spec fn raw_send_holds(before: NetStack, after: NetStack, wrapper: SocketWrapper, dst: Ipv4Address, data: Seq<u8>, r: SysResult) -> bool {
    let raw = before@[wrapper.handle].socket->Raw_0;
    let packet = raw_packet(before.ipv4_address->Some_0, dst, raw.protocol, data);
    &&& r == spec_datagram_send_result(
        data.len() as usize,
        raw_send_queues(before, wrapper, data),
    )
    &&& if raw_send_queues(before, wrapper, data) {
        &&& after@ == with_socket(before@, wrapper.handle, SocketModel::Raw(raw.sent(packet)))
        &&& after.poll_pending
    } else {
        &&& after@ == before@
        &&& after.poll_pending == before.poll_pending
    }
}

/// Sends `data` to `dst` on the raw socket `wrapper`, framed as an IPv4
/// packet from the interface's address.
fn raw_send(net: &mut NetStack, wrapper: &SocketWrapper, dst: Ipv4Address, data: &[u8]) -> (r: SysResult)
    requires
        wrapper.wf(old(net)@),
        wrapper.socket_type is Raw,
        old(net).ipv4_address is Some,
        data@.len() <= IPV4_MAX_PAYLOAD,
    ensures
        raw_send_holds(*old(net), *final(net), *wrapper, dst, data@, r),
        final(net).same_config(old(net)),
        final(net).tx_room().remove(wrapper.handle) == old(net).tx_room().remove(wrapper.handle),
{
    let src = match net.ipv4_address {
        Some(src) => src,
        None => dst,
    };
    let protocol = raw_ip_protocol(&mut net.sockets, wrapper.handle);
    // using 20-byte IPv4 header
    let packet = build_raw_packet(src, dst, protocol, data);
    let queued = raw_send_slice(&mut net.sockets, wrapper.handle, packet.as_slice()).is_ok();
    if queued {
        net.poll_pending = true;
    }
    datagram_send_result(data.len(), queued)
}

/// Whether a send on a UDP socket takes an ephemeral port: the socket's
/// endpoint lacks an address or a port.
pub open spec fn udp_send_takes_port(udp: UdpModel) -> bool {
    !udp.endpoint.spec_is_specified()
}

/// A UDP socket after the binding that a send makes where none was made: an
/// unbound socket is bound to `src` and the ephemeral port after `last_port`.
pub open spec fn lazily_bound(udp: UdpModel, src: Ipv4Address, last_port: u16) -> UdpModel {
    if udp.endpoint.port == 0 {
        udp.bound(IpEndpoint { addr: IpAddress::Ipv4(src), port: next_ephemeral_port(last_port) })
    } else {
        udp
    }
}

/// Whether the stack queues `data` for `dest` on the UDP socket `wrapper`:
/// `dest` has an address and a port, and the transmit buffer takes the
/// payload.
pub open spec fn udp_send_queues(before: NetStack, wrapper: SocketWrapper, dest: IpEndpoint, data: Seq<u8>) -> bool {
    dest.spec_is_specified() && before.tx_room()[wrapper.handle].contains(data.len())
}

/// How a send of `data` to `dest` on the UDP socket `wrapper` relates the
/// stack before and after to the result. The socket is bound first where it
/// was not. A destination without address or port is refused. Otherwise the
/// datagram is queued and a poll asked for where the transmit buffer takes
/// it, and nothing more happens where not.
pub open spec fn udp_send_holds(before: NetStack, after: NetStack, wrapper: SocketWrapper, dest: IpEndpoint, data: Seq<u8>, r: SysResult) -> bool {
    let udp = before@[wrapper.handle].socket->Udp_0;
    let bound = lazily_bound(udp, before.ipv4_address->Some_0, before.ephemeral_port);
    let unsent = with_socket(before@, wrapper.handle, SocketModel::Udp(bound));
    let sent = with_socket(before@, wrapper.handle, SocketModel::Udp(bound.sent(dest, data)));
    &&& after.ephemeral_port == (if udp_send_takes_port(udp) {
        next_ephemeral_port(before.ephemeral_port)
    } else {
        before.ephemeral_port
    })
    &&& after.ipv4_address == before.ipv4_address
    &&& r == (if !dest.spec_is_specified() {
        Err::<usize, SysError>(SysError::EINVAL)
    } else {
        spec_datagram_send_result(
            data.len() as usize,
            udp_send_queues(before, wrapper, dest, data),
        )
    })
    &&& if udp_send_queues(before, wrapper, dest, data) {
        &&& after@ == sent
        &&& after.poll_pending
    } else {
        &&& after@ == unsent
        &&& after.poll_pending == before.poll_pending
    }
}

/// Sends `data` to `dest` on the UDP socket `wrapper`.
fn udp_send(net: &mut NetStack, wrapper: &SocketWrapper, dest: IpEndpoint, data: &[u8]) -> (r: SysResult)
    requires
        wrapper.wf(old(net)@),
        wrapper.socket_type is Udp,
        old(net).wf(),
        old(net).ipv4_address is Some,
    ensures
        final(net).wf(),
        final(net).tx_room().remove(wrapper.handle) == old(net).tx_room().remove(wrapper.handle),
        udp_send_holds(*old(net), *final(net), *wrapper, dest, data@, r),
        final(net)@.dom() == old(net)@.dom(),
        final(net)@.contains_key(wrapper.handle),
        final(net)@[wrapper.handle].socket is Udp,
        final(net)@ == with_socket(old(net)@, wrapper.handle, final(net)@[wrapper.handle].socket),
{
    let v4_src = match net.ipv4_address {
        Some(src) => src,
        None => Ipv4Address([0u8, 0u8, 0u8, 0u8]),
    };
    let bound = udp_endpoint(&mut net.sockets, wrapper.handle);
    if !bound.is_specified() {
        let temp_port = net.next_port();
        // a socket that has a port already stays as it is
        let _ = udp_bind(
            &mut net.sockets,
            wrapper.handle,
            IpEndpoint { addr: IpAddress::Ipv4(v4_src), port: temp_port },
        );
    }
    assert(net@ =~= with_socket(old(net)@, wrapper.handle, net@[wrapper.handle].socket));
    if !dest.is_specified() {
        return Err(SysError::EINVAL);
    }
    let queued = udp_send_slice(&mut net.sockets, wrapper.handle, data, dest).is_ok();
    if queued {
        net.poll_pending = true;
    }
    assert(net@ =~= with_socket(old(net)@, wrapper.handle, net@[wrapper.handle].socket));
    datagram_send_result(data.len(), queued)
}

/// How `sendto` on `fd` relates the stack before and after to the result.
pub open spec fn sendto_holds(files: Map<usize, FileLike>, before: NetStack, after: NetStack, fd: usize, data: Seq<u8>, addr: SockaddrIn, r: SysResult) -> bool {
    if addr.spec_to_endpoint() is Err || lookup(files, fd) is Err {
        &&& r is Err
        &&& r->Err_0 == (if addr.spec_to_endpoint() is Err {
            SysError::EINVAL
        } else {
            lookup(files, fd)->Err_0
        })
        &&& after == before
    } else {
        let dest = addr.spec_to_endpoint()->Ok_0;
        let wrapper = lookup(files, fd)->Ok_0;
        match wrapper.socket_type {
            SocketType::Tcp(_) => {
                let tcp = tcp_model(before@, wrapper.handle);
                &&& r == tcp_send_result(tcp, data.len())
                &&& after.same_config(&before)
                &&& r is Ok ==> after@ == with_tcp(before@, wrapper.handle, tcp.sent(data))
                    && after.poll_pending
                &&& r is Err ==> after@ == before@ && after.poll_pending == before.poll_pending
                &&& after.tx_room() == before.tx_room()
            },
            SocketType::Udp => {
                &&& udp_send_holds(before, after, wrapper, dest, data, r)
                &&& after.tx_room().remove(wrapper.handle) == before.tx_room().remove(
                    wrapper.handle,
                )
            },
            SocketType::Raw => {
                &&& raw_send_holds(before, after, wrapper, dest.addr->Ipv4_0, data, r)
                &&& after.same_config(&before)
                &&& after.tx_room().remove(wrapper.handle) == before.tx_room().remove(
                    wrapper.handle,
                )
            },
        }
    }
}

/// Sends `data` on the socket under `fd` to the endpoint that `addr` names.
///
/// A TCP socket sends on its connection, as [`sys_write_socket`] does. A UDP
/// socket is first bound to the interface's address and an ephemeral port if
/// it is not bound yet. A raw socket sends `data` behind an IPv4 header of 20
/// octets from the interface's address to the destination, with the socket's
/// protocol. After a successful send the interface has to be polled.
///
/// Whether a datagram socket queues the payload is the stack's to say: it
/// does where the socket's transmit buffer takes the length now (see
/// [`NetStack::tx_room`]), and the call fails for want of buffers where not.
///
/// Once the address is found well formed, a datagram socket needs the
/// interface to have an address, and a raw payload has to fit the 16-bit
/// total length of a packet.
pub fn sys_sendto(proc: &Process, net: &mut NetStack, fd: usize, data: &[u8], flags: usize, addr: &SockaddrIn, addr_len: usize) -> (r: SysResult)
    requires
        proc.wf(old(net)),
        old(net).wf(),
        addr.spec_to_endpoint() is Ok ==> (lookup(proc@, fd) matches Ok(wrapper) ==> {
            &&& !(wrapper.socket_type is Tcp) ==> old(net).ipv4_address is Some
            &&& wrapper.socket_type is Raw ==> data@.len() <= IPV4_MAX_PAYLOAD
        }),
    ensures
        proc.wf(final(net)),
        final(net).wf(),
        sendto_holds(proc@, *old(net), *final(net), fd, data@, *addr, r),
{
    let endpoint = match addr.to_endpoint() {
        Ok(endpoint) => endpoint,
        Err(e) => {
            return Err(e);
        },
    };
    let wrapper = match proc.get_socket(fd) {
        Ok(wrapper) => wrapper,
        Err(e) => {
            return Err(e);
        },
    };
    assert(proc@[fd].wf(net@));
    let r = match wrapper.socket_type {
        SocketType::Raw => match endpoint.addr {
            IpAddress::Ipv4(v4_dst) => raw_send(net, &wrapper, v4_dst, data),
            IpAddress::Unspecified => Err(SysError::EINVAL),
        },
        SocketType::Udp => udp_send(net, &wrapper, endpoint, data),
        SocketType::Tcp(_) => tcp_send(net, &wrapper, data),
    };
    proof {
        if net@ != old(net)@ {
            assert(net@ =~= with_socket(old(net)@, wrapper.handle, net@[wrapper.handle].socket));
            lemma_with_socket_wf(proc@, old(net)@, wrapper.handle, net@[wrapper.handle].socket);
        }
    }
    r
}

} // verus!
