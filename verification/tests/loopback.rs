use rcore_socket::addr::{IpAddress, IpEndpoint, Ipv4Address, SockaddrIn};
use rcore_socket::error::{Progress, SysError};
use rcore_socket::iface::NetStack;
use rcore_socket::net::{
    poll_socket, sys_accept, sys_bind, sys_close_socket, sys_connect, sys_connect_poll,
    sys_getpeername, sys_listen, sys_read_socket, sys_recvfrom, sys_sendto, sys_shutdown,
    sys_socket, sys_write_socket,
};
use rcore_socket::process::{FileLike, Process, SocketType};
use smoltcp::iface::{EthernetInterface, EthernetInterfaceBuilder, NeighborCache};
use smoltcp::phy::Loopback;
use smoltcp::socket::{TcpSocket, TcpState};
use smoltcp::time::Instant;
use smoltcp::wire::{EthernetAddress, IpCidr};
use std::collections::BTreeMap;

const AF_INET: usize = 2;
const SOCK_STREAM: usize = 1;
const SOCK_DGRAM: usize = 2;
const SOCK_RAW: usize = 3;

struct Wire {
    iface: EthernetInterface<'static, Loopback>,
    now: i64,
}

impl Wire {
    fn new() -> Wire {
        let iface = EthernetInterfaceBuilder::new(Loopback::new())
            .ethernet_addr(EthernetAddress::default())
            .neighbor_cache(NeighborCache::new(BTreeMap::new()))
            .ip_addrs(vec![IpCidr::new(smoltcp::wire::IpAddress::v4(127, 0, 0, 1), 8)])
            .finalize();
        Wire { iface, now: 0 }
    }

    /// Drives the interface until the traffic at hand has settled.
    fn poll(&mut self, net: &mut NetStack) {
        net.take_poll_request();
        let mut round = 0;
        while round < 16 {
            let _ = self.iface.poll(&mut net.sockets, Instant::from_millis(self.now));
            self.now += 1;
            round += 1;
        }
    }
}

fn fresh() -> (Process, NetStack, Wire) {
    (Process::new(), NetStack::new(Some(Ipv4Address([127, 0, 0, 1]))), Wire::new())
}

fn sockaddr(addr: [u8; 4], port: u16) -> SockaddrIn {
    SockaddrIn::from(IpEndpoint { addr: IpAddress::Ipv4(Ipv4Address(addr)), port })
}

fn count_sockets(net: &NetStack) -> usize {
    net.sockets.iter().count()
}

/// A listening socket on port 7000 and a client connected to it:
/// (listening fd, client fd).
fn connected(proc: &mut Process, net: &mut NetStack, wire: &mut Wire) -> (usize, usize) {
    let server = sys_socket(proc, net, AF_INET, SOCK_STREAM, 0).unwrap();
    assert_eq!(sys_bind(proc, net, server, &sockaddr([127, 0, 0, 1], 7000), 16), Ok(0));
    assert_eq!(sys_listen(proc, net, server, 8), Ok(0));
    let client = sys_socket(proc, net, AF_INET, SOCK_STREAM, 0).unwrap();
    assert_eq!(sys_connect(proc, net, client, &sockaddr([127, 0, 0, 1], 7000), 16), Progress::Pending);
    assert!(net.poll_pending);
    wire.poll(net);
    assert_eq!(sys_connect_poll(proc, net, client), Progress::Ready(0));
    (server, client)
}

#[test]
fn connect_completes_after_polling() {
    let (mut proc, mut net, mut wire) = fresh();
    let (_server, client) = connected(&mut proc, &mut net, &mut wire);
    let handle = proc.get_socket(client).unwrap().handle;
    assert_eq!(net.sockets.get::<TcpSocket>(handle).state(), TcpState::Established);
    assert_eq!(sys_getpeername(&proc, &mut net, client, Some(16)), Ok(sockaddr([127, 0, 0, 1], 7000)));
}

#[test]
fn connect_to_a_port_nobody_listens_on_is_refused() {
    let (mut proc, mut net, mut wire) = fresh();
    let client = sys_socket(&mut proc, &mut net, AF_INET, SOCK_STREAM, 0).unwrap();
    assert_eq!(
        sys_connect(&proc, &mut net, client, &sockaddr([127, 0, 0, 1], 7001), 16),
        Progress::Pending
    );
    wire.poll(&mut net);
    assert_eq!(sys_connect_poll(&proc, &mut net, client), Progress::Failed(SysError::ECONNREFUSED));
}

#[test]
fn accept_hands_the_connection_over_and_keeps_listening() {
    let (mut proc, mut net, mut wire) = fresh();
    let (server, client) = connected(&mut proc, &mut net, &mut wire);
    let before = proc.get_socket(server).unwrap();
    assert_eq!(poll_socket(&before, &mut net), (true, false, false));
    assert_eq!(count_sockets(&net), 2);

    let (progress, peer) = sys_accept(&mut proc, &mut net, server, Some(16));
    let new_fd = match progress {
        Progress::Ready(fd) => fd,
        other => panic!("no connection: {:?}", other),
    };
    assert_eq!(new_fd, 2);
    assert_ne!(new_fd, server);
    assert_ne!(new_fd, client);
    // the client connected from the first ephemeral port
    assert_eq!(peer, Some(sockaddr([127, 0, 0, 1], 49153)));
    assert!(net.poll_pending);
    assert_eq!(count_sockets(&net), 3);

    // the descriptor the call was made on: a new socket, listening on the same endpoint
    let listener = proc.get_socket(server).unwrap();
    assert_ne!(listener.handle, before.handle);
    assert_eq!(listener.socket_type, before.socket_type);
    match listener.socket_type {
        SocketType::Tcp(state) => {
            assert!(state.is_listening);
            assert_eq!(
                state.local_endpoint,
                Some(IpEndpoint { addr: IpAddress::Ipv4(Ipv4Address([127, 0, 0, 1])), port: 7000 })
            );
        }
        other => panic!("not a TCP socket: {:?}", other),
    }
    {
        let s = net.sockets.get::<TcpSocket>(listener.handle);
        assert_eq!(s.state(), TcpState::Listen);
        assert_eq!(s.local_endpoint().port, 7000);
    }
    // the returned descriptor: the old socket, established, not listening
    let accepted = proc.get_socket(new_fd).unwrap();
    assert_eq!(accepted.handle, before.handle);
    match accepted.socket_type {
        SocketType::Tcp(state) => {
            assert!(!state.is_listening);
            assert_eq!(state.local_endpoint.unwrap().port, 7000);
        }
        other => panic!("not a TCP socket: {:?}", other),
    }
    assert_eq!(net.sockets.get::<TcpSocket>(accepted.handle).state(), TcpState::Established);

    // nothing else is waiting
    assert_eq!(sys_accept(&mut proc, &mut net, server, None), (Progress::Pending, None));
}

#[test]
fn accept_without_address_returns_none() {
    let (mut proc, mut net, mut wire) = fresh();
    let (server, _client) = connected(&mut proc, &mut net, &mut wire);
    assert_eq!(sys_accept(&mut proc, &mut net, server, None), (Progress::Ready(2), None));
}

#[test]
fn a_second_client_is_served_by_the_refreshed_listener() {
    let (mut proc, mut net, mut wire) = fresh();
    let (server, _first) = connected(&mut proc, &mut net, &mut wire);
    assert_eq!(sys_accept(&mut proc, &mut net, server, None).0, Progress::Ready(2));
    wire.poll(&mut net);
    let second = sys_socket(&mut proc, &mut net, AF_INET, SOCK_STREAM, 0).unwrap();
    assert_eq!(
        sys_connect(&proc, &mut net, second, &sockaddr([127, 0, 0, 1], 7000), 16),
        Progress::Pending
    );
    wire.poll(&mut net);
    assert_eq!(sys_connect_poll(&proc, &mut net, second), Progress::Ready(0));
    let (progress, peer) = sys_accept(&mut proc, &mut net, server, Some(16));
    assert_eq!(progress, Progress::Ready(4));
    assert_eq!(peer, Some(sockaddr([127, 0, 0, 1], 49154)));
}

#[test]
fn data_flows_both_ways_over_tcp() {
    let (mut proc, mut net, mut wire) = fresh();
    let (server, client) = connected(&mut proc, &mut net, &mut wire);
    let conn = match sys_accept(&mut proc, &mut net, server, None).0 {
        Progress::Ready(fd) => fd,
        other => panic!("no connection: {:?}", other),
    };
    wire.poll(&mut net);

    assert_eq!(sys_write_socket(&proc, &mut net, client, b"hello, world"), Ok(12));
    assert!(net.poll_pending);
    wire.poll(&mut net);
    let w = proc.get_socket(conn).unwrap();
    assert_eq!(poll_socket(&w, &mut net), (true, true, false));

    // a short buffer takes the front of the stream and leaves the rest
    let mut buf = [0u8; 5];
    assert_eq!(sys_read_socket(&proc, &mut net, conn, &mut buf), Progress::Ready(5));
    assert_eq!(&buf, b"hello");
    assert!(net.poll_pending);
    let mut buf = [0xeeu8; 16];
    let (progress, from) = sys_recvfrom(&proc, &mut net, conn, &mut buf, 0, Some(16));
    assert_eq!(progress, Progress::Ready(7));
    assert_eq!(&buf[..7], b", world");
    assert_eq!(&buf[7..], &[0xee; 9]);
    assert_eq!(from, Some(sockaddr([127, 0, 0, 1], 49153)));

    // an open connection without data makes the reader wait
    net.take_poll_request();
    let mut buf = [0x77u8; 4];
    assert_eq!(sys_read_socket(&proc, &mut net, conn, &mut buf), Progress::Pending);
    assert_eq!(sys_recvfrom(&proc, &mut net, conn, &mut buf, 0, Some(16)), (Progress::Pending, None));
    assert_eq!(buf, [0x77u8; 4]);
    assert!(!net.poll_pending);
    // only a buffer without room is served at once, with nothing
    let mut none: [u8; 0] = [];
    assert_eq!(sys_read_socket(&proc, &mut net, conn, &mut none), Progress::Ready(0));
    assert_eq!(poll_socket(&w, &mut net), (false, true, false));

    assert_eq!(sys_sendto(&proc, &mut net, conn, b"back", 0, &sockaddr([1, 2, 3, 4], 5), 16), Ok(4));
    wire.poll(&mut net);
    let mut buf = [0u8; 8];
    let (progress, from) = sys_recvfrom(&proc, &mut net, client, &mut buf, 0, None);
    assert_eq!(progress, Progress::Ready(4));
    assert_eq!(&buf[..4], b"back");
    assert_eq!(from, None);
}

#[test]
fn bind_on_a_connected_socket_is_refused() {
    let (mut proc, mut net, mut wire) = fresh();
    let (server, client) = connected(&mut proc, &mut net, &mut wire);
    let before = proc.get_socket(client).unwrap();
    assert_eq!(
        sys_bind(&mut proc, &mut net, client, &sockaddr([127, 0, 0, 1], 9000), 16),
        Err(SysError::EINVAL)
    );
    assert_eq!(proc.get_socket(client).unwrap(), before);
    let conn = match sys_accept(&mut proc, &mut net, server, None).0 {
        Progress::Ready(fd) => fd,
        other => panic!("no connection: {:?}", other),
    };
    // the accepted socket is not marked as listening, but it is connected
    assert_eq!(
        sys_bind(&mut proc, &mut net, conn, &sockaddr([127, 0, 0, 1], 9000), 16),
        Err(SysError::EINVAL)
    );
    // and the refreshed listener is listening
    let listener = proc.get_socket(server).unwrap();
    assert_eq!(
        sys_bind(&mut proc, &mut net, server, &sockaddr([127, 0, 0, 1], 9000), 16),
        Err(SysError::EINVAL)
    );
    assert_eq!(proc.get_socket(server).unwrap(), listener);
}

#[test]
fn closing_an_established_socket_sends_the_fin() {
    let (mut proc, mut net, mut wire) = fresh();
    let (server, client) = connected(&mut proc, &mut net, &mut wire);
    let conn = match sys_accept(&mut proc, &mut net, server, None).0 {
        Progress::Ready(fd) => fd,
        other => panic!("no connection: {:?}", other),
    };
    wire.poll(&mut net);
    assert_eq!(sys_close_socket(&mut proc, &mut net, client), Ok(0));
    assert!(net.poll_pending);
    assert_eq!(proc.get_socket(client).err(), Some(SysError::EBADF));
    wire.poll(&mut net);
    let peer = proc.get_socket(conn).unwrap().handle;
    assert_eq!(net.sockets.get::<TcpSocket>(peer).state(), TcpState::CloseWait);
}

#[test]
fn a_write_takes_what_the_buffer_has_room_for() {
    let (mut proc, mut net, mut wire) = fresh();
    let (_server, client) = connected(&mut proc, &mut net, &mut wire);
    let big = vec![0x41u8; 3000];
    assert_eq!(sys_write_socket(&proc, &mut net, client, &big), Ok(2048));
    net.take_poll_request();
    // the buffer is full now
    assert_eq!(sys_write_socket(&proc, &mut net, client, b"more"), Err(SysError::ENOBUFS));
    assert!(!net.poll_pending);
    let w = proc.get_socket(client).unwrap();
    assert_eq!(poll_socket(&w, &mut net), (false, false, false));
    assert_eq!(sys_write_socket(&proc, &mut net, client, b""), Err(SysError::ENOBUFS));
}

#[test]
fn an_empty_write_on_an_open_connection_takes_nothing() {
    let (mut proc, mut net, mut wire) = fresh();
    let (_server, client) = connected(&mut proc, &mut net, &mut wire);
    assert_eq!(sys_write_socket(&proc, &mut net, client, b""), Ok(0));
    assert!(net.poll_pending);
}

#[test]
fn shutdown_starts_the_close_handshake() {
    let (mut proc, mut net, mut wire) = fresh();
    let (server, client) = connected(&mut proc, &mut net, &mut wire);
    let conn = match sys_accept(&mut proc, &mut net, server, None).0 {
        Progress::Ready(fd) => fd,
        other => panic!("no connection: {:?}", other),
    };
    wire.poll(&mut net);
    assert_eq!(sys_shutdown(&proc, &mut net, client, 1), Ok(0));
    let handle = proc.get_socket(client).unwrap().handle;
    assert_eq!(net.sockets.get::<TcpSocket>(handle).state(), TcpState::FinWait1);
    assert_eq!(sys_write_socket(&proc, &mut net, client, b"late"), Err(SysError::ENOBUFS));
    wire.poll(&mut net);
    let peer = proc.get_socket(conn).unwrap().handle;
    assert_eq!(net.sockets.get::<TcpSocket>(peer).state(), TcpState::CloseWait);
    // the receive half of the peer is closed and no data is left: it waits, still open
    let mut buf = [0u8; 4];
    assert_eq!(sys_read_socket(&proc, &mut net, conn, &mut buf), Progress::Pending);
    // the peer can still send
    assert_eq!(sys_write_socket(&proc, &mut net, conn, b"bye"), Ok(3));
    wire.poll(&mut net);
    assert_eq!(sys_read_socket(&proc, &mut net, client, &mut buf), Progress::Ready(3));
    assert_eq!(&buf[..3], b"bye");
}

#[test]
fn releasing_an_established_socket_closes_it_and_prunes_it_later() {
    let (mut proc, mut net, mut wire) = fresh();
    let (_server, client) = connected(&mut proc, &mut net, &mut wire);
    let handle = proc.get_socket(client).unwrap().handle;
    match proc.files.remove(&client) {
        Some(FileLike::Socket(w)) => w.release(&mut net),
        other => panic!("not a socket: {:?}", other),
    }
    assert!(net.poll_pending);
    // the last reference is gone, the socket is not: it has a FIN to send
    assert_eq!(count_sockets(&net), 2);
    assert_eq!(net.sockets.get::<TcpSocket>(handle).state(), TcpState::FinWait1);
}

#[test]
fn datagrams_carry_their_sender() {
    let (mut proc, mut net, mut wire) = fresh();
    let a = sys_socket(&mut proc, &mut net, AF_INET, SOCK_DGRAM, 0).unwrap();
    let b = sys_socket(&mut proc, &mut net, AF_INET, SOCK_DGRAM, 0).unwrap();
    // the first send binds a to 49153; nobody listens on port 9
    assert_eq!(sys_sendto(&proc, &mut net, a, b"knock", 0, &sockaddr([127, 0, 0, 1], 9), 16), Ok(5));
    wire.poll(&mut net);
    let mut buf = [0u8; 32];
    assert_eq!(sys_read_socket(&proc, &mut net, a, &mut buf), Progress::Pending);

    assert_eq!(sys_sendto(&proc, &mut net, b, b"to a", 0, &sockaddr([127, 0, 0, 1], 49153), 16), Ok(4));
    assert!(net.poll_pending);
    wire.poll(&mut net);
    let (progress, from) = sys_recvfrom(&proc, &mut net, a, &mut buf, 0, Some(16));
    assert_eq!(progress, Progress::Ready(4));
    assert_eq!(&buf[..4], b"to a");
    assert_eq!(from, Some(sockaddr([127, 0, 0, 1], 49154)));
    assert!(net.poll_pending);

    assert_eq!(sys_sendto(&proc, &mut net, a, b"and back", 0, &sockaddr([127, 0, 0, 1], 49154), 16), Ok(8));
    wire.poll(&mut net);
    // a short buffer gets the front of the datagram; the rest is gone with it
    let mut short = [0u8; 3];
    assert_eq!(sys_read_socket(&proc, &mut net, b, &mut short), Progress::Ready(3));
    assert_eq!(&short, b"and");
    assert_eq!(sys_read_socket(&proc, &mut net, b, &mut short), Progress::Pending);
    assert_eq!(net.ephemeral_port, 49154);
}

#[test]
fn raw_packets_go_out_framed_and_come_back_with_their_source() {
    let (mut proc, mut net, mut wire) = fresh();
    let raw = sys_socket(&mut proc, &mut net, AF_INET, SOCK_RAW, 1).unwrap();
    // an ICMP echo request: type 8, code 0, checksum, identifier 0x1234, sequence 1
    let request = [8u8, 0, 0xe5, 0xca, 0x12, 0x34, 0x00, 0x01];
    assert_eq!(sys_sendto(&proc, &mut net, raw, &request, 0, &sockaddr([127, 0, 0, 1], 0), 16), Ok(8));
    wire.poll(&mut net);

    let mut buf = [0u8; 64];
    let (progress, from) = sys_recvfrom(&proc, &mut net, raw, &mut buf, 0, Some(16));
    assert_eq!(progress, Progress::Ready(28));
    assert_eq!(buf[0], 0x45);
    assert_eq!(((buf[2] as usize) << 8) | buf[3] as usize, 28);
    assert_eq!(buf[9], 1);
    assert_eq!(&buf[12..16], &[127, 0, 0, 1]);
    assert_eq!(&buf[16..20], &[127, 0, 0, 1]);
    assert_eq!(from, Some(sockaddr([127, 0, 0, 1], 0)));
}

#[test]
fn raw_receive_into_a_short_buffer_shows_no_source() {
    let (mut proc, mut net, mut wire) = fresh();
    let raw = sys_socket(&mut proc, &mut net, AF_INET, SOCK_RAW, 1).unwrap();
    let request = [8u8, 0, 0xe5, 0xca, 0x12, 0x34, 0x00, 0x01];
    assert_eq!(sys_sendto(&proc, &mut net, raw, &request, 0, &sockaddr([127, 0, 0, 1], 0), 16), Ok(8));
    wire.poll(&mut net);
    let mut buf = [0u8; 12];
    let (progress, from) = sys_recvfrom(&proc, &mut net, raw, &mut buf, 0, Some(16));
    assert_eq!(progress, Progress::Ready(12));
    assert_eq!(buf[0], 0x45);
    assert_eq!(from, None);
}
