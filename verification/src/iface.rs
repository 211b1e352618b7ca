//! The shared network stack as socket calls reach it: the socket set, the
//! interface's IPv4 address, the ephemeral port counter, and the request to
//! poll the interface that calls leave behind.

use crate::addr::Ipv4Address;
use crate::port::{get_ephemeral_port, next_ephemeral_port, EPHEMERAL_PORT_MIN};
use crate::stack::{
    socket_set_grows, socket_set_new, socket_set_tx_room, socket_set_view, SocketMap, Sockets,
};
use smoltcp::socket::SocketHandle;
use vstd::prelude::*;

verus! {

/// The one network stack that all sockets live in.
///
/// Socket calls only change sockets. Whoever owns the interface drives it:
/// after a call it tests [`NetStack::take_poll_request`] and, if a request is
/// pending, polls the interface over `sockets`.
pub struct NetStack {
    /// The stack's sockets.
    pub sockets: Sockets,
    /// The IPv4 address configured on the interface, if any.
    pub ipv4_address: Option<Ipv4Address>,
    /// The ephemeral port handed out last.
    pub ephemeral_port: u16,
    /// Whether a call changed something that the interface has to act on.
    pub poll_pending: bool,
}

impl View for NetStack {
    type V = SocketMap;

    /// The sockets of the stack, by handle.
    open spec fn view(&self) -> SocketMap {
        socket_set_view(self.sockets)
    }
}

impl NetStack {
    /// The port counter lies in the ephemeral range, and the socket set
    /// grows on demand.
    pub open spec fn wf(&self) -> bool {
        self.ephemeral_port >= EPHEMERAL_PORT_MIN && socket_set_grows(self.sockets)
    }

    /// For each datagram socket, the payload lengths that its transmit buffer
    /// would take now.
    pub open spec fn tx_room(&self) -> Map<SocketHandle, Set<nat>> {
        socket_set_tx_room(self.sockets)
    }

    /// Whether `self` differs from `before` in its sockets and its poll
    /// request at most: the interface address, the port counter and the way
    /// the socket set is stored are the same.
    pub open spec fn same_config(&self, before: &NetStack) -> bool {
        &&& self.ipv4_address == before.ipv4_address
        &&& self.ephemeral_port == before.ephemeral_port
        &&& socket_set_grows(self.sockets) == socket_set_grows(before.sockets)
    }

    /// A stack without sockets, with the port counter at the start of the
    /// ephemeral range.
    pub fn new(ipv4_address: Option<Ipv4Address>) -> (net: NetStack)
        ensures
            net.wf(),
            net@ == Map::<SocketHandle, crate::stack::SocketEntry>::empty(),
            net.tx_room() == Map::<SocketHandle, Set<nat>>::empty(),
            net.ipv4_address == ipv4_address,
            net.ephemeral_port == EPHEMERAL_PORT_MIN,
            !net.poll_pending,
    {
        NetStack {
            sockets: socket_set_new(),
            ipv4_address,
            ephemeral_port: 49152,
            poll_pending: false,
        }
    }

    /// Hands out the next ephemeral port.
    pub fn next_port(&mut self) -> (port: u16)
        requires
            old(self).wf(),
        ensures
            final(self).wf(),
            port == next_ephemeral_port(old(self).ephemeral_port),
            port >= EPHEMERAL_PORT_MIN,
            final(self).ephemeral_port == port,
            final(self).sockets == old(self).sockets,
            final(self).ipv4_address == old(self).ipv4_address,
            final(self).poll_pending == old(self).poll_pending,
    {
        get_ephemeral_port(&mut self.ephemeral_port)
    }

    /// Tells whether the interface has to be polled, and clears the request.
    pub fn take_poll_request(&mut self) -> (pending: bool)
        ensures
            pending == old(self).poll_pending,
            !final(self).poll_pending,
            final(self).sockets == old(self).sockets,
            final(self).same_config(old(self)),
    {
        let pending = self.poll_pending;
        self.poll_pending = false;
        pending
    }
}

} // verus!
