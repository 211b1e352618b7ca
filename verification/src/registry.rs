//! The references that descriptors hold on the stack's sockets.
//!
//! The stack counts references per socket and drops a socket once nothing
//! refers to it. Every [`SocketWrapper`] stands for one reference: making a
//! second wrapper takes an explicit [`SocketWrapper::retain`], and giving one
//! up an explicit [`SocketWrapper::release`]. A wrapper that is dropped
//! without release keeps its socket in the stack for good. Closing a
//! descriptor with [`sys_close_socket`] releases the wrapper it held.

use crate::error::{SysError, SysResult};
use crate::iface::NetStack;
use crate::process::{
    lemma_insert_retained, lemma_release_wf, lemma_remove_wf, lookup, FileLike, Process,
    SocketWrapper,
};
use crate::stack::{
    pruned, released, retained, socket_set_prune, socket_set_release, socket_set_retain,
    SocketModel,
};
use vstd::prelude::*;

verus! {

/// Whether `socket` is a TCP socket that is not closed: the one kind of
/// socket that pruning does not remove at once.
pub open spec fn unclosed_tcp(socket: SocketModel) -> bool {
    socket matches SocketModel::Tcp(tcp) && !(tcp.state is Closed)
}

impl SocketWrapper {
    /// Makes a second wrapper on the same socket and counts it as one more
    /// reference to the handle.
    pub fn retain(&self, net: &mut NetStack) -> (copy: SocketWrapper)
        requires
            self.wf(old(net)@),
            old(net)@[self.handle].refs < usize::MAX,
        ensures
            copy == *self,
            final(net)@ == retained(old(net)@, self.handle),
            final(net).same_config(old(net)),
            final(net).tx_room() == old(net).tx_room(),
            final(net).poll_pending == old(net).poll_pending,
    {
        socket_set_retain(&mut net.sockets, self.handle);
        SocketWrapper { handle: self.handle, socket_type: self.socket_type }
    }

    /// Gives up this wrapper's reference to its handle.
    ///
    /// The stack is pruned at once. Where this was the last reference, the
    /// socket leaves the set; except a TCP socket that is not closed yet, which
    /// has its transmit half closed and leaves on a later pruning. The
    /// interface has to be polled afterwards, so that what the close has to
    /// say is sent.
    pub fn release(self, net: &mut NetStack)
        requires
            self.wf(old(net)@),
            old(net)@[self.handle].refs > 0,
        ensures
            final(net)@ == pruned(released(old(net)@, self.handle)),
            final(net).same_config(old(net)),
            final(net).tx_room() == old(net).tx_room().restrict(final(net)@.dom()),
            final(net).poll_pending,
            old(net)@[self.handle].refs == 1 && !unclosed_tcp(old(net)@[self.handle].socket)
                ==> !final(net)@.contains_key(self.handle),
            old(net)@[self.handle].refs > 1 ==> final(net)@.contains_key(self.handle),
    {
        socket_set_release(&mut net.sockets, self.handle);
        socket_set_prune(&mut net.sockets);
        // send FIN immediately when applicable
        net.poll_pending = true;
    }
}

/// Installs `wrapper` under `fd` as one more reference to its socket.
///
/// A socket that `fd` named before loses that reference, as if it had been
/// closed; the interface then has to be polled.
pub fn sys_dup2_socket(proc: &mut Process, net: &mut NetStack, wrapper: SocketWrapper, fd: usize) -> (r: SysResult)
    requires
        old(proc).wf(old(net)),
        wrapper.wf(old(net)@),
        old(net)@[wrapper.handle].refs < usize::MAX,
    ensures
        final(proc).wf(final(net)),
        r == Ok::<usize, SysError>(fd),
        final(proc)@ == old(proc)@.insert(fd, FileLike::Socket(wrapper)),
        final(net).same_config(old(net)),
        lookup(old(proc)@, fd) matches Ok(replaced) ==> {
            &&& final(net)@ == pruned(
                released(retained(old(net)@, wrapper.handle), replaced.handle),
            )
            &&& final(net).tx_room() == old(net).tx_room().restrict(final(net)@.dom())
            &&& final(net).poll_pending
        },
        lookup(old(proc)@, fd) is Err ==> {
            &&& final(net)@ == retained(old(net)@, wrapper.handle)
            &&& final(net).tx_room() == old(net).tx_room()
            &&& final(net).poll_pending == old(net).poll_pending
        },
{
    socket_set_retain(&mut net.sockets, wrapper.handle);
    proof {
        lemma_insert_retained(old(proc)@, old(net)@, fd, wrapper);
    }
    let replaced = proc.set_socket(fd, wrapper);
    match replaced {
        Some(FileLike::Socket(closed)) => {
            proof {
                assert(old(proc)@[fd].wf(old(net)@));
                lemma_release_wf(proc@, net@, closed.handle);
            }
            closed.release(net);
        },
        _ => {},
    }
    Ok(fd)
}

/// Closes the socket under `fd`: the descriptor leaves the table and gives up
/// its reference, as [`SocketWrapper::release`] says. The interface then has
/// to be polled. A descriptor that names no socket is left alone.
pub fn sys_close_socket(proc: &mut Process, net: &mut NetStack, fd: usize) -> (r: SysResult)
    requires
        old(proc).wf(old(net)),
    ensures
        final(proc).wf(final(net)),
        final(net).same_config(old(net)),
        lookup(old(proc)@, fd) matches Ok(wrapper) ==> {
            &&& r == Ok::<usize, SysError>(0)
            &&& final(proc)@ == old(proc)@.remove(fd)
            &&& final(net)@ == pruned(released(old(net)@, wrapper.handle))
            &&& final(net).tx_room() == old(net).tx_room().restrict(final(net)@.dom())
            &&& final(net).poll_pending
        },
        lookup(old(proc)@, fd) matches Err(e) ==> {
            &&& r == Err::<usize, SysError>(e)
            &&& final(proc)@ == old(proc)@
            &&& final(net)@ == old(net)@
            &&& final(net).tx_room() == old(net).tx_room()
            &&& final(net).poll_pending == old(net).poll_pending
        },
{
    let wrapper = match proc.get_socket(fd) {
        Ok(wrapper) => wrapper,
        Err(e) => {
            return Err(e);
        },
    };
    proof {
        lemma_remove_wf(old(proc)@, net@, fd);
        lemma_release_wf(old(proc)@.remove(fd), net@, wrapper.handle);
        assert(old(proc)@[fd].wf(net@));
    }
    proc.remove(fd);
    wrapper.release(net);
    Ok(0)
}

} // verus!
