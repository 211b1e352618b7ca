//! A process's descriptor table and the socket objects it holds.

use crate::addr::IpEndpoint;
use crate::error::SysError;
use crate::iface::NetStack;
use crate::stack::{
    is_prunable, pruned, pruned_entry, released, retained, with_new, with_socket, SocketMap,
    SocketModel,
};
use smoltcp::socket::SocketHandle;
use std::collections::BTreeMap;
use vstd::prelude::*;

verus! {

/// What the kernel keeps of a TCP socket beside the stack's own state.
#[derive(Clone, Copy, Debug, PartialEq, Eq)]
pub struct TcpSocketState {
    /// The endpoint given to `bind`, if any.
    pub local_endpoint: Option<IpEndpoint>,
    /// Whether `listen` succeeded on this socket.
    pub is_listening: bool,
}

/// The type of a socket, with the state that belongs to the type.
#[derive(Clone, Copy, Debug, PartialEq, Eq)]
pub enum SocketType {
    Raw,
    Tcp(TcpSocketState),
    Udp,
}

/// A socket as a descriptor holds it: the stack's handle and the type tag.
///
/// Every wrapper stands for one reference to its handle. A copy is made with
/// [`SocketWrapper::retain`] and given up with [`SocketWrapper::release`].
#[derive(Debug, PartialEq, Eq)]
pub struct SocketWrapper {
    pub handle: SocketHandle,
    pub socket_type: SocketType,
}

/// What a descriptor can name.
#[derive(Debug, PartialEq, Eq)]
pub enum FileLike {
    /// An object of the file system.
    File,
    /// A socket.
    Socket(SocketWrapper),
}

/// The part of a process that socket calls work on: its descriptor table.
pub struct Process {
    pub files: BTreeMap<usize, FileLike>,
}

impl SocketType {
    /// Whether the stack's socket `socket` is of this type.
    pub open spec fn matches_model(self, socket: SocketModel) -> bool {
        match self {
            SocketType::Raw => socket is Raw,
            SocketType::Tcp(_) => socket is Tcp,
            SocketType::Udp => socket is Udp,
        }
    }

    /// A bound TCP socket has a port that is not zero.
    pub open spec fn wf(self) -> bool {
        self matches SocketType::Tcp(state) ==> (state.local_endpoint matches Some(endpoint)
            ==> endpoint.port != 0)
    }
}

impl SocketWrapper {
    /// The wrapper's handle names a socket of the stack, and that socket is
    /// of the wrapper's type.
    pub open spec fn wf(self, sockets: SocketMap) -> bool {
        &&& sockets.contains_key(self.handle)
        &&& self.socket_type.matches_model(sockets[self.handle].socket)
        &&& self.socket_type.wf()
    }
}

impl FileLike {
    /// Whether this is a socket on `handle`.
    pub open spec fn refers_to(self, handle: SocketHandle) -> bool {
        self matches FileLike::Socket(wrapper) && wrapper.handle == handle
    }

    /// A socket is well formed in the stack; anything else is of no concern.
    pub open spec fn wf(self, sockets: SocketMap) -> bool {
        self matches FileLike::Socket(wrapper) ==> wrapper.wf(sockets)
    }
}

/// The descriptors of `files` that name a socket on `handle`.
pub open spec fn fds_of(files: Map<usize, FileLike>, handle: SocketHandle) -> Set<usize> {
    files.dom().filter(|fd: usize| files[fd].refers_to(handle))
}

/// The table and the stack agree: every socket in the table is well formed in
/// the stack, and no socket of the stack has fewer references than the table
/// has descriptors on it.
pub open spec fn table_wf(files: Map<usize, FileLike>, sockets: SocketMap) -> bool {
    &&& files.dom().finite()
    &&& forall|fd: usize| files.contains_key(fd) ==> (#[trigger] files[fd]).wf(sockets)
    &&& forall|handle: SocketHandle| #[trigger]
        sockets.contains_key(handle) ==> fds_of(files, handle).len() <= sockets[handle].refs
}

/// What a lookup of `fd` gives: the socket, or the reason why there is none.
pub open spec fn lookup(files: Map<usize, FileLike>, fd: usize) -> Result<SocketWrapper, SysError> {
    if !files.contains_key(fd) {
        Err(SysError::EBADF)
    } else {
        match files[fd] {
            FileLike::Socket(wrapper) => Ok(wrapper),
            FileLike::File => Err(SysError::ENOTSOCK),
        }
    }
}

/// Whether `fd` is the lowest descriptor that `files` does not hold.
pub open spec fn is_free_fd(files: Map<usize, FileLike>, fd: usize) -> bool {
    &&& !files.contains_key(fd)
    &&& forall|lower: usize| lower < fd ==> files.contains_key(lower)
}

/// A finite set that holds every number below `n` has at least `n` elements.
proof fn lemma_prefix_len(s: Set<usize>, n: int)
    requires
        s.finite(),
        forall|j: usize| j < n ==> s.contains(j),
        n <= usize::MAX + 1,
    ensures
        n <= s.len(),
    decreases n,
{
    if n > 0 {
        let last = (n - 1) as usize;
        assert(s.contains(last));
        lemma_prefix_len(s.remove(last), n - 1);
    }
}

/// How the descriptors on `handle` change when `fd` is set to `file`: `fd`
/// joins them if `file` is a socket on `handle`, and leaves them if not.
pub proof fn lemma_fds_of_insert(
    files: Map<usize, FileLike>,
    fd: usize,
    file: FileLike,
    handle: SocketHandle,
)
    requires
        files.dom().finite(),
    ensures
        fds_of(files, handle).finite(),
        fds_of(files.insert(fd, file), handle).finite(),
        fds_of(files, handle).contains(fd) <==> files.contains_key(fd) && files[fd].refers_to(
            handle,
        ),
        file.refers_to(handle) ==> fds_of(files.insert(fd, file), handle) == fds_of(
            files,
            handle,
        ).insert(fd),
        !file.refers_to(handle) ==> fds_of(files.insert(fd, file), handle) == fds_of(
            files,
            handle,
        ).remove(fd),
        fds_of(files.insert(fd, file), handle).len() == fds_of(files, handle).len() + (if file.refers_to(
            handle,
        ) {
            1int
        } else {
            0int
        }) - (if fds_of(files, handle).contains(fd) {
            1int
        } else {
            0int
        }),
{
    let before = fds_of(files, handle);
    let after = fds_of(files.insert(fd, file), handle);
    let changed = files.insert(fd, file);
    files.dom().lemma_len_filter(|k: usize| files[k].refers_to(handle));
    assert(changed.dom() =~= files.dom().insert(fd));
    changed.dom().lemma_len_filter(|k: usize| changed[k].refers_to(handle));
    if file.refers_to(handle) {
        assert(after =~= before.insert(fd));
    } else {
        assert(after =~= before.remove(fd));
    }
}

/// Whether two stacks hold the same sockets with the same types and
/// reference counts, whatever else differs.
pub open spec fn same_shape(a: SocketMap, b: SocketMap) -> bool {
    &&& a.dom() == b.dom()
    &&& forall|handle: SocketHandle| #[trigger]
        a.contains_key(handle) ==> {
            &&& a[handle].refs == b[handle].refs
            &&& a[handle].socket is Tcp <==> b[handle].socket is Tcp
            &&& a[handle].socket is Udp <==> b[handle].socket is Udp
            &&& a[handle].socket is Raw <==> b[handle].socket is Raw
        }
}

/// A table that agrees with a stack agrees with every stack of the same
/// shape.
pub proof fn lemma_table_wf_same_shape(
    files: Map<usize, FileLike>,
    a: SocketMap,
    b: SocketMap,
)
    requires
        table_wf(files, a),
        same_shape(a, b),
    ensures
        table_wf(files, b),
{
    assert forall|fd: usize| files.contains_key(fd) implies (#[trigger] files[fd]).wf(b) by {
        assert(files[fd].wf(a));
        if let FileLike::Socket(wrapper) = files[fd] {
            assert(a.contains_key(wrapper.handle));
            assert(b.dom().contains(wrapper.handle));
        }
    }
    assert forall|handle: SocketHandle| #[trigger] b.contains_key(handle) implies fds_of(
        files,
        handle,
    ).len() <= b[handle].refs by {
        assert(a.dom().contains(handle));
        assert(a.contains_key(handle));
    }
}

/// Replacing a socket of the table by one on the same handle and of the same
/// type keeps the table in agreement with the stack.
pub proof fn lemma_set_same_handle(
    files: Map<usize, FileLike>,
    sockets: SocketMap,
    fd: usize,
    wrapper: SocketWrapper,
)
    requires
        table_wf(files, sockets),
        lookup(files, fd) is Ok,
        lookup(files, fd)->Ok_0.handle == wrapper.handle,
        wrapper.wf(sockets),
    ensures
        table_wf(files.insert(fd, FileLike::Socket(wrapper)), sockets),
{
    let file = FileLike::Socket(wrapper);
    let changed = files.insert(fd, file);
    assert forall|k: usize| changed.contains_key(k) implies (#[trigger] changed[k]).wf(sockets) by {
        if k != fd {
            assert(files.contains_key(k));
            assert(files[k].wf(sockets));
        }
    }
    assert forall|handle: SocketHandle| #[trigger]
        sockets.contains_key(handle) implies fds_of(changed, handle).len() <= sockets[handle].refs by {
        lemma_fds_of_insert(files, fd, file, handle);
    }
}

/// Replacing a socket of the stack by one of the same type keeps every table
/// in agreement with the stack.
pub proof fn lemma_with_socket_wf(
    files: Map<usize, FileLike>,
    sockets: SocketMap,
    handle: SocketHandle,
    socket: SocketModel,
)
    requires
        table_wf(files, sockets),
        sockets.contains_key(handle),
        socket is Tcp <==> sockets[handle].socket is Tcp,
        socket is Udp <==> sockets[handle].socket is Udp,
        socket is Raw <==> sockets[handle].socket is Raw,
    ensures
        table_wf(files, with_socket(sockets, handle, socket)),
{
    let changed = with_socket(sockets, handle, socket);
    assert(changed.dom() =~= sockets.dom());
    lemma_table_wf_same_shape(files, sockets, changed);
}

/// A socket of the table has at least one descriptor on its handle.
pub proof fn lemma_fds_of_nonempty(files: Map<usize, FileLike>, fd: usize, handle: SocketHandle)
    requires
        files.dom().finite(),
        files.contains_key(fd),
        files[fd].refers_to(handle),
    ensures
        fds_of(files, handle).len() >= 1,
{
    files.dom().lemma_len_filter(|k: usize| files[k].refers_to(handle));
    let fds = fds_of(files, handle);
    assert(fds.contains(fd));
    if fds.len() == 0 {
        assert(fds =~= Set::empty());
    }
}

/// No descriptor of a table that agrees with the stack is on a handle that
/// the stack does not hold.
pub proof fn lemma_fds_of_unknown(
    files: Map<usize, FileLike>,
    sockets: SocketMap,
    handle: SocketHandle,
)
    requires
        table_wf(files, sockets),
        !sockets.contains_key(handle),
    ensures
        fds_of(files, handle) == Set::<usize>::empty(),
        fds_of(files, handle).len() == 0,
{
    assert forall|fd: usize| !fds_of(files, handle).contains(fd) by {
        if files.contains_key(fd) && files[fd].refers_to(handle) {
            assert(files[fd].wf(sockets));
        }
    }
    assert(fds_of(files, handle) =~= Set::empty());
}

/// A new socket of the stack put under a free descriptor keeps the table in
/// agreement with the stack.
pub proof fn lemma_insert_fresh(
    files: Map<usize, FileLike>,
    sockets: SocketMap,
    fd: usize,
    wrapper: SocketWrapper,
    socket: SocketModel,
)
    requires
        table_wf(files, sockets),
        !files.contains_key(fd),
        !sockets.contains_key(wrapper.handle),
        wrapper.socket_type.matches_model(socket),
        wrapper.socket_type.wf(),
    ensures
        table_wf(
            files.insert(fd, FileLike::Socket(wrapper)),
            with_new(sockets, wrapper.handle, socket),
        ),
{
    let file = FileLike::Socket(wrapper);
    let files2 = files.insert(fd, file);
    let sockets2 = with_new(sockets, wrapper.handle, socket);
    assert forall|k: usize| files2.contains_key(k) implies (#[trigger] files2[k]).wf(sockets2) by {
        if k != fd {
            assert(files[k].wf(sockets));
        }
    }
    assert forall|handle: SocketHandle| #[trigger] sockets2.contains_key(handle) implies fds_of(
        files2,
        handle,
    ).len() <= sockets2[handle].refs by {
        lemma_fds_of_insert(files, fd, file, handle);
        if handle == wrapper.handle {
            lemma_fds_of_unknown(files, sockets, handle);
        } else {
            assert(sockets.contains_key(handle));
        }
    }
}

/// The hand-over at the heart of `accept` keeps the table in agreement with
/// the stack: a new socket takes the place of the one under `fd`, which moves
/// to the free descriptor `new_fd`.
pub proof fn lemma_hand_over(
    files: Map<usize, FileLike>,
    sockets: SocketMap,
    fd: usize,
    new_fd: usize,
    listener: SocketWrapper,
    accepted: SocketWrapper,
    socket: SocketModel,
)
    requires
        table_wf(files, sockets),
        lookup(files, fd) is Ok,
        lookup(files, fd)->Ok_0.handle == accepted.handle,
        accepted.wf(sockets),
        !files.contains_key(new_fd),
        !sockets.contains_key(listener.handle),
        listener.socket_type.matches_model(socket),
        listener.socket_type.wf(),
    ensures
        table_wf(
            files.insert(fd, FileLike::Socket(listener)).insert(
                new_fd,
                FileLike::Socket(accepted),
            ),
            with_new(sockets, listener.handle, socket),
        ),
{
    let files1 = files.insert(fd, FileLike::Socket(listener));
    let files2 = files1.insert(new_fd, FileLike::Socket(accepted));
    let sockets2 = with_new(sockets, listener.handle, socket);
    assert(files[fd].wf(sockets));
    assert(files1.dom() =~= files.dom());
    assert forall|k: usize| files2.contains_key(k) implies (#[trigger] files2[k]).wf(sockets2) by {
        if k != fd && k != new_fd {
            assert(files[k].wf(sockets));
        }
    }
    assert forall|handle: SocketHandle| #[trigger] sockets2.contains_key(handle) implies fds_of(
        files2,
        handle,
    ).len() <= sockets2[handle].refs by {
        lemma_fds_of_insert(files, fd, FileLike::Socket(listener), handle);
        lemma_fds_of_insert(files1, new_fd, FileLike::Socket(accepted), handle);
        if handle == listener.handle {
            lemma_fds_of_unknown(files, sockets, handle);
        } else {
            assert(sockets.contains_key(handle));
        }
    }
}

/// A retained socket put under a descriptor keeps the table in agreement
/// with the stack, and leaves the socket it replaces, if any, with one
/// reference more than the table has descriptors on it.
pub proof fn lemma_insert_retained(
    files: Map<usize, FileLike>,
    sockets: SocketMap,
    fd: usize,
    wrapper: SocketWrapper,
)
    requires
        table_wf(files, sockets),
        wrapper.wf(sockets),
    ensures
        table_wf(
            files.insert(fd, FileLike::Socket(wrapper)),
            retained(sockets, wrapper.handle),
        ),
        lookup(files, fd) matches Ok(replaced) ==> {
            &&& retained(sockets, wrapper.handle).contains_key(replaced.handle)
            &&& fds_of(files.insert(fd, FileLike::Socket(wrapper)), replaced.handle).len()
                < retained(sockets, wrapper.handle)[replaced.handle].refs
        },
{
    let file = FileLike::Socket(wrapper);
    let kept = retained(sockets, wrapper.handle);
    let changed = files.insert(fd, file);
    assert(kept.dom() =~= sockets.dom());
    assert forall|k: usize| changed.contains_key(k) implies (#[trigger] changed[k]).wf(kept) by {
        if k != fd {
            assert(files[k].wf(sockets));
        }
    }
    assert forall|handle: SocketHandle| #[trigger] kept.contains_key(handle) implies fds_of(
        changed,
        handle,
    ).len() <= kept[handle].refs by {
        assert(sockets.contains_key(handle));
        lemma_fds_of_insert(files, fd, file, handle);
    }
    if let Ok(replaced) = lookup(files, fd) {
        assert(files[fd].wf(sockets));
        assert(sockets.contains_key(replaced.handle));
        lemma_fds_of_insert(files, fd, file, replaced.handle);
    }
}

/// Taking a socket out of the table keeps the table in agreement with the
/// stack, and leaves the socket with one reference more than the table has
/// descriptors on it.
pub proof fn lemma_remove_wf(files: Map<usize, FileLike>, sockets: SocketMap, fd: usize)
    requires
        table_wf(files, sockets),
        lookup(files, fd) is Ok,
    ensures
        table_wf(files.remove(fd), sockets),
        sockets.contains_key(lookup(files, fd)->Ok_0.handle),
        fds_of(files.remove(fd), lookup(files, fd)->Ok_0.handle).len() < sockets[lookup(
            files,
            fd,
        )->Ok_0.handle].refs,
{
    let rest = files.remove(fd);
    let closed = lookup(files, fd)->Ok_0.handle;
    assert(files[fd].wf(sockets));
    assert(rest.dom() =~= files.dom().remove(fd));
    assert forall|k: usize| rest.contains_key(k) implies (#[trigger] rest[k]).wf(sockets) by {
        assert(files.contains_key(k));
        assert(files[k].wf(sockets));
    }
    assert forall|handle: SocketHandle| #[trigger] sockets.contains_key(handle) implies fds_of(
        rest,
        handle,
    ).len() <= sockets[handle].refs by {
        files.dom().lemma_len_filter(|k: usize| files[k].refers_to(handle));
        assert(fds_of(rest, handle) =~= fds_of(files, handle).remove(fd));
    }
    files.dom().lemma_len_filter(|k: usize| files[k].refers_to(closed));
    assert(fds_of(rest, closed) =~= fds_of(files, closed).remove(fd));
    assert(fds_of(files, closed).contains(fd));
}

/// Pruning keeps the table in agreement with the stack: no socket of the
/// table is without references, so none is removed or closed.
pub proof fn lemma_pruned_wf(files: Map<usize, FileLike>, sockets: SocketMap)
    requires
        table_wf(files, sockets),
    ensures
        table_wf(files, pruned(sockets)),
{
    let after = pruned(sockets);
    assert forall|fd: usize| files.contains_key(fd) implies (#[trigger] files[fd]).wf(after) by {
        assert(files[fd].wf(sockets));
        if let FileLike::Socket(wrapper) = files[fd] {
            lemma_fds_of_nonempty(files, fd, wrapper.handle);
            assert(sockets.contains_key(wrapper.handle));
            assert(!is_prunable(sockets[wrapper.handle]));
            assert(after.contains_key(wrapper.handle));
            assert(after[wrapper.handle] == pruned_entry(sockets[wrapper.handle]));
        }
    }
    assert forall|handle: SocketHandle| #[trigger] after.contains_key(handle) implies fds_of(
        files,
        handle,
    ).len() <= after[handle].refs by {
        assert(sockets.contains_key(handle));
        assert(after[handle] == pruned_entry(sockets[handle]));
    }
}

/// Giving up a reference that the table does not account for keeps the table
/// in agreement with the stack: where a socket has more references than the
/// table has descriptors on it, one of them can be released, and the stack
/// pruned, without harm to any descriptor.
pub proof fn lemma_release_wf(files: Map<usize, FileLike>, sockets: SocketMap, handle: SocketHandle)
    requires
        table_wf(files, sockets),
        sockets.contains_key(handle),
        fds_of(files, handle).len() < sockets[handle].refs,
    ensures
        table_wf(files, pruned(released(sockets, handle))),
{
    let after = released(sockets, handle);
    assert(after.dom() =~= sockets.dom());
    assert forall|fd: usize| files.contains_key(fd) implies (#[trigger] files[fd]).wf(after) by {
        assert(files[fd].wf(sockets));
    }
    assert forall|h: SocketHandle| #[trigger] after.contains_key(h) implies fds_of(files, h).len()
        <= after[h].refs by {
        assert(sockets.contains_key(h));
    }
    lemma_pruned_wf(files, after);
}

impl View for Process {
    type V = Map<usize, FileLike>;

    /// The table as a map from descriptors.
    open spec fn view(&self) -> Map<usize, FileLike> {
        self.files@
    }
}

impl Process {
    /// The table agrees with the stack (see [`table_wf`]).
    pub open spec fn wf(&self, net: &NetStack) -> bool {
        table_wf(self@, net@)
    }

    /// A process with an empty descriptor table.
    pub fn new() -> (proc: Process)
        ensures
            proc@ == Map::<usize, FileLike>::empty(),
    {
        Process { files: BTreeMap::new() }
    }

    /// The lowest descriptor that is not in use.
    pub fn get_free_fd(&self) -> (fd: usize)
        ensures
            is_free_fd(self@, fd),
    {
        broadcast use vstd::std_specs::btree::group_btree_axioms;

        let mut fd: usize = 0;
        while self.files.contains_key(&fd)
            invariant
                forall|lower: usize| lower < fd ==> self@.contains_key(lower),
            decreases self@.dom().len() - fd,
        {
            proof {
                assert(self@.dom().finite());
                assert forall|j: usize| j < fd + 1 implies self@.dom().contains(j) by {
                    if j < fd {
                        assert(self@.contains_key(j));
                    }
                }
                lemma_prefix_len(self@.dom(), fd + 1);
                assert(self@.dom().len() == self.files.len());
            }
            fd = fd + 1;
        }
        fd
    }

    /// Puts `wrapper` under `fd`, in place of whatever was there.
    pub fn set_socket(&mut self, fd: usize, wrapper: SocketWrapper) -> (replaced: Option<FileLike>)
        ensures
            final(self)@ == old(self)@.insert(fd, FileLike::Socket(wrapper)),
            replaced == old(self)@.get(fd),
    {
        broadcast use vstd::std_specs::btree::group_btree_axioms;

        self.files.insert(fd, FileLike::Socket(wrapper))
    }

    /// Takes whatever is under `fd` out of the table.
    pub fn remove(&mut self, fd: usize) -> (removed: Option<FileLike>)
        ensures
            final(self)@ == old(self)@.remove(fd),
            removed == old(self)@.get(fd),
    {
        broadcast use vstd::std_specs::btree::group_btree_axioms;

        let removed = self.files.remove(&fd);
        proof {
            if removed is None {
                assert(self@ =~= old(self)@.remove(fd));
            }
        }
        removed
    }

    /// The socket under `fd`, for reading. The wrapper handed out is a view
    /// of the one in the table, not a new reference to its handle.
    pub fn get_socket(&self, fd: usize) -> (r: Result<SocketWrapper, SysError>)
        ensures
            r == lookup(self@, fd),
    {
        broadcast use vstd::std_specs::btree::group_btree_axioms;

        match self.files.get(&fd) {
            None => Err(SysError::EBADF),
            Some(FileLike::Socket(wrapper)) => Ok(
                SocketWrapper { handle: wrapper.handle, socket_type: wrapper.socket_type },
            ),
            Some(FileLike::File) => Err(SysError::ENOTSOCK),
        }
    }
}

} // verus!
