//! Result types shared by every socket call.

use vstd::prelude::*;

verus! {

/// Error kinds a socket call can end with.
#[derive(Clone, Copy, Debug, PartialEq, Eq, Structural)]
pub enum SysError {
    /// The descriptor is not in the table.
    EBADF,
    /// The descriptor names something that is not a socket.
    ENOTSOCK,
    /// The address family is not supported.
    EAFNOSUPPORT,
    /// Malformed or undersized address, or an operation that the socket's
    /// type or state does not allow.
    EINVAL,
    /// An active open was refused.
    ECONNREFUSED,
    /// The stack cannot take more data right now.
    ENOBUFS,
    /// The operation needs an open connection.
    ENOTCONN,
    /// The socket option is not supported.
    ENOPROTOOPT,
}

/// What a socket call returns: a count or descriptor, or an error kind.
pub type SysResult = Result<usize, SysError>;

/// Outcome of one step of an operation that may have to wait for the stack.
///
/// `Pending` asks the caller to suspend on the activity signal and to make the
/// same call again once it was raised.
#[derive(Clone, Copy, Debug, PartialEq, Eq, Structural)]
pub enum Progress {
    Pending,
    Ready(usize),
    Failed(SysError),
}

impl Progress {
    /// The finished result, if the operation is over.
    pub open spec fn spec_result(self) -> Option<SysResult> {
        match self {
            Progress::Pending => None,
            Progress::Ready(n) => Some(Ok(n)),
            Progress::Failed(e) => Some(Err(e)),
        }
    }

    /// The finished result, or `None` while the operation is pending.
    #[verifier::when_used_as_spec(spec_result)]
    pub fn result(self) -> (r: Option<SysResult>)
        ensures
            r == self.spec_result(),
    {
        match self {
            Progress::Pending => None,
            Progress::Ready(n) => Some(Ok(n)),
            Progress::Failed(e) => Some(Err(e)),
        }
    }
}

} // verus!
