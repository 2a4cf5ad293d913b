use vstd::prelude::*;

verus! {

/// Failures every transport reports alike.
#[derive(Debug, Clone, Copy, PartialEq, Eq, Structural)]
pub enum SharedError {
    /// No reply within the configured window.
    Timeout,
    /// The host or network was reported unreachable.
    Unreachable,
    /// Raw-socket creation needs privilege that the process lacks.
    NoElevatedPrivilege,
}

/// Failures of the raw-socket transport; an `i32` is the `errno` the
/// failing call left.
#[derive(Debug, Clone, Copy, PartialEq, Eq, Structural)]
pub enum LinuxError {
    SocketSetupFailed(i32),
    SetSockOptError(i32),
    BindFailed(i32),
    ConnectFailed(i32),
    SendFailed(i32),
    SendtoFailed(i32),
    SendMessageFailed(i32),
    RecvFailed(i32),
    /// A reply arrived but could not be correlated with the request.
    ResolveRecvFailed,
    /// The receive call did not report who answered.
    MissRespondAddr,
    /// No room for the hop-limit control message.
    NullPtr,
}

/// Failures of the host-API transport.
#[derive(Debug)]
pub enum WindowsError {
    IcmpCreateFileError(String),
    IcmpCloseFileError(String),
    /// The host could not parse the replies; the code is the host's last error.
    IcmpParseRepliesError(u32),
    /// The host refused a parameter, for example a reply buffer that is too small.
    InvalidParameter,
    UnknownError(u32),
}

/// Any failure of a ping.
#[derive(Debug)]
pub enum PingError {
    SharedError(SharedError),
    WindowsError(WindowsError),
    LinuxError(LinuxError),
}

impl From<SharedError> for PingError {
    fn from(error: SharedError) -> (r: PingError)
        ensures
            r == PingError::SharedError(error),
    {
        PingError::SharedError(error)
    }
}

impl vstd::std_specs::convert::FromSpecImpl<SharedError> for PingError {
    open spec fn obeys_from_spec() -> bool {
        true
    }

    open spec fn from_spec(error: SharedError) -> PingError {
        PingError::SharedError(error)
    }
}

impl From<LinuxError> for PingError {
    fn from(error: LinuxError) -> (r: PingError)
        ensures
            r == PingError::LinuxError(error),
    {
        PingError::LinuxError(error)
    }
}

impl vstd::std_specs::convert::FromSpecImpl<LinuxError> for PingError {
    open spec fn obeys_from_spec() -> bool {
        true
    }

    open spec fn from_spec(error: LinuxError) -> PingError {
        PingError::LinuxError(error)
    }
}

impl From<WindowsError> for PingError {
    fn from(error: WindowsError) -> (r: PingError)
        ensures
            r == PingError::WindowsError(error),
    {
        PingError::WindowsError(error)
    }
}

impl vstd::std_specs::convert::FromSpecImpl<WindowsError> for PingError {
    open spec fn obeys_from_spec() -> bool {
        true
    }

    open spec fn from_spec(error: WindowsError) -> PingError {
        PingError::WindowsError(error)
    }
}

/// `errno`: operation not permitted.
pub const EPERM: i32 = 1;

/// `errno`: resource temporarily unavailable; a receive timeout ends with it.
pub const EAGAIN: i32 = 11;

/// `errno`: network is unreachable.
pub const ENETUNREACH: i32 = 101;

/// How a failed receive is reported.
pub open spec fn recv_error(errno: i32) -> PingError {
    if errno == ENETUNREACH {
        PingError::SharedError(SharedError::Unreachable)
    } else if errno == EAGAIN {
        PingError::SharedError(SharedError::Timeout)
    } else {
        PingError::LinuxError(LinuxError::RecvFailed(errno))
    }
}

/// How a failed socket creation is reported.
pub open spec fn setup_error(errno: i32) -> PingError {
    if errno == EPERM {
        PingError::SharedError(SharedError::NoElevatedPrivilege)
    } else {
        PingError::LinuxError(LinuxError::SocketSetupFailed(errno))
    }
}

impl LinuxError {
    /// Maps the `errno` of a failed receive: an expired receive timeout is
    /// `Timeout`, an unreachable network `Unreachable`.
    pub fn convert_recv_failed(input: i32) -> (r: PingError)
        ensures
            r == recv_error(input),
    {
        if input == ENETUNREACH {
            PingError::SharedError(SharedError::Unreachable)
        } else if input == EAGAIN {
            PingError::SharedError(SharedError::Timeout)
        } else {
            PingError::LinuxError(LinuxError::RecvFailed(input))
        }
    }

    /// Maps the `errno` of a failed socket creation: a missing privilege is
    /// `NoElevatedPrivilege`.
    pub fn convert_setup_failed(input: i32) -> (r: PingError)
        ensures
            r == setup_error(input),
    {
        if input == EPERM {
            PingError::SharedError(SharedError::NoElevatedPrivilege)
        } else {
            PingError::LinuxError(LinuxError::SocketSetupFailed(input))
        }
    }
}

} // verus!
