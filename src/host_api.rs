use crate::error::{PingError, SharedError, WindowsError};
use crate::un_mut::UnMut;
use vstd::prelude::*;

verus! {

/// Host status: the request timed out.
pub const IP_REQ_TIMED_OUT: u32 = 11010;

/// Host status: the network is unreachable.
pub const ERROR_NETWORK_UNREACHABLE: u32 = 1231;

/// Host status: a parameter is invalid.
pub const ERROR_INVALID_PARAMETER: u32 = 87;

/// How a host error code left by a failed echo call is reported.
pub open spec fn host_error(code: u32) -> PingError {
    if code == IP_REQ_TIMED_OUT {
        PingError::SharedError(SharedError::Timeout)
    } else if code == ERROR_NETWORK_UNREACHABLE {
        PingError::SharedError(SharedError::Unreachable)
    } else if code == ERROR_INVALID_PARAMETER {
        PingError::WindowsError(WindowsError::InvalidParameter)
    } else {
        PingError::WindowsError(WindowsError::UnknownError(code))
    }
}

/// Maps the host error code of a failed echo call.
pub fn solve_recv_error(error: u32) -> (r: PingError)
    ensures
        r == host_error(error),
{
    if error == IP_REQ_TIMED_OUT {
        PingError::SharedError(SharedError::Timeout)
    } else if error == ERROR_NETWORK_UNREACHABLE {
        PingError::SharedError(SharedError::Unreachable)
    } else if error == ERROR_INVALID_PARAMETER {
        PingError::WindowsError(WindowsError::InvalidParameter)
    } else {
        PingError::WindowsError(WindowsError::UnknownError(error))
    }
}

/// The echo call returned `count` replies; with none, `last_error` is the
/// host's error code and says why.
pub fn check_reply_count(count: u32, last_error: u32) -> (r: Result<(), PingError>)
    ensures
        count == 0 ==> r == Err::<(), PingError>(host_error(last_error)),
        count != 0 ==> r is Ok,
{
    if count == 0 {
        Err(solve_recv_error(last_error))
    } else {
        Ok(())
    }
}

/// The reply parser returned `err`, which is `expected` on success; anything
/// else is an error carrying the host's last error code.
pub fn check_parse_error(err: u32, expected: u32, last_error: u32) -> (r: Result<(), PingError>)
    ensures
        err == expected ==> r is Ok,
        err != expected ==> r == Err::<(), PingError>(
            PingError::WindowsError(WindowsError::IcmpParseRepliesError(last_error)),
        ),
{
    if err == expected {
        Ok(())
    } else {
        Err(PingError::WindowsError(WindowsError::IcmpParseRepliesError(last_error)))
    }
}

/// The responder of an IPv4 echo reply: the address leads the reply record.
pub fn reply_address_v4(buf: &[u8]) -> (r: [u8; 4])
    requires
        buf@.len() >= 4,
    ensures
        r@ == buf@.subrange(0, 4),
{
    let r = [buf[0], buf[1], buf[2], buf[3]];
    assert(r@ =~= buf@.subrange(0, 4));
    r
}

/// The responder of an IPv6 echo reply: the address follows the port and
/// flow information at the head of the reply record.
pub fn reply_address_v6(buf: &[u8]) -> (r: [u8; 16])
    requires
        buf@.len() >= 22,
    ensures
        r@ == buf@.subrange(6, 22),
{
    let mut r = [0u8; 16];
    let mut i: usize = 0;
    while i < 16
        invariant
            i <= 16,
            buf@.len() >= 22,
            r@.len() == 16,
            forall|k: int| 0 <= k < i ==> #[trigger] r@[k] == buf@[6 + k],
        decreases 16 - i,
    {
        r[i] = buf[6 + i];
        i = i + 1;
    }
    assert(r@ =~= buf@.subrange(6, 22));
    r
}

/// The IP option block handed to the host's echo call.
#[derive(Debug, Clone, Copy, PartialEq, Eq, Structural)]
pub struct IpOptions {
    pub ttl: u8,
    pub tos: u8,
    pub flags: u8,
    pub options_size: u8,
}

/// The option block of an echo call, if one is sent.
pub struct IpOptionInformation(pub Option<UnMut<IpOptions>>);

impl IpOptionInformation {
    /// An option block that sets the TTL and nothing else.
    pub fn new(ttl: u8) -> (r: Self)
        ensures
            r.0 matches Some(u) && u@ == (IpOptions { ttl, tos: 0, flags: 0, options_size: 0 }),
    {
        IpOptionInformation(Some(UnMut::new(IpOptions { ttl, tos: 0, flags: 0, options_size: 0 })))
    }
}

} // verus!
