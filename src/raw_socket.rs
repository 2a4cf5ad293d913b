use crate::error::{recv_error, LinuxError, PingError, SharedError};
use crate::icmp::{correlates_v4, correlates_v6, parse_icmp, IcmpDataForPing, IcmpFormat};
use crate::ip_header::{parse_ipv4, Ipv4Header};
use vstd::prelude::*;

verus! {

/// The responder of an IPv4 datagram (IP header included) that answers
/// `sent`, or `None` where the datagram is malformed or answers something else.
pub open spec fn reply_source_v4(datagram: Seq<u8>, sent: Seq<u8>) -> Option<Seq<u8>> {
    match parse_ipv4(datagram) {
        Some(h) => match parse_icmp(h.payload) {
            Some(m) => if correlates_v4(m, sent) {
                Some(h.fixed.subrange(12, 16))
            } else {
                None
            },
            None => None,
        },
        None => None,
    }
}

/// Whether an ICMPv6 message (no IP header: the socket strips it) answers `sent`.
pub open spec fn answers_v6(message: Seq<u8>, sent: Seq<u8>) -> bool {
    match parse_icmp(message) {
        Some(m) => correlates_v6(m, sent),
        None => false,
    }
}

/// What to do after one receive on a socket that may see other flows.
#[derive(Debug)]
pub enum WaitStep<T> {
    /// The reply arrived; `T` names who sent it.
    Matched(T),
    /// The datagram belongs to someone else: receive again, for at most
    /// this many milliseconds.
    KeepWaiting(u32),
    /// The exchange is over without a reply.
    Failed(PingError),
}

/// The step after a datagram that answers nothing, `elapsed_ms` into a
/// window of `timeout_ms`.
pub open spec fn unrelated_step<T>(elapsed_ms: u64, timeout_ms: u32) -> WaitStep<T> {
    if elapsed_ms >= timeout_ms {
        WaitStep::Failed(PingError::SharedError(SharedError::Timeout))
    } else {
        WaitStep::KeepWaiting((timeout_ms - elapsed_ms) as u32)
    }
}

/// The seconds and microseconds of a receive timeout of `millis` ms.
pub fn split_timeout(millis: u32) -> (r: (u32, u32))
    ensures
        r.0 == millis / 1000,
        r.1 == (millis % 1000) * 1000,
        r.0 * 1_000_000 + r.1 == millis * 1000,
        r.1 < 1_000_000,
{
    (millis / 1000, (millis % 1000) * 1000)
}

/// The responder of an IPv4 datagram that answers `sent`.
pub fn resolve_reply_v4(datagram: &[u8], sent: &IcmpDataForPing) -> (r: Option<[u8; 4]>)
    ensures
        r is None <==> reply_source_v4(datagram@, sent@) is None,
        r matches Some(a) ==> reply_source_v4(datagram@, sent@) == Some(a@),
{
    match Ipv4Header::from_slice(datagram) {
        Some(header) => match IcmpFormat::from_header_v4(&header) {
            Some(format) => match format.check_is_correspond_v4(sent) {
                Some(_) => Some(header.get_source_address()),
                None => None,
            },
            None => None,
        },
        None => None,
    }
}

/// Whether an ICMPv6 message answers `sent`.
pub fn resolve_reply_v6(message: &[u8], sent: &IcmpDataForPing) -> (r: bool)
    ensures
        r == answers_v6(message@, sent@),
{
    match IcmpFormat::from_slice(message) {
        Some(format) => format.check_is_correspond_v6(sent).is_some(),
        None => false,
    }
}

/// The outcome of the one receive of a connected IPv4 socket: a failed
/// receive is mapped, a datagram that answers nothing is `ResolveRecvFailed`.
pub fn finish_connected_v4(received: Result<&[u8], i32>, sent: &IcmpDataForPing) -> (r: Result<
    (),
    PingError,
>)
    ensures
        received matches Err(e) ==> r == Err::<(), PingError>(recv_error(e)),
        received matches Ok(d) ==> (r is Ok <==> reply_source_v4(d@, sent@) is Some),
        received matches Ok(d) ==> (r is Err ==> r == Err::<(), PingError>(
            PingError::LinuxError(LinuxError::ResolveRecvFailed),
        )),
{
    match received {
        Err(e) => Err(LinuxError::convert_recv_failed(e)),
        Ok(datagram) => match resolve_reply_v4(datagram, sent) {
            Some(_) => Ok(()),
            None => Err(PingError::LinuxError(LinuxError::ResolveRecvFailed)),
        },
    }
}

/// The outcome of the one receive of a connected IPv6 socket.
pub fn finish_connected_v6(received: Result<&[u8], i32>, sent: &IcmpDataForPing) -> (r: Result<
    (),
    PingError,
>)
    ensures
        received matches Err(e) ==> r == Err::<(), PingError>(recv_error(e)),
        received matches Ok(m) ==> (r is Ok <==> answers_v6(m@, sent@)),
        received matches Ok(m) ==> (r is Err ==> r == Err::<(), PingError>(
            PingError::LinuxError(LinuxError::ResolveRecvFailed),
        )),
{
    match received {
        Err(e) => Err(LinuxError::convert_recv_failed(e)),
        Ok(message) => if resolve_reply_v6(message, sent) {
            Ok(())
        } else {
            Err(PingError::LinuxError(LinuxError::ResolveRecvFailed))
        },
    }
}

/// The step after one receive on an unconnected IPv4 socket, `elapsed_ms`
/// after the request went out, with a window of `timeout_ms`: a reply
/// gives its sender, a failed receive ends the exchange, and an unrelated
/// datagram means waiting on for what is left of the window.
pub fn next_step_v4(
    received: Result<&[u8], i32>,
    sent: &IcmpDataForPing,
    elapsed_ms: u64,
    timeout_ms: u32,
) -> (r: WaitStep<[u8; 4]>)
    ensures
        received matches Err(e) ==> r == WaitStep::<[u8; 4]>::Failed(recv_error(e)),
        received matches Ok(d) ==> match reply_source_v4(d@, sent@) {
            Some(a) => r matches WaitStep::Matched(b) && b@ == a,
            None => r == unrelated_step::<[u8; 4]>(elapsed_ms, timeout_ms),
        },
{
    match received {
        Err(e) => WaitStep::Failed(LinuxError::convert_recv_failed(e)),
        Ok(datagram) => match resolve_reply_v4(datagram, sent) {
            Some(address) => WaitStep::Matched(address),
            None => keep_waiting(elapsed_ms, timeout_ms),
        },
    }
}

/// The step after one receive on an unconnected IPv6 socket; `source` is
/// the sender the receive call reported, if any.
pub fn next_step_v6(
    received: Result<(&[u8], Option<[u8; 16]>), i32>,
    sent: &IcmpDataForPing,
    elapsed_ms: u64,
    timeout_ms: u32,
) -> (r: WaitStep<[u8; 16]>)
    ensures
        received matches Err(e) ==> r == WaitStep::<[u8; 16]>::Failed(recv_error(e)),
        received matches Ok((_, None)) ==> r == WaitStep::<[u8; 16]>::Failed(
            PingError::LinuxError(LinuxError::MissRespondAddr),
        ),
        received matches Ok((m, Some(a))) ==> if answers_v6(m@, sent@) {
            r == WaitStep::<[u8; 16]>::Matched(a)
        } else {
            r == unrelated_step::<[u8; 16]>(elapsed_ms, timeout_ms)
        },
{
    match received {
        Err(e) => WaitStep::Failed(LinuxError::convert_recv_failed(e)),
        Ok((_, None)) => WaitStep::Failed(PingError::LinuxError(LinuxError::MissRespondAddr)),
        Ok((message, Some(address))) => if resolve_reply_v6(message, sent) {
            WaitStep::Matched(address)
        } else {
            keep_waiting(elapsed_ms, timeout_ms)
        },
    }
}

fn keep_waiting<T>(elapsed_ms: u64, timeout_ms: u32) -> (r: WaitStep<T>)
    ensures
        r == unrelated_step::<T>(elapsed_ms, timeout_ms),
{
    if elapsed_ms >= timeout_ms as u64 {
        WaitStep::Failed(PingError::SharedError(SharedError::Timeout))
    } else {
        WaitStep::KeepWaiting((timeout_ms as u64 - elapsed_ms) as u32)
    }
}

} // verus!
