use rps_ping_lib::{
    check_parse_error, check_reply_count, finish_connected_v4, finish_connected_v6, next_step_v4,
    next_step_v6, reply_address_v4, reply_address_v6, resolve_reply_v4, resolve_reply_v6,
    solve_recv_error, split_timeout, IcmpDataForPing, IpOptionInformation, IpOptions, LinuxError,
    PingError, SharedError, UnMut, WaitStep, WindowsError,
};

const TOKEN: [u8; 16] = [
    0xa0, 0xa1, 0xa2, 0xa3, 0xa4, 0xa5, 0xa6, 0xa7, 0xa8, 0xa9, 0xaa, 0xab, 0xac, 0xad, 0xae, 0xaf,
];

fn ipv4_datagram(src: [u8; 4], icmp: &[u8]) -> Vec<u8> {
    let mut d = vec![0x45u8, 0, 0, 48, 0, 0, 0, 0, 57, 1, 0, 0];
    d.extend_from_slice(&src);
    d.extend_from_slice(&[192, 168, 2, 6]);
    d.extend_from_slice(icmp);
    d
}

fn echo_reply(icmp_type: u8, token: &[u8]) -> Vec<u8> {
    let mut m = vec![icmp_type, 0, 0x12, 0x34];
    m.extend_from_slice(token);
    m
}

#[test]
fn echo_reply_v4_resolves_to_sender() {
    let sent = IcmpDataForPing::from_token_v4(TOKEN);
    let datagram = ipv4_datagram([1, 1, 1, 1], &echo_reply(0, &TOKEN));
    assert_eq!(resolve_reply_v4(&datagram, &sent), Some([1, 1, 1, 1]));
    assert!(finish_connected_v4(Ok(&datagram), &sent).is_ok());
    match next_step_v4(Ok(&datagram), &sent, 3, 1000) {
        WaitStep::Matched(a) => assert_eq!(a, [1, 1, 1, 1]),
        other => panic!("unexpected {:?}", other),
    }
}

#[test]
fn time_exceeded_v4_resolves_to_router() {
    let sent = IcmpDataForPing::from_token_v4(TOKEN);
    let b = sent.get_inner();
    let embedded = ipv4_datagram([192, 168, 2, 6], &[8, 0, b[2], b[3], 0xff, 0xff, 0xff, 0xff]);
    let mut body = vec![11u8, 0, 0, 0, 0, 0, 0, 0];
    body.extend_from_slice(&embedded);
    let datagram = ipv4_datagram([10, 9, 8, 7], &body);
    assert_eq!(resolve_reply_v4(&datagram, &sent), Some([10, 9, 8, 7]));
}

#[test]
fn unrelated_datagram_keeps_waiting_then_times_out() {
    let sent = IcmpDataForPing::from_token_v4(TOKEN);
    let datagram = ipv4_datagram([1, 1, 1, 1], &echo_reply(0, &[0u8; 16]));
    assert_eq!(resolve_reply_v4(&datagram, &sent), None);
    match next_step_v4(Ok(&datagram), &sent, 300, 1000) {
        WaitStep::KeepWaiting(left) => assert_eq!(left, 700),
        other => panic!("unexpected {:?}", other),
    }
    match next_step_v4(Ok(&datagram), &sent, 1000, 1000) {
        WaitStep::Failed(PingError::SharedError(SharedError::Timeout)) => {}
        other => panic!("unexpected {:?}", other),
    }
    match finish_connected_v4(Ok(&datagram), &sent) {
        Err(PingError::LinuxError(LinuxError::ResolveRecvFailed)) => {}
        other => panic!("unexpected {:?}", other),
    }
    match finish_connected_v4(Ok(&[0x45u8, 0, 0][..]), &sent) {
        Err(PingError::LinuxError(LinuxError::ResolveRecvFailed)) => {}
        other => panic!("unexpected {:?}", other),
    }
}

#[test]
fn receive_timeout_is_timeout_error() {
    let sent = IcmpDataForPing::from_token_v4(TOKEN);
    match finish_connected_v4(Err(11), &sent) {
        Err(PingError::SharedError(SharedError::Timeout)) => {}
        other => panic!("unexpected {:?}", other),
    }
    match next_step_v4(Err(11), &sent, 1000, 1000) {
        WaitStep::Failed(PingError::SharedError(SharedError::Timeout)) => {}
        other => panic!("unexpected {:?}", other),
    }
    let sent6 = IcmpDataForPing::from_token_v6(TOKEN);
    match next_step_v6(Err(11), &sent6, 1000, 1000) {
        WaitStep::Failed(PingError::SharedError(SharedError::Timeout)) => {}
        other => panic!("unexpected {:?}", other),
    }
}

#[test]
fn receive_errors_are_mapped() {
    assert!(matches!(
        LinuxError::convert_recv_failed(101),
        PingError::SharedError(SharedError::Unreachable)
    ));
    assert!(matches!(
        LinuxError::convert_recv_failed(4),
        PingError::LinuxError(LinuxError::RecvFailed(4))
    ));
    assert!(matches!(
        LinuxError::convert_setup_failed(1),
        PingError::SharedError(SharedError::NoElevatedPrivilege)
    ));
    assert!(matches!(
        LinuxError::convert_setup_failed(24),
        PingError::LinuxError(LinuxError::SocketSetupFailed(24))
    ));
    let sent6 = IcmpDataForPing::from_token_v6(TOKEN);
    match finish_connected_v6(Err(101), &sent6) {
        Err(PingError::SharedError(SharedError::Unreachable)) => {}
        other => panic!("unexpected {:?}", other),
    }
}

#[test]
fn echo_reply_v6_steps() {
    let sent = IcmpDataForPing::from_token_v6(TOKEN);
    let reply = echo_reply(129, &TOKEN);
    let source = [0x20u8, 1, 0xd, 0xb8, 0, 0, 0, 0, 0, 0, 0, 0, 0, 0, 0, 1];
    assert!(resolve_reply_v6(&reply, &sent));
    assert!(finish_connected_v6(Ok(&reply), &sent).is_ok());
    match next_step_v6(Ok((&reply, Some(source))), &sent, 5, 200) {
        WaitStep::Matched(a) => assert_eq!(a, source),
        other => panic!("unexpected {:?}", other),
    }
    match next_step_v6(Ok((&reply, None)), &sent, 5, 200) {
        WaitStep::Failed(PingError::LinuxError(LinuxError::MissRespondAddr)) => {}
        other => panic!("unexpected {:?}", other),
    }
    let unrelated = echo_reply(129, &[0u8; 16]);
    assert!(!resolve_reply_v6(&unrelated, &sent));
    match next_step_v6(Ok((&unrelated, Some(source))), &sent, 50, 200) {
        WaitStep::KeepWaiting(left) => assert_eq!(left, 150),
        other => panic!("unexpected {:?}", other),
    }
    match finish_connected_v6(Ok(&unrelated), &sent) {
        Err(PingError::LinuxError(LinuxError::ResolveRecvFailed)) => {}
        other => panic!("unexpected {:?}", other),
    }
}

#[test]
fn timeout_splits_into_seconds_and_micros() {
    assert_eq!(split_timeout(1000), (1, 0));
    assert_eq!(split_timeout(1234), (1, 234_000));
    assert_eq!(split_timeout(200), (0, 200_000));
    assert_eq!(split_timeout(u32::MAX), (4_294_967, 295_000));
}

#[test]
fn host_error_codes_are_mapped() {
    assert!(matches!(solve_recv_error(11010), PingError::SharedError(SharedError::Timeout)));
    assert!(matches!(solve_recv_error(1231), PingError::SharedError(SharedError::Unreachable)));
    assert!(matches!(
        solve_recv_error(87),
        PingError::WindowsError(WindowsError::InvalidParameter)
    ));
    assert!(matches!(
        solve_recv_error(5),
        PingError::WindowsError(WindowsError::UnknownError(5))
    ));
}

#[test]
fn host_reply_count_and_parse_result() {
    assert!(check_reply_count(1, 0).is_ok());
    assert!(matches!(
        check_reply_count(0, 11010),
        Err(PingError::SharedError(SharedError::Timeout))
    ));
    assert!(check_parse_error(0, 0, 9).is_ok());
    assert!(matches!(
        check_parse_error(1, 0, 9),
        Err(PingError::WindowsError(WindowsError::IcmpParseRepliesError(9)))
    ));
}

#[test]
fn host_reply_addresses() {
    let buf: Vec<u8> = (0u8..32).collect();
    assert_eq!(reply_address_v4(&buf), [0, 1, 2, 3]);
    assert_eq!(
        reply_address_v6(&buf),
        [6, 7, 8, 9, 10, 11, 12, 13, 14, 15, 16, 17, 18, 19, 20, 21]
    );
}

#[test]
fn option_block_carries_ttl() {
    let info = IpOptionInformation::new(50);
    let options = *info.0.as_ref().unwrap().as_const_ref();
    assert_eq!(options, IpOptions { ttl: 50, tos: 0, flags: 0, options_size: 0 });
    assert_eq!(*UnMut::new(3u8).as_const_ref(), 3);
}

#[test]
fn errors_convert_into_ping_error() {
    assert!(matches!(PingError::from(SharedError::Timeout), PingError::SharedError(_)));
    assert!(matches!(
        PingError::from(LinuxError::NullPtr),
        PingError::LinuxError(LinuxError::NullPtr)
    ));
    assert!(matches!(
        PingError::from(WindowsError::IcmpCreateFileError(String::from("x"))),
        PingError::WindowsError(WindowsError::IcmpCreateFileError(_))
    ));
}
