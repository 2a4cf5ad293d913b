use rps_ping_lib::{Ipv4Header, Ipv6Header};

#[test]
fn test_ipv4_header() {
    let slice: &[u8] = &[
        69, 0, 0, 42, 133, 30, 0, 0, 55, 1, 58, 5, 1, 1, 1, 1, 192, 168, 2, 6, 0, 0, 136, 240, 0,
        0, 230, 74, 163, 38, 61, 106, 234, 34, 235, 11, 213, 222, 158, 115, 102, 178,
    ];
    let header = Ipv4Header::from_slice(&slice).unwrap();
    assert_eq!(
        header.get_fixed_header(),
        [69, 0, 0, 42, 133, 30, 0, 0, 55, 1, 58, 5, 1, 1, 1, 1, 192, 168, 2, 6]
    );
    assert_eq!(
        header.get_payload(),
        [
            0, 0, 136, 240, 0, 0, 230, 74, 163, 38, 61, 106, 234, 34, 235, 11, 213, 222, 158, 115,
            102, 178
        ]
    );
}

#[test]
fn test_ipv6_header() {
    let slice = [
        0x60, 0x00, 0x00, 0x00, 0x00, 0x20, 0x00, 0x01, 0xfe, 0x80, 0x00, 0x00, 0x00, 0x00, 0x00,
        0x00, 0x00, 0x00, 0x00, 0x00, 0x00, 0x00, 0x00, 0x01, 0xff, 0x02, 0x00, 0x00, 0x00, 0x00,
        0x00, 0x00, 0x00, 0x00, 0x00, 0x00, 0x00, 0x00, 0x00, 0x01, 0x3a, 0x00, 0x01, 0x00, 0x05,
        0x02, 0x00, 0x00, 0x82, 0x00, 0x80, 0x1d, 0x00, 0x0a, 0x00, 0x00, 0x00, 0x00, 0x00, 0x00,
        0x00, 0x00, 0x00, 0x00, 0x00, 0x00, 0x00, 0x00, 0x00, 0x00, 0x00, 0x00,
    ];
    let header = Ipv6Header::from_slice(&slice).unwrap();
    assert_eq!(
        header.get_headers()[0],
        (0, &[58, 0, 1, 0, 5, 2, 0, 0][..])
    );
    assert_eq!(
        header.get_headers()[1],
        (
            58,
            &[130, 0, 128, 29, 0, 10, 0, 0, 0, 0, 0, 0, 0, 0, 0, 0, 0, 0, 0, 0, 0, 0, 0, 0][..]
        )
    );
}

/// A 40-byte fixed IPv6 part naming `next` and declaring `payload_len`.
fn ipv6_fixed(next: u8, payload_len: u16) -> Vec<u8> {
    let mut fixed = vec![0u8; 40];
    fixed[0] = 0x60;
    fixed[4] = (payload_len >> 8) as u8;
    fixed[5] = payload_len as u8;
    fixed[6] = next;
    fixed[7] = 64;
    fixed
}

#[test]
fn ipv4_header_with_options_covers_buffer() {
    let mut buf = vec![0x46u8, 0, 0, 30];
    buf.extend_from_slice(&[0, 0, 0, 0, 64, 1, 0, 0, 10, 0, 0, 1, 10, 0, 0, 2]);
    buf.extend_from_slice(&[1, 1, 1, 0]);
    buf.extend_from_slice(&[0, 0, 0xff, 0xff, 7, 8]);
    let header = Ipv4Header::from_slice(&buf).unwrap();
    assert_eq!(header.get_fixed_header().len(), 20);
    assert_eq!(header.get_options(), [1, 1, 1, 0]);
    assert_eq!(header.get_payload(), [0, 0, 0xff, 0xff, 7, 8]);
    let total =
        header.get_fixed_header().len() + header.get_options().len() + header.get_payload().len();
    assert_eq!(total, buf.len());
    assert_eq!(header.get_source_address(), [10, 0, 0, 1]);
}

#[test]
fn ipv4_header_too_short_is_rejected() {
    assert!(Ipv4Header::from_slice(&[0x45u8; 19]).is_none());
    // Header length nibble 15 asks for 60 bytes.
    let mut buf = vec![0x4fu8];
    buf.extend_from_slice(&[0u8; 39]);
    assert!(Ipv4Header::from_slice(&buf).is_none());
}

#[test]
fn ipv4_header_ignores_wrong_total_length() {
    let mut buf = vec![0x45u8, 0, 0xff, 0xff];
    buf.extend_from_slice(&[0u8; 16]);
    buf.extend_from_slice(&[9, 9]);
    let header = Ipv4Header::from_slice(&buf).unwrap();
    assert_eq!(header.get_payload(), [9, 9]);
}

#[test]
fn ipv6_chain_of_two_extension_headers() {
    // Hop-by-hop (length byte 0: 8 bytes) -> destination options (length
    // byte 16: 16 bytes) -> ICMPv6 (58).
    let hop = vec![60u8, 0, 1, 2, 3, 4, 5, 6];
    let mut dst = vec![58u8, 16];
    dst.extend_from_slice(&[7u8; 14]);
    let payload = vec![129u8, 0, 0, 0, 1, 2, 3, 4];
    let mut buf = ipv6_fixed(0, (hop.len() + dst.len() + payload.len()) as u16);
    buf.extend_from_slice(&hop);
    buf.extend_from_slice(&dst);
    buf.extend_from_slice(&payload);
    let header = Ipv6Header::from_slice(&buf).unwrap();
    let chain = header.get_headers();
    assert_eq!(chain.len(), 3);
    assert_eq!(chain[0], (0, &hop[..]));
    assert_eq!(chain[1], (60, &dst[..]));
    assert_eq!(chain[2], (58, &payload[..]));
    assert_eq!(header.get_payload(), Some(&payload[..]));
}

#[test]
fn ipv6_extension_length_zero_takes_eight_bytes() {
    let mut buf = ipv6_fixed(0, 12);
    buf.extend_from_slice(&[58, 0, 0, 0, 0, 0, 0, 0]);
    buf.extend_from_slice(&[1, 2, 3, 4]);
    let header = Ipv6Header::from_slice(&buf).unwrap();
    assert_eq!(header.get_headers()[0].1.len(), 8);
    assert_eq!(header.get_payload(), Some(&[1u8, 2, 3, 4][..]));
}

#[test]
fn ipv6_extension_length_nine_takes_sixteen_bytes() {
    let mut ext = vec![58u8, 9];
    ext.extend_from_slice(&[0u8; 14]);
    let mut buf = ipv6_fixed(43, 20);
    buf.extend_from_slice(&ext);
    buf.extend_from_slice(&[5, 6, 7, 8]);
    let header = Ipv6Header::from_slice(&buf).unwrap();
    assert_eq!(header.get_headers()[0], (43, &ext[..]));
    assert_eq!(header.get_headers()[0].1.len(), 16);
    assert_eq!(header.get_payload(), Some(&[5u8, 6, 7, 8][..]));
}

#[test]
fn ipv6_unassigned_next_header_mid_chain_fails() {
    let mut buf = ipv6_fixed(0, 12);
    buf.extend_from_slice(&[200, 0, 0, 0, 0, 0, 0, 0]);
    buf.extend_from_slice(&[1, 2, 3, 4]);
    assert!(Ipv6Header::from_slice(&buf).is_none());
}

#[test]
fn ipv6_experimental_and_reserved_next_header_fail() {
    for next in [146u8, 252, 253, 254, 255] {
        let mut buf = ipv6_fixed(next, 4);
        buf.extend_from_slice(&[1, 2, 3, 4]);
        assert!(Ipv6Header::from_slice(&buf).is_none());
    }
}

#[test]
fn ipv6_extension_running_past_buffer_fails() {
    // Length byte 24 asks for 24 bytes; only 10 follow.
    let mut buf = ipv6_fixed(44, 10);
    buf.extend_from_slice(&[58, 24, 0, 0, 0, 0, 0, 0, 0, 0]);
    assert!(Ipv6Header::from_slice(&buf).is_none());
    // A single byte where a header must start.
    let mut buf = ipv6_fixed(60, 1);
    buf.push(58);
    assert!(Ipv6Header::from_slice(&buf).is_none());
}

#[test]
fn ipv6_buffer_longer_than_declared_fails() {
    let mut buf = ipv6_fixed(58, 2);
    buf.extend_from_slice(&[1, 2, 3, 4]);
    assert!(Ipv6Header::from_slice(&buf).is_none());
    assert!(Ipv6Header::from_slice(&[0x60u8; 39]).is_none());
}

#[test]
fn ipv6_upper_layer_directly_after_fixed_part() {
    let mut buf = ipv6_fixed(145, 3);
    buf.extend_from_slice(&[1, 2, 3]);
    let header = Ipv6Header::from_slice(&buf).unwrap();
    assert_eq!(header.get_headers().len(), 1);
    assert_eq!(header.get_headers()[0], (145, &[1u8, 2, 3][..]));
}
