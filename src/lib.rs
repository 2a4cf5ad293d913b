//! ICMP echo engine: echo-request construction with the Internet checksum,
//! IPv4 / IPv6 header parsing (including the IPv6 extension-header chain),
//! correlation of received replies with the request that caused them, and the
//! decisions a transport makes around each send and receive.

mod checksum;
mod endian;
mod error;
mod host_api;
mod icmp;
mod ip_header;
mod raw_socket;
mod slice_operator;
mod slice_reader;
mod un_mut;

pub use checksum::{
    add_carry, checksum_of, ones_complement_sum, ones_sum, ones_sum_words, word_at, word_count,
};
pub use endian::{be_uint, pow256};
pub use error::{
    recv_error, setup_error, LinuxError, PingError, SharedError, WindowsError, EAGAIN, ENETUNREACH,
    EPERM,
};
pub use host_api::{
    check_parse_error, check_reply_count, host_error, reply_address_v4, reply_address_v6,
    solve_recv_error, IpOptionInformation, IpOptions, ERROR_INVALID_PARAMETER,
    ERROR_NETWORK_UNREACHABLE, IP_REQ_TIMED_OUT,
};
pub use icmp::{
    correlates_v4, correlates_v6, echo_reply_bytes, echo_request, embedded_icmp_v4,
    embedded_icmp_v6, lemma_altered_token_not_correlated, lemma_echo_reply_round_trip,
    lemma_request_sums_to_all_ones, parse_icmp, request_checksum, request_token, IcmpDataForPing,
    IcmpFormat, IcmpView, ECHO_REPLY_V4, ECHO_REPLY_V6, ECHO_REQUEST_V4, ECHO_REQUEST_V6,
    TIME_EXCEEDED_V4, TIME_EXCEEDED_V6,
};
pub use ip_header::{
    chain_entries, chain_view, concat_headers, extension_len, header_kind, ipv4_header_len,
    ipv6_chain, is_extension_header, is_header_chain, lemma_ipv4_regions_cover_buffer,
    lemma_ipv6_chain_entries, parse_ipv4, parse_ipv6, Ipv4Header, Ipv4View, Ipv6Header,
    Ipv6HeaderType,
};
pub use raw_socket::{
    answers_v6, finish_connected_v4, finish_connected_v6, next_step_v4, next_step_v6,
    reply_source_v4, resolve_reply_v4, resolve_reply_v6, split_timeout, unrelated_step, WaitStep,
};
pub use slice_operator::{wrote_be, SliceOperator};
pub use slice_reader::SliceReader;
pub use un_mut::UnMut;
