use crate::checksum::{
    checksum_of, lemma_ones_sum_positive, lemma_ones_sum_words, lemma_word_total_differs_at,
    ones_complement_sum, ones_sum, word_at,
};
use crate::ip_header::{parse_ipv4, parse_ipv6, Ipv4Header, Ipv6Header};
use vstd::prelude::*;

verus! {

/// ICMPv4 echo request.
pub const ECHO_REQUEST_V4: u8 = 8;

/// ICMPv4 echo reply.
pub const ECHO_REPLY_V4: u8 = 0;

/// ICMPv4 time exceeded.
pub const TIME_EXCEEDED_V4: u8 = 11;

/// ICMPv6 echo request.
pub const ECHO_REQUEST_V6: u8 = 128;

/// ICMPv6 echo reply.
pub const ECHO_REPLY_V6: u8 = 129;

/// ICMPv6 time exceeded, which carries the invoking packet.
pub const TIME_EXCEEDED_V6: u8 = 3;

/// The bytes of an echo request of type `icmp_type` carrying `token`: type,
/// code 0, the checksum computed over the buffer with a zeroed checksum
/// field, then the token.
pub open spec fn echo_request(icmp_type: u8, token: Seq<u8>) -> Seq<u8> {
    let c = checksum_of(seq![icmp_type, 0u8, 0u8, 0u8] + token);
    seq![icmp_type, 0u8, (c / 256) as u8, (c % 256) as u8] + token
}

/// The correlation token of a request: everything after the 4-byte header.
pub open spec fn request_token(sent: Seq<u8>) -> Seq<u8> {
    sent.subrange(4, sent.len() as int)
}

/// The checksum field of a request, as a number.
pub open spec fn request_checksum(sent: Seq<u8>) -> int {
    sent[2] * 256 + sent[3]
}

/// An echo request as sent: 4-byte ICMP header (type, code, checksum)
/// followed by a 16-byte random token.
pub struct IcmpDataForPing {
    data: [u8; 20],
}

impl View for IcmpDataForPing {
    type V = Seq<u8>;

    closed spec fn view(&self) -> Seq<u8> {
        self.data@
    }
}

/// Relies on rand::random: a value drawn from the thread-local generator.
/// Nothing is assumed of the value; it is handed back as 16 big-endian bytes.
#[verifier::external_body]
fn random_token() -> (r: [u8; 16]) {
    rand::random::<u128>().to_be_bytes()
}

impl IcmpDataForPing {
    /// Size in bytes of an echo request.
    pub const DATA_SIZE: usize = 20;

    /// A fresh ICMPv4 echo request with a random token.
    pub fn new_ping_v4() -> (r: Self)
        ensures
            r@ == echo_request(ECHO_REQUEST_V4, request_token(r@)),
            request_token(r@).len() == 16,
    {
        let token = random_token();
        let r = Self::from_token_v4(token);
        assert(request_token(r@) =~= token@);
        r
    }

    /// A fresh ICMPv6 echo request with a random token.
    pub fn new_ping_v6() -> (r: Self)
        ensures
            r@ == echo_request(ECHO_REQUEST_V6, request_token(r@)),
            request_token(r@).len() == 16,
    {
        let token = random_token();
        let r = Self::from_token_v6(token);
        assert(request_token(r@) =~= token@);
        r
    }

    /// The ICMPv4 echo request carrying `token`.
    pub fn from_token_v4(token: [u8; 16]) -> (r: Self)
        ensures
            r@ == echo_request(ECHO_REQUEST_V4, token@),
    {
        Self::build(ECHO_REQUEST_V4, token)
    }

    /// The ICMPv6 echo request carrying `token`.
    pub fn from_token_v6(token: [u8; 16]) -> (r: Self)
        ensures
            r@ == echo_request(ECHO_REQUEST_V6, token@),
    {
        Self::build(ECHO_REQUEST_V6, token)
    }

    fn build(icmp_type: u8, token: [u8; 16]) -> (r: Self)
        ensures
            r@ == echo_request(icmp_type, token@),
    {
        let mut data = [0u8; 20];
        data[0] = icmp_type;
        let mut i: usize = 0;
        while i < 16
            invariant
                i <= 16,
                data@.len() == 20,
                data@[0] == icmp_type,
                data@[1] == 0,
                data@[2] == 0,
                data@[3] == 0,
                forall|k: int| 0 <= k < i ==> #[trigger] data@[4 + k] == token@[k],
            decreases 16 - i,
        {
            data[4 + i] = token[i];
            i = i + 1;
        }
        assert forall|k: int| 4 <= k < 20 implies data@[k] == token@[k - 4] by {
            assert(data@[4 + (k - 4)] == token@[k - 4]);
        }
        assert(data@ =~= seq![icmp_type, 0u8, 0u8, 0u8] + token@);
        Self::process_check_sum(&mut data);
        let r = IcmpDataForPing { data };
        assert(r@ =~= echo_request(icmp_type, token@));
        r
    }

    /// Stores the one's complement of the buffer's ones'-complement sum in
    /// the checksum field (bytes 2 and 3, big-endian).
    fn process_check_sum(data: &mut [u8; 20])
        ensures
            final(data)@ == old(data)@.update(2, (checksum_of(old(data)@) / 256) as u8).update(
                3,
                (checksum_of(old(data)@) % 256) as u8,
            ),
    {
        let sum: u16 = ones_complement_sum(data.as_slice());
        let check: u16 = !sum;
        assert(check == 0xFFFF - sum) by (bit_vector)
            requires
                check == !sum,
        ;
        data[2] = (check / 256) as u8;
        data[3] = (check % 256) as u8;
    }

    fn icmp_type(&self) -> (r: u8)
        ensures
            r == self@[0],
    {
        self.data[0]
    }

    pub fn get_inner(&self) -> (r: &[u8; 20])
        ensures
            r@ == self@,
    {
        &self.data
    }

    /// Hands out the buffer for writing; the request holds afterwards what
    /// was written through the result.
    pub fn get_inner_mut(&mut self) -> (r: &mut [u8; 20])
        ensures
            r@ == old(self)@,
            final(self)@ == final(r)@,
    {
        &mut self.data
    }

    pub fn into_inner(self) -> (r: [u8; 20])
        ensures
            r@ == self@,
    {
        self.data
    }

    fn as_slice(&self) -> (r: &[u8])
        ensures
            r@ == self@,
    {
        self.data.as_slice()
    }
}

/// What an ICMP message parse yields: type, code, checksum, and the bytes
/// after the 4-byte header.
pub struct IcmpView {
    pub icmp_type: u8,
    pub code: u8,
    pub checksum: u16,
    pub rest: Seq<u8>,
}

/// ICMP message parse: fails on fewer than 4 bytes.
pub open spec fn parse_icmp(s: Seq<u8>) -> Option<IcmpView> {
    if s.len() < 4 {
        None
    } else {
        Some(
            IcmpView {
                icmp_type: s[0],
                code: s[1],
                checksum: (s[2] * 256 + s[3]) as u16,
                rest: s.subrange(4, s.len() as int),
            },
        )
    }
}

/// The ICMP message inside the IPv4 datagram that an ICMPv4 error carries
/// after its unused 4-byte word.
pub open spec fn embedded_icmp_v4(rest: Seq<u8>) -> Option<IcmpView> {
    if rest.len() < 4 {
        None
    } else {
        match parse_ipv4(rest.subrange(4, rest.len() as int)) {
            Some(h) => parse_icmp(h.payload),
            None => None,
        }
    }
}

/// The ICMPv6 message at the end of the header chain of the IPv6 packet that
/// an ICMPv6 error carries after its unused 4-byte word.
pub open spec fn embedded_icmp_v6(rest: Seq<u8>) -> Option<IcmpView> {
    if rest.len() < 4 {
        None
    } else {
        match parse_ipv6(rest.subrange(4, rest.len() as int)) {
            Some(chain) => if chain.len() > 0 {
                parse_icmp(chain.last().1)
            } else {
                None
            },
            None => None,
        }
    }
}

/// Whether an ICMPv4 message answers the request `sent`. An echo reply must
/// carry the request's token exactly. A time-exceeded report is matched on
/// the checksum field of the embedded request alone: routers often truncate
/// or zero the embedded payload, and the checksum, computed once per
/// request, serves as its 16-bit tag.
pub open spec fn correlates_v4(reply: IcmpView, sent: Seq<u8>) -> bool {
    &&& sent[0] == ECHO_REQUEST_V4
    &&& {
        ||| reply.icmp_type == ECHO_REPLY_V4 && reply.rest == request_token(sent)
        ||| reply.icmp_type == TIME_EXCEEDED_V4 && match embedded_icmp_v4(reply.rest) {
            Some(inner) => inner.checksum == request_checksum(sent),
            None => false,
        }
    }
}

/// Whether an ICMPv6 message answers the request `sent`. Both an echo reply
/// and the request embedded in a time-exceeded report must carry the
/// request's token exactly. The checksum is no tag here: for ICMPv6 it
/// covers a pseudo-header and is filled in by the sending host, so the one
/// computed locally is not the one that went out.
pub open spec fn correlates_v6(reply: IcmpView, sent: Seq<u8>) -> bool {
    &&& sent[0] == ECHO_REQUEST_V6
    &&& {
        ||| reply.icmp_type == ECHO_REPLY_V6 && reply.rest == request_token(sent)
        ||| reply.icmp_type == TIME_EXCEEDED_V6 && match embedded_icmp_v6(reply.rest) {
            Some(inner) => inner.rest == request_token(sent),
            None => false,
        }
    }
}

/// Whether two byte slices hold the same bytes.
fn same_bytes(a: &[u8], b: &[u8]) -> (r: bool)
    ensures
        r == (a@ == b@),
{
    if a.len() != b.len() {
        return false;
    }
    let mut i: usize = 0;
    while i < a.len()
        invariant
            a@.len() == b@.len(),
            i <= a@.len(),
            forall|k: int| 0 <= k < i ==> a@[k] == b@[k],
        decreases a@.len() - i,
    {
        if a[i] != b[i] {
            return false;
        }
        i = i + 1;
    }
    assert(a@ =~= b@);
    true
}

/// A received ICMP message borrowing the receive buffer.
#[derive(Debug)]
pub struct IcmpFormat<'a> {
    icmp_type: u8,
    code: u8,
    checksum: u16,
    other_data: &'a [u8],
}

impl<'a> View for IcmpFormat<'a> {
    type V = IcmpView;

    closed spec fn view(&self) -> IcmpView {
        IcmpView {
            icmp_type: self.icmp_type,
            code: self.code,
            checksum: self.checksum,
            rest: self.other_data@,
        }
    }
}

impl<'a> IcmpFormat<'a> {
    pub fn from_slice(slice: &'a [u8]) -> (r: Option<IcmpFormat<'a>>)
        ensures
            r is None <==> parse_icmp(slice@) is None,
            r matches Some(f) ==> parse_icmp(slice@) == Some(f@),
    {
        if slice.len() < 4 {
            None
        } else {
            Some(
                IcmpFormat {
                    icmp_type: slice[0],
                    code: slice[1],
                    checksum: slice[2] as u16 * 256 + slice[3] as u16,
                    other_data: &slice[4..slice.len()],
                },
            )
        }
    }

    /// The ICMP message carried as the payload of an IPv4 datagram.
    pub fn from_header_v4(header: &Ipv4Header<'a>) -> (r: Option<IcmpFormat<'a>>)
        ensures
            r is None <==> parse_icmp(header@.payload) is None,
            r matches Some(f) ==> parse_icmp(header@.payload) == Some(f@),
    {
        IcmpFormat::from_slice(header.get_payload())
    }

    pub fn icmp_type(&self) -> (r: u8)
        ensures
            r == self@.icmp_type,
    {
        self.icmp_type
    }

    /// Whether this ICMPv4 message answers `data`.
    pub fn check_is_correspond_v4(&self, data: &IcmpDataForPing) -> (r: Option<()>)
        ensures
            r is Some <==> correlates_v4(self@, data@),
    {
        let token: &[u8] = &data.get_inner()[4..20];
        assert(token@ == request_token(data@));
        if data.icmp_type() != ECHO_REQUEST_V4 {
            return None;
        }
        if self.icmp_type == ECHO_REPLY_V4 {
            if same_bytes(self.other_data, token) {
                Some(())
            } else {
                None
            }
        } else if self.icmp_type == TIME_EXCEEDED_V4 {
            if self.other_data.len() < 4 {
                return None;
            }
            let embedded: &'a [u8] = &self.other_data[4..self.other_data.len()];
            match Ipv4Header::from_slice(embedded) {
                Some(header) => match IcmpFormat::from_header_v4(&header) {
                    Some(inner) => {
                        let sent = data.get_inner();
                        if inner.checksum == sent[2] as u16 * 256 + sent[3] as u16 {
                            Some(())
                        } else {
                            None
                        }
                    },
                    None => None,
                },
                None => None,
            }
        } else {
            None
        }
    }

    /// Whether this ICMPv6 message answers `data`.
    pub fn check_is_correspond_v6(&self, data: &IcmpDataForPing) -> (r: Option<()>)
        ensures
            r is Some <==> correlates_v6(self@, data@),
    {
        let token: &[u8] = &data.get_inner()[4..20];
        assert(token@ == request_token(data@));
        if data.icmp_type() != ECHO_REQUEST_V6 {
            return None;
        }
        if self.icmp_type == ECHO_REPLY_V6 {
            if same_bytes(self.other_data, token) {
                Some(())
            } else {
                None
            }
        } else if self.icmp_type == TIME_EXCEEDED_V6 {
            if self.other_data.len() < 4 {
                return None;
            }
            let embedded: &'a [u8] = &self.other_data[4..self.other_data.len()];
            match Ipv6Header::from_slice(embedded) {
                Some(header) => match header.get_payload() {
                    Some(payload) => match IcmpFormat::from_slice(payload) {
                        Some(inner) => if same_bytes(inner.other_data, token) {
                            Some(())
                        } else {
                            None
                        },
                        None => None,
                    },
                    None => None,
                },
                None => None,
            }
        } else {
            None
        }
    }
}

/// The buffer of every echo request, checksum field included, has a
/// ones'-complement sum of `0xFFFF`: the receiver's checksum test passes.
pub proof fn lemma_request_sums_to_all_ones(icmp_type: u8, token: Seq<u8>)
    requires
        token.len() == 16,
    ensures
        ones_sum(echo_request(icmp_type, token)) == 0xFFFF,
{
    let z = seq![icmp_type, 0u8, 0u8, 0u8] + token;
    let c = checksum_of(z);
    let r = echo_request(icmp_type, token);
    lemma_ones_sum_words(z, 10);
    lemma_ones_sum_words(r, 10);
    assert(word_at(r, 1) == c);
    assert(word_at(z, 1) == 0);
    assert forall|i: int| 0 <= i < 10 && i != 1 implies word_at(z, i) == word_at(r, i) by {
        assert(z[2 * i] == r[2 * i]);
        assert(z[2 * i + 1] == r[2 * i + 1]);
    }
    lemma_word_total_differs_at(z, r, 10, 1);
    if c == 0 {
        assert(r =~= z);
    } else {
        lemma_ones_sum_positive(r, 10, 1);
    }
}

/// An echo reply of type `reply_type` with code 0, the given checksum, and
/// `token` as its data.
pub open spec fn echo_reply_bytes(reply_type: u8, checksum: u16, token: Seq<u8>) -> Seq<u8> {
    seq![reply_type, 0u8, (checksum / 256) as u8, (checksum % 256) as u8] + token
}

/// An echo request answered by an echo reply that carries its token is
/// correlated with it, for IPv4 and IPv6 alike, whatever the reply's checksum.
pub proof fn lemma_echo_reply_round_trip(token: Seq<u8>, checksum: u16)
    requires
        token.len() == 16,
    ensures
        parse_icmp(echo_reply_bytes(ECHO_REPLY_V4, checksum, token)) matches Some(v)
            && correlates_v4(v, echo_request(ECHO_REQUEST_V4, token)),
        parse_icmp(echo_reply_bytes(ECHO_REPLY_V6, checksum, token)) matches Some(v)
            && correlates_v6(v, echo_request(ECHO_REQUEST_V6, token)),
{
    assert(request_token(echo_request(ECHO_REQUEST_V4, token)) =~= token);
    assert(request_token(echo_request(ECHO_REQUEST_V6, token)) =~= token);
    assert(parse_icmp(echo_reply_bytes(ECHO_REPLY_V4, checksum, token))->Some_0.rest =~= token);
    assert(parse_icmp(echo_reply_bytes(ECHO_REPLY_V6, checksum, token))->Some_0.rest =~= token);
}

/// An echo reply whose token differs from the request's in one byte is not
/// correlated with the request, for IPv4 and IPv6 alike.
pub proof fn lemma_altered_token_not_correlated(token: Seq<u8>, checksum: u16, k: int, b: u8)
    requires
        token.len() == 16,
        0 <= k < 16,
        b != token[k],
    ensures
        parse_icmp(echo_reply_bytes(ECHO_REPLY_V4, checksum, token.update(k, b))) matches Some(v)
            && !correlates_v4(v, echo_request(ECHO_REQUEST_V4, token)),
        parse_icmp(echo_reply_bytes(ECHO_REPLY_V6, checksum, token.update(k, b))) matches Some(v)
            && !correlates_v6(v, echo_request(ECHO_REQUEST_V6, token)),
{
    let altered = token.update(k, b);
    assert(request_token(echo_request(ECHO_REQUEST_V4, token)) =~= token);
    assert(request_token(echo_request(ECHO_REQUEST_V6, token)) =~= token);
    let v4 = parse_icmp(echo_reply_bytes(ECHO_REPLY_V4, checksum, altered))->Some_0;
    let v6 = parse_icmp(echo_reply_bytes(ECHO_REPLY_V6, checksum, altered))->Some_0;
    assert(v4.rest =~= altered);
    assert(v6.rest =~= altered);
    assert(altered[k] != token[k]);
}

} // verus!
