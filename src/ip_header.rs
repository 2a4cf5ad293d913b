use crate::endian::lemma_slice_len_fits;
use vstd::prelude::*;

verus! {

/// What an IPv4 header parse yields: the fixed 20-byte prefix, the options
/// region up to the declared header length, and the payload after it.
pub struct Ipv4View {
    pub fixed: Seq<u8>,
    pub options: Seq<u8>,
    pub payload: Seq<u8>,
}

/// The header length declared by the low nibble of byte 0, in bytes.
pub open spec fn ipv4_header_len(s: Seq<u8>) -> int {
    (s[0] % 16) * 4
}

/// IPv4 header parse. Only the header-length nibble bounds the regions: the
/// total-length field is not consulted, as routers often send embedded
/// datagrams whose total length is wrong.
pub open spec fn parse_ipv4(s: Seq<u8>) -> Option<Ipv4View> {
    if s.len() < 20 || s.len() < ipv4_header_len(s) {
        None
    } else {
        let hl = ipv4_header_len(s);
        Some(
            Ipv4View {
                fixed: s.subrange(0, 20),
                options: if hl > 20 {
                    s.subrange(20, hl)
                } else {
                    Seq::empty()
                },
                payload: s.subrange(hl, s.len() as int),
            },
        )
    }
}

/// A parsed IPv4 header borrowing the receive buffer.
#[derive(Debug)]
pub struct Ipv4Header<'a> {
    fix_slice: &'a [u8],
    op_slice: &'a [u8],
    payload_slice: &'a [u8],
}

impl<'a> View for Ipv4Header<'a> {
    type V = Ipv4View;

    closed spec fn view(&self) -> Ipv4View {
        Ipv4View { fixed: self.fix_slice@, options: self.op_slice@, payload: self.payload_slice@ }
    }
}

impl<'a> Ipv4Header<'a> {
    /// Size of the fixed part of an IPv4 header.
    pub const FIXED_HEADER_SIZE: u16 = 20;

    #[verifier::type_invariant]
    spec fn inv(self) -> bool {
        self.fix_slice@.len() == 20
    }

    pub fn from_slice(slice: &'a [u8]) -> (r: Option<Ipv4Header<'a>>)
        ensures
            r is None <==> parse_ipv4(slice@) is None,
            r matches Some(h) ==> parse_ipv4(slice@) == Some(h@),
    {
        if slice.len() < 20 {
            return None;
        }
        let header_length: usize = (slice[0] % 16) as usize * 4;
        if slice.len() < header_length {
            return None;
        }
        let op_slice: &'a [u8] = if header_length > 20 {
            &slice[20..header_length]
        } else {
            &slice[20..20]
        };
        let h = Ipv4Header {
            fix_slice: &slice[0..20],
            op_slice,
            payload_slice: &slice[header_length..slice.len()],
        };
        assert(op_slice@ =~= parse_ipv4(slice@)->Some_0.options);
        Some(h)
    }

    /// The fixed 20-byte part of the header.
    pub fn get_fixed_header(&self) -> (r: &'a [u8])
        ensures
            r@ == self@.fixed,
    {
        self.fix_slice
    }

    /// The options between the fixed part and the declared header length.
    pub fn get_options(&self) -> (r: &'a [u8])
        ensures
            r@ == self@.options,
    {
        self.op_slice
    }

    /// The source address, bytes 12 to 16 of the header.
    pub fn get_source_address(&self) -> (r: [u8; 4])
        ensures
            r@ == self@.fixed.subrange(12, 16),
    {
        proof {
            use_type_invariant(self);
        }
        let r = [self.fix_slice[12], self.fix_slice[13], self.fix_slice[14], self.fix_slice[15]];
        assert(r@ =~= self@.fixed.subrange(12, 16));
        r
    }

    pub fn get_payload(&self) -> (r: &'a [u8])
        ensures
            r@ == self@.payload,
    {
        self.payload_slice
    }
}

/// Of an IPv4 buffer at least 20 bytes long whose header-length nibble
/// `h` satisfies `5 <= h` and `4h <= len`, the parser returns the fixed
/// part, options and payload that together are exactly the buffer, and the
/// source address is bytes 12 to 16 of the buffer.
pub proof fn lemma_ipv4_regions_cover_buffer(s: Seq<u8>)
    requires
        s.len() >= 20,
        5 <= s[0] % 16,
        ipv4_header_len(s) <= s.len(),
    ensures
        parse_ipv4(s) is Some,
        parse_ipv4(s)->Some_0.fixed + parse_ipv4(s)->Some_0.options
            + parse_ipv4(s)->Some_0.payload == s,
        parse_ipv4(s)->Some_0.fixed.len() + parse_ipv4(s)->Some_0.options.len()
            + parse_ipv4(s)->Some_0.payload.len() == s.len(),
        parse_ipv4(s)->Some_0.fixed.subrange(12, 16) == s.subrange(12, 16),
{
    let v = parse_ipv4(s)->Some_0;
    assert(v.fixed + v.options + v.payload =~= s);
    assert(v.fixed.subrange(12, 16) =~= s.subrange(12, 16));
}

/// Next-header values that introduce an extension header: Hop-by-Hop (0),
/// Routing (43), Fragment (44), ESP (50), AH (51), Destination Options (60).
pub open spec fn is_extension_header(t: u8) -> bool {
    t == 0 || t == 43 || t == 44 || t == 50 || t == 51 || t == 60
}

/// How a next-header value is treated while walking the chain.
#[derive(Debug, PartialEq, Eq, Structural)]
pub enum Ipv6HeaderType {
    /// An extension header of the given type follows.
    Options(u8),
    /// An upper-layer protocol: the rest is the final payload.
    Uppers,
    Unassigned,
    Experimental,
    Reserved,
}

/// The class of a next-header value.
pub open spec fn header_kind(u: u8) -> Ipv6HeaderType {
    if is_extension_header(u) {
        Ipv6HeaderType::Options(u)
    } else if u <= 145 {
        Ipv6HeaderType::Uppers
    } else if u <= 252 {
        Ipv6HeaderType::Unassigned
    } else if u <= 254 {
        Ipv6HeaderType::Experimental
    } else {
        Ipv6HeaderType::Reserved
    }
}

impl Ipv6HeaderType {
    // Extension header types.
    const HOPOPT: u8 = 0;
    const IPV6_OPTS: u8 = 60;
    const IPV6_ROUTE: u8 = 43;
    const IPV6_FRAG: u8 = 44;
    const AH: u8 = 51;
    const ESP: u8 = 50;

    pub fn new(u: u8) -> (r: Ipv6HeaderType)
        ensures
            r == header_kind(u),
    {
        if u == Self::HOPOPT || u == Self::IPV6_OPTS || u == Self::IPV6_ROUTE || u == Self::IPV6_FRAG
            || u == Self::AH || u == Self::ESP {
            Ipv6HeaderType::Options(u)
        } else if u <= 145 {
            Ipv6HeaderType::Uppers
        } else if u <= 252 {
            Ipv6HeaderType::Unassigned
        } else if u <= 254 {
            Ipv6HeaderType::Experimental
        } else {
            Ipv6HeaderType::Reserved
        }
    }
}

/// Bytes taken by an extension header whose length byte is `b`: 8 for a
/// zero byte, else `b` rounded up to a multiple of 8.
pub open spec fn extension_len(b: u8) -> int {
    if b == 0 {
        8
    } else {
        ((b + 7) / 8) * 8
    }
}

/// Walks the extension-header chain that starts with next-header value
/// `next` over `rest`, giving each header's type and bytes in order and,
/// last, the upper-layer protocol number with the final payload. Fails on
/// an unassigned, experimental or reserved value, or where a header would
/// run past the buffer.
pub open spec fn ipv6_chain(next: u8, rest: Seq<u8>) -> Option<Seq<(u8, Seq<u8>)>>
    decreases rest.len(),
{
    if is_extension_header(next) {
        if rest.len() < 2 || rest.len() < extension_len(rest[1]) {
            None
        } else {
            let size = extension_len(rest[1]);
            match ipv6_chain(rest[0], rest.subrange(size, rest.len() as int)) {
                Some(tail) => Some(seq![(next, rest.subrange(0, size))] + tail),
                None => None,
            }
        }
    } else if next <= 145 {
        Some(seq![(next, rest)])
    } else {
        None
    }
}

/// IPv6 header parse: the 40-byte fixed part, a buffer no longer than the
/// declared payload length allows, then the chain from the next-header byte.
pub open spec fn parse_ipv6(s: Seq<u8>) -> Option<Seq<(u8, Seq<u8>)>> {
    if s.len() < 40 {
        None
    } else if 40 + s[4] * 256 + s[5] < s.len() {
        None
    } else {
        ipv6_chain(s[6], s.subrange(40, s.len() as int))
    }
}

/// The chain entries with each slice seen as its bytes.
pub open spec fn chain_view(v: Seq<(u8, &[u8])>) -> Seq<(u8, Seq<u8>)> {
    v.map_values(|p: (u8, &[u8])| (p.0, p.1@))
}

/// A parsed IPv6 header borrowing the receive buffer: the chain of
/// `(next-header type, bytes)` entries after the fixed part.
#[derive(Debug)]
pub struct Ipv6Header<'a> {
    payload_slice_vec: Vec<(u8, &'a [u8])>,
}

impl<'a> View for Ipv6Header<'a> {
    type V = Seq<(u8, Seq<u8>)>;

    closed spec fn view(&self) -> Seq<(u8, Seq<u8>)> {
        chain_view(self.payload_slice_vec@)
    }
}

impl<'a> Ipv6Header<'a> {
    /// Size of the fixed part of an IPv6 header.
    pub const FIXED_HEADER_SIZE: u16 = 40;

    pub fn from_slice(slice: &'a [u8]) -> (r: Option<Ipv6Header<'a>>)
        ensures
            r is None <==> parse_ipv6(slice@) is None,
            r matches Some(h) ==> parse_ipv6(slice@) == Some(h@),
    {
        proof {
            lemma_slice_len_fits(slice);
        }
        if slice.len() < 40 {
            return None;
        }
        let payload_length: usize = slice[4] as usize * 256 + slice[5] as usize;
        if payload_length + 40 < slice.len() {
            return None;
        }
        let mut next_header_type: u8 = slice[6];
        let mut other_slice: &'a [u8] = &slice[40..slice.len()];
        let mut payload_slice_vec: Vec<(u8, &'a [u8])> = Vec::new();
        loop
            invariant
                parse_ipv6(slice@) == match ipv6_chain(next_header_type, other_slice@) {
                    Some(tail) => Some(chain_view(payload_slice_vec@) + tail),
                    None => None::<Seq<(u8, Seq<u8>)>>,
                },
            decreases other_slice@.len(),
        {
            match Ipv6HeaderType::new(next_header_type) {
                Ipv6HeaderType::Options(u) => {
                    if other_slice.len() < 2 {
                        return None;
                    }
                    let size = Self::alignment_u8_size(other_slice[1]) as usize;
                    if other_slice.len() < size {
                        return None;
                    }
                    let ghost before = payload_slice_vec@;
                    let (ext, rest) = other_slice.split_at(size);
                    payload_slice_vec.push((u, ext));
                    proof {
                        assert(chain_view(payload_slice_vec@) =~= chain_view(before) + seq![
                            (u, ext@),
                        ]);
                        match ipv6_chain(other_slice[0], rest@) {
                            Some(tail) => {
                                assert(chain_view(before) + (seq![(u, ext@)] + tail) =~= chain_view(
                                    payload_slice_vec@,
                                ) + tail);
                            },
                            None => {},
                        }
                    }
                    next_header_type = other_slice[0];
                    other_slice = rest;
                },
                Ipv6HeaderType::Uppers => {
                    let ghost before = payload_slice_vec@;
                    payload_slice_vec.push((next_header_type, other_slice));
                    assert(chain_view(payload_slice_vec@) =~= chain_view(before) + seq![
                        (next_header_type, other_slice@),
                    ]);
                    return Some(Ipv6Header { payload_slice_vec });
                },
                _ => {
                    return None;
                },
            }
        }
    }

    /// The size of an extension header from its length byte.
    fn alignment_u8_size(u: u8) -> (r: u16)
        ensures
            r == extension_len(u),
            8 <= r <= 256,
    {
        if u == 0 {
            return 8;
        }
        let divisor: u16 = (u >> 3) as u16;
        let is_remainder: bool = u & 0b111 > 0;
        assert(divisor <= 31) by (bit_vector)
            requires
                divisor == (u >> 3) as u16,
        ;
        let r: u16 = if is_remainder {
            (divisor + 1) << 3
        } else {
            u as u16
        };
        assert(r == ((u + 7) / 8) * 8) by (bit_vector)
            requires
                u != 0,
                divisor == (u >> 3) as u16,
                is_remainder == (u & 0b111 > 0),
                r == if is_remainder {
                    ((divisor + 1) as u16) << 3
                } else {
                    u as u16
                },
        ;
        r
    }

    /// The entries of the chain in order.
    pub fn get_headers(&self) -> (r: &Vec<(u8, &'a [u8])>)
        ensures
            chain_view(r@) == self@,
    {
        &self.payload_slice_vec
    }

    /// The bytes of the last entry: the upper-layer payload.
    pub fn get_payload(&self) -> (r: Option<&'a [u8]>)
        ensures
            r is None <==> self@.len() == 0,
            r matches Some(p) ==> p@ == self@.last().1,
    {
        if self.payload_slice_vec.len() == 0 {
            None
        } else {
            Some(self.payload_slice_vec[self.payload_slice_vec.len() - 1].1)
        }
    }
}

/// Extension headers laid end to end.
pub open spec fn concat_headers(exts: Seq<Seq<u8>>) -> Seq<u8>
    decreases exts.len(),
{
    if exts.len() == 0 {
        Seq::empty()
    } else {
        exts[0] + concat_headers(exts.drop_first())
    }
}

/// `exts` are extension headers whose types are `types[..N]` and whose
/// first bytes name the type that follows each; every header declares its
/// own length in its second byte; `types[N]` is an upper-layer protocol.
pub open spec fn is_header_chain(types: Seq<u8>, exts: Seq<Seq<u8>>) -> bool {
    &&& types.len() == exts.len() + 1
    &&& forall|i: int|
        0 <= i < exts.len() ==> {
            &&& is_extension_header(#[trigger] types[i])
            &&& exts[i].len() >= 2
            &&& exts[i][0] == types[i + 1]
            &&& exts[i].len() == extension_len(exts[i][1])
        }
    &&& !is_extension_header(types.last())
    &&& types.last() <= 145
}

/// The entries a walk over such a chain should give: each extension header
/// with its type, then the upper-layer protocol with the payload.
pub open spec fn chain_entries(types: Seq<u8>, exts: Seq<Seq<u8>>, payload: Seq<u8>) -> Seq<
    (u8, Seq<u8>),
> {
    Seq::new(
        exts.len() + 1,
        |i: int|
            if i < exts.len() {
                (types[i], exts[i])
            } else {
                (types.last(), payload)
            },
    )
}

proof fn lemma_chain_walk(types: Seq<u8>, exts: Seq<Seq<u8>>, payload: Seq<u8>)
    requires
        is_header_chain(types, exts),
    ensures
        ipv6_chain(types[0], concat_headers(exts) + payload) == Some(
            chain_entries(types, exts, payload),
        ),
    decreases exts.len(),
{
    let rest = concat_headers(exts) + payload;
    if exts.len() == 0 {
        assert(rest =~= payload);
        assert(chain_entries(types, exts, payload) =~= seq![(types[0], payload)]);
    } else {
        let first = exts[0];
        let more = exts.drop_first();
        let later = types.drop_first();
        assert(is_extension_header(types[0]));
        assert forall|i: int| 0 <= i < more.len() implies {
            &&& is_extension_header(#[trigger] later[i])
            &&& more[i].len() >= 2
            &&& more[i][0] == later[i + 1]
            &&& more[i].len() == extension_len(more[i][1])
        } by {
            assert(is_extension_header(types[i + 1]));
        }
        lemma_chain_walk(later, more, payload);
        assert(rest =~= first + (concat_headers(more) + payload));
        assert(rest[1] == first[1]);
        assert(rest[0] == first[0]);
        assert(rest.subrange(0, first.len() as int) =~= first);
        assert(rest.subrange(first.len() as int, rest.len() as int) =~= concat_headers(more)
            + payload);
        assert(seq![(types[0], first)] + chain_entries(later, more, payload) =~= chain_entries(
            types,
            exts,
            payload,
        ));
    }
}

/// An IPv6 buffer made of a fixed part, `N` extension headers that each
/// declare their own length, and a final payload parses to exactly `N + 1`
/// entries in chain order, the last one the upper-layer protocol with the
/// payload. The fixed part names the first type and declares a payload
/// length that covers the rest of the buffer.
pub proof fn lemma_ipv6_chain_entries(
    fixed: Seq<u8>,
    types: Seq<u8>,
    exts: Seq<Seq<u8>>,
    payload: Seq<u8>,
)
    requires
        fixed.len() == 40,
        fixed[6] == types[0],
        is_header_chain(types, exts),
        concat_headers(exts).len() + payload.len() <= fixed[4] * 256 + fixed[5],
    ensures
        parse_ipv6(fixed + concat_headers(exts) + payload) == Some(
            chain_entries(types, exts, payload),
        ),
        chain_entries(types, exts, payload).len() == exts.len() + 1,
        forall|i: int|
            0 <= i < exts.len() ==> #[trigger] chain_entries(types, exts, payload)[i] == (
                types[i],
                exts[i],
            ),
        chain_entries(types, exts, payload).last() == (types.last(), payload),
{
    let s = fixed + concat_headers(exts) + payload;
    assert(s[4] == fixed[4] && s[5] == fixed[5] && s[6] == fixed[6]);
    assert(s.subrange(40, s.len() as int) =~= concat_headers(exts) + payload);
    lemma_chain_walk(types, exts, payload);
}

} // verus!
