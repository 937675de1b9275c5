//! Reading SOCKS5 client messages and writing the answers.
use vstd::prelude::*;
use vstd::utf8::*;
use crate::socks::message::{
    AddrView, MethodSelectionRequest, MethodSelectionResponse, SocksAddr, SocksRequest,
    SocksRequestCommand, SocksRequestType, SocksRequestView, SocksResponse, SocksResponseView,
    TargetRequest, TargetRequestView, TargetResponse, TargetResponseView,
};
use crate::text::string_from_utf8;
use crate::wire::{be16, be16_value, lemma_be16_roundtrip, read_u16, write_u16};

verus! {

/// Writes the answers to a SOCKS5 client.
pub struct Socks5ResponseCodec;

/// Reads the messages of one SOCKS5 client: first its greeting, then one
/// target request, then data.
pub struct Socks5RequestCodec {
    state: Socks5RequestCodecState,
}

/// Where a client's conversation stands.
#[derive(Debug, Clone, Copy, PartialEq, Eq, Structural)]
pub enum Socks5RequestCodecState {
    NEGOTIATION,
    WORKING,
    READY,
}

impl View for Socks5RequestCodec {
    type V = Socks5RequestCodecState;

    closed spec fn view(&self) -> Socks5RequestCodecState {
        self.state
    }
}

/// What reading the greeting from the start of `s` gives, with the bytes it
/// consumes: complete once the version, the number of methods and that many
/// methods are there.
pub open spec fn method_selection_read(s: Seq<u8>) -> Option<(SocksRequestView, nat)> {
    if s.len() < 2 {
        None
    } else if s.len() - 2 < s[1] {
        None
    } else {
        Some(
            (
                SocksRequestView::Negotiation {
                    version: s[0],
                    n_methods: s[1],
                    methods: s.subrange(2, 2 + s[1]),
                },
                (2 + s[1]) as nat,
            ),
        )
    }
}

/// The length of a target request whose address type is `atyp`.
pub open spec fn target_request_len(s: Seq<u8>) -> int {
    if s[3] == 1 {
        10
    } else if s[3] == 3 {
        7 + s[4]
    } else {
        22
    }
}

/// The command a byte names.
pub open spec fn command_of(b: u8) -> SocksRequestCommand {
    if b == 1 {
        SocksRequestCommand::CONNECT
    } else if b == 2 {
        SocksRequestCommand::BIND
    } else {
        SocksRequestCommand::UdpAssociate
    }
}

/// Whether a target request at the start of `s` cannot be read: an unknown
/// address type, or, once it has fully arrived, an unknown command or a
/// domain that is not UTF-8.
pub open spec fn target_request_unreadable(s: Seq<u8>) -> bool {
    s.len() >= 5 && (!(s[3] == 1 || s[3] == 3 || s[3] == 4) || (s.len() >= target_request_len(s) && (
    !(s[1] == 1 || s[1] == 2 || s[1] == 3) || (s[3] == 3 && !valid_utf8(s.subrange(5, 5 + s[4]))))))
}

/// What reading a target request from the start of `s` gives, with the
/// bytes it consumes. The version is always recorded as 5 and the reserved
/// byte as 0, whatever the client sent.
pub open spec fn target_request_read(s: Seq<u8>) -> Option<(SocksRequestView, nat)> {
    if s.len() < 5 || s.len() < target_request_len(s) {
        None
    } else {
        let len = target_request_len(s);
        let (request_type, address, port_at) = if s[3] == 1 {
            (SocksRequestType::IpV4, AddrView::IPV4(s.subrange(4, 8)), 8int)
        } else if s[3] == 3 {
            (
                SocksRequestType::DOMAIN,
                AddrView::DOMAIN(decode_utf8(s.subrange(5, 5 + s[4]))),
                5 + s[4],
            )
        } else {
            (SocksRequestType::IpV6, AddrView::IPV6(s.subrange(4, 20)), 20int)
        };
        Some(
            (
                SocksRequestView::TargetRequest(
                    TargetRequestView {
                        version: 5,
                        command: command_of(s[1]),
                        reserved: 0,
                        request_type,
                        address,
                        port: be16_value(s.subrange(port_at, port_at + 2)) as i16,
                    },
                ),
                len as nat,
            ),
        )
    }
}

/// A target request that has only partly arrived is waited for: where `s`
/// reads as a target request of exactly `s.len()` bytes, every shorter start
/// of `s` reads as nothing yet.
pub proof fn lemma_partial_target_request_waits(s: Seq<u8>, k: int)
    requires
        target_request_read(s) matches Some((_, n)) && n == s.len(),
        0 <= k < s.len(),
    ensures
        target_request_read(s.take(k)) is None,
{
}

/// A greeting that has only partly arrived is waited for: where `s` reads
/// as a greeting of exactly `s.len()` bytes, every shorter start of `s`
/// reads as nothing yet.
pub proof fn lemma_partial_greeting_waits(s: Seq<u8>, k: int)
    requires
        method_selection_read(s) matches Some((_, n)) && n == s.len(),
        0 <= k < s.len(),
    ensures
        method_selection_read(s.take(k)) is None,
{
}

/// What reading data gives: everything buffered, if anything is.
pub open spec fn data_read(s: Seq<u8>) -> Option<(SocksRequestView, nat)> {
    if s.len() == 0 {
        None
    } else {
        Some((SocksRequestView::Data(s), s.len()))
    }
}

/// What a codec in `state` reads from the start of `s`.
pub open spec fn request_read(state: Socks5RequestCodecState, s: Seq<u8>) -> Option<
    (SocksRequestView, nat),
> {
    match state {
        Socks5RequestCodecState::NEGOTIATION => method_selection_read(s),
        Socks5RequestCodecState::WORKING => target_request_read(s),
        Socks5RequestCodecState::READY => data_read(s),
    }
}

/// The state after reading `read` in `state`: a greeting moves on to the
/// target request, a target request to data; nothing read changes nothing.
pub open spec fn next_state(state: Socks5RequestCodecState, read: bool) -> Socks5RequestCodecState {
    if !read {
        state
    } else {
        match state {
            Socks5RequestCodecState::NEGOTIATION => Socks5RequestCodecState::WORKING,
            _ => Socks5RequestCodecState::READY,
        }
    }
}

/// The SOCKS5 address type byte of a target response: 1 for IPv4, 3 for a
/// domain, 4 for IPv6.
pub open spec fn address_type_byte(t: SocksRequestType) -> u8 {
    match t {
        SocksRequestType::IpV4 => 1,
        SocksRequestType::IpV6 => 4,
        SocksRequestType::DOMAIN => 3,
    }
}

/// The bytes of an address in a target response: the octets, or a length
/// byte (the length modulo 256) and the domain's UTF-8 bytes.
pub open spec fn address_bytes(a: AddrView) -> Seq<u8> {
    match a {
        AddrView::IPV4(o) => o,
        AddrView::IPV6(o) => o,
        AddrView::DOMAIN(d) => seq![(encode_utf8(d).len() % 256) as u8] + encode_utf8(d),
    }
}

/// Whether the address of a response is of the type it declares.
pub open spec fn response_address_matches(t: TargetResponseView) -> bool {
    match (t.response_type, t.address) {
        (SocksRequestType::DOMAIN, AddrView::DOMAIN(_)) => true,
        (SocksRequestType::IpV4, AddrView::IPV4(_)) => true,
        (SocksRequestType::IpV6, AddrView::IPV6(_)) => true,
        _ => false,
    }
}

/// The bytes of a message to a client. A target response always carries
/// version 5 and a reserved 0; the port is big-endian.
pub open spec fn response_bytes(r: SocksResponseView) -> Seq<u8> {
    match r {
        SocksResponseView::Negotiation { version, method } => seq![version, method],
        SocksResponseView::TargetResponse(t) => seq![
            5u8,
            t.response.spec_code(),
            0u8,
            address_type_byte(t.response_type),
        ] + address_bytes(t.address) + be16(t.port as u16),
        SocksResponseView::Data(d) => d,
    }
}

/// Whether a message to a client can be written.
pub open spec fn response_writable(r: SocksResponseView) -> bool {
    match r {
        SocksResponseView::TargetResponse(t) => response_address_matches(t),
        _ => true,
    }
}

/// Whether `item` can be written; see `response_writable`.
pub fn response_is_writable(item: &SocksResponse) -> (b: bool)
    ensures
        b == response_writable(item@),
{
    match item {
        SocksResponse::TargetResponse(t) => match (t.response_type, &t.address) {
            (SocksRequestType::DOMAIN, SocksAddr::DOMAIN(_)) => true,
            (SocksRequestType::IpV4, SocksAddr::IPV4(_)) => true,
            (SocksRequestType::IpV6, SocksAddr::IPV6(_)) => true,
            _ => false,
        },
        _ => true,
    }
}

impl Socks5RequestCodec {
    /// A codec waiting for the greeting.
    pub fn new() -> (c: Socks5RequestCodec)
        ensures
            c@ == Socks5RequestCodecState::NEGOTIATION,
    {
        Socks5RequestCodec { state: Socks5RequestCodecState::NEGOTIATION }
    }

    /// Where the conversation stands.
    pub fn state(&self) -> (s: Socks5RequestCodecState)
        ensures
            s == self@,
    {
        self.state
    }

    fn decode_data(&mut self, src: &mut Vec<u8>) -> (r: Option<SocksRequest>)
        ensures
            final(self)@ == old(self)@,
            match data_read(old(src)@) {
                None => r is None && final(src)@ == old(src)@,
                Some((v, n)) => (r matches Some(q) && q@ == v) && final(src)@ == old(src)@.skip(n as int),
            },
    {
        if src.len() == 0 {
            return None;
        }
        let mut taken: Vec<u8> = Vec::new();
        std::mem::swap(src, &mut taken);
        assert(final(src)@ =~= old(src)@.skip(old(src)@.len() as int));
        Some(SocksRequest::Data(taken))
    }

    fn decode_methodselection(&mut self, src: &mut Vec<u8>) -> (r: Option<SocksRequest>)
        ensures
            final(self)@ == old(self)@,
            match method_selection_read(old(src)@) {
                None => r is None && final(src)@ == old(src)@,
                Some((v, n)) => (r matches Some(q) && q@ == v) && final(src)@ == old(src)@.skip(n as int),
            },
    {
        if src.len() < 2 {
            return None;
        }
        let n_m: u8 = src[1];
        if src.len() - 2 < n_m as usize {
            return None;
        }
        let version = src[0];
        let n_methods = n_m;
        let end: usize = 2 + n_methods as usize;
        let methods = vstd::slice::slice_to_vec(vstd::slice::slice_subrange(src.as_slice(), 2, end));
        let mut rest = src.split_off(end);
        std::mem::swap(src, &mut rest);
        assert(final(src)@ =~= old(src)@.skip(end as int));
        Some(SocksRequest::Negotiation(MethodSelectionRequest { version, n_methods, methods }))
    }

    fn decode_targetrequest(&mut self, src: &mut Vec<u8>) -> (r: Option<SocksRequest>)
        requires
            !target_request_unreadable(old(src)@),
        ensures
            final(self)@ == old(self)@,
            match target_request_read(old(src)@) {
                None => r is None && final(src)@ == old(src)@,
                Some((v, n)) => (r matches Some(q) && q@ == v) && final(src)@ == old(src)@.skip(n as int),
            },
    {
        if src.len() < 5 {
            return None;
        }
        let request_type: u8 = src[3];
        let len: usize = if request_type == 1 {
            10
        } else if request_type == 3 {
            7 + src[4] as usize
        } else {
            22
        };
        if src.len() < len {
            return None;
        }
        let command = src[1];
        let typed_command = if command == 1 {
            SocksRequestCommand::CONNECT
        } else if command == 2 {
            SocksRequestCommand::BIND
        } else {
            SocksRequestCommand::UdpAssociate
        };
        let ghost s = old(src)@;
        let (typed_request_type, typed_addr, port_at) = if request_type == 1 {
            let a = [src[4], src[5], src[6], src[7]];
            assert(a@ =~= s.subrange(4, 8));
            (SocksRequestType::IpV4, SocksAddr::IPV4(a), 8usize)
        } else if request_type == 3 {
            let dl: usize = src[4] as usize;
            let bytes = vstd::slice::slice_to_vec(vstd::slice::slice_subrange(src.as_slice(), 5, 5 + dl));
            let domain = match string_from_utf8(bytes) {
                Some(d) => d,
                None => String::new(),
            };
            (SocksRequestType::DOMAIN, SocksAddr::DOMAIN(domain), 5 + dl)
        } else {
            let a = [
                src[4],
                src[5],
                src[6],
                src[7],
                src[8],
                src[9],
                src[10],
                src[11],
                src[12],
                src[13],
                src[14],
                src[15],
                src[16],
                src[17],
                src[18],
                src[19],
            ];
            assert(a@ =~= s.subrange(4, 20));
            (SocksRequestType::IpV6, SocksAddr::IPV6(a), 20usize)
        };
        let port = read_u16(vstd::slice::slice_subrange(src.as_slice(), port_at, port_at + 2)) as i16;
        let mut rest = src.split_off(len);
        std::mem::swap(src, &mut rest);
        assert(final(src)@ =~= old(src)@.skip(len as int));
        Some(
            SocksRequest::TargetRequest(
                TargetRequest {
                    version: 5,
                    command: typed_command,
                    reserved: 0,
                    request_type: typed_request_type,
                    address: typed_addr,
                    port,
                },
            ),
        )
    }

    /// Whether the next read can go ahead: a target request must have a known
    /// address type, a known command and a UTF-8 domain.
    pub open spec fn readable(&self, s: Seq<u8>) -> bool {
        self@ == Socks5RequestCodecState::WORKING ==> !target_request_unreadable(s)
    }

    /// Whether the next read can go ahead; see `readable`.
    pub fn can_decode(&self, src: &Vec<u8>) -> (b: bool)
        ensures
            b == self.readable(src@),
    {
        match self.state {
            Socks5RequestCodecState::WORKING => {
                if src.len() < 5 {
                    return true;
                }
                let t = src[3];
                if !(t == 1 || t == 3 || t == 4) {
                    return false;
                }
                let len: usize = if t == 1 {
                    10
                } else if t == 3 {
                    7 + src[4] as usize
                } else {
                    22
                };
                if src.len() < len {
                    return true;
                }
                let c = src[1];
                if !(c == 1 || c == 2 || c == 3) {
                    return false;
                }
                if t == 3 {
                    let dl: usize = src[4] as usize;
                    let bytes = vstd::slice::slice_to_vec(
                        vstd::slice::slice_subrange(src.as_slice(), 5, 5 + dl),
                    );
                    return string_from_utf8(bytes).is_some();
                }
                true
            },
            _ => true,
        }
    }

    /// Reads the next message for the current stage; a greeting or a target
    /// request that has been read moves the conversation on.
    pub fn decode(&mut self, src: &mut Vec<u8>) -> (r: Option<SocksRequest>)
        requires
            old(self).readable(old(src)@),
        ensures
            match request_read(old(self)@, old(src)@) {
                None => r is None && final(src)@ == old(src)@,
                Some((v, n)) => (r matches Some(q) && q@ == v) && final(src)@ == old(src)@.skip(n as int),
            },
            final(self)@ == next_state(old(self)@, r is Some),
    {
        match self.state {
            Socks5RequestCodecState::NEGOTIATION => {
                let r = self.decode_methodselection(src);
                if r.is_some() {
                    self.state = Socks5RequestCodecState::WORKING;
                }
                r
            },
            Socks5RequestCodecState::WORKING => {
                let r = self.decode_targetrequest(src);
                if r.is_some() {
                    self.state = Socks5RequestCodecState::READY;
                }
                r
            },
            Socks5RequestCodecState::READY => self.decode_data(src),
        }
    }
}

impl Socks5ResponseCodec {
    fn encode_methodselection(&mut self, item: MethodSelectionResponse, dst: &mut Vec<u8>)
        ensures
            final(dst)@ == old(dst)@ + seq![item.version, item.method],
    {
        dst.push(item.version);
        dst.push(item.method);
        assert(final(dst)@ =~= old(dst)@ + seq![item.version, item.method]);
    }

    fn encode_targetresponse(&mut self, item: TargetResponse, dst: &mut Vec<u8>)
        requires
            response_address_matches(item@),
        ensures
            final(dst)@ == old(dst)@ + response_bytes(SocksResponseView::TargetResponse(item@)),
    {
        let ghost v = item@;
        let mut address_bytes_v: Vec<u8> = Vec::new();
        let type_byte: u8 = match item.response_type {
            SocksRequestType::IpV4 => 1u8,
            SocksRequestType::IpV6 => 4u8,
            SocksRequestType::DOMAIN => 3u8,
        };
        match &item.address {
            SocksAddr::DOMAIN(domain) => {
                let domain_bytes = domain.as_str().as_bytes();
                let len = domain_bytes.len();
                address_bytes_v.push((len % 256) as u8);
                address_bytes_v.extend_from_slice(domain_bytes);
            },
            SocksAddr::IPV4(o) => {
                address_bytes_v.extend_from_slice(o);
            },
            SocksAddr::IPV6(o) => {
                address_bytes_v.extend_from_slice(o);
            },
        }
        assert(address_bytes_v@ =~= address_bytes(v.address));
        dst.push(5u8);
        dst.push(item.response.code());
        dst.push(0u8);
        dst.push(type_byte);
        dst.extend_from_slice(address_bytes_v.as_slice());
        let p = write_u16(item.port as u16);
        dst.extend_from_slice(&p);
        assert(final(dst)@ =~= old(dst)@ + response_bytes(SocksResponseView::TargetResponse(v)));
    }

    /// Appends the bytes of `item`; see `response_bytes`.
    pub fn encode(&mut self, item: SocksResponse, dst: &mut Vec<u8>)
        requires
            response_writable(item@),
        ensures
            final(dst)@ == old(dst)@ + response_bytes(item@),
    {
        match item {
            SocksResponse::Negotiation(i) => self.encode_methodselection(i, dst),
            SocksResponse::TargetResponse(i) => self.encode_targetresponse(i, dst),
            SocksResponse::Data(data) => {
                dst.extend_from_slice(data.as_slice());
            },
        }
    }
}


/// Two bytes read most significant first have the value `256 * hi + lo`.
proof fn lemma_be16_value_arith(b: Seq<u8>)
    requires
        b.len() == 2,
    ensures
        be16_value(b) as int == 256 * b[0] + b[1],
{
    let b0 = b[0];
    let b1 = b[1];
    assert(((b0 as u16) << 8u16) | (b1 as u16) == (b0 as u16) * 256 + (b1 as u16)) by (bit_vector);
}

/// A port read as an unsigned value and back as a signed one is unchanged.
proof fn lemma_port_bits(p: i16, v: u16)
    ensures
        (v as i16) as u16 == v,
        (p as u16) as i16 == p,
{
    assert((v as i16) as u16 == v) by (bit_vector);
    assert((p as u16) as i16 == p) by (bit_vector);
}

/// The header of a written target response is that of RFC 1928: version
/// 5, the reply code, a reserved 0, and the address type 1 for IPv4, 3 for
/// a domain and 4 for IPv6; the reply ends with the port, most significant
/// byte first.
pub proof fn lemma_reply_header(t: TargetResponseView)
    requires
        response_address_matches(t),
    ensures
        ({
            let b = response_bytes(SocksResponseView::TargetResponse(t));
            &&& b.len() >= 6
            &&& b[0] == 5 && b[1] == t.response.spec_code() && b[2] == 0
            &&& t.response_type == SocksRequestType::IpV4 ==> b[3] == 1
            &&& t.response_type == SocksRequestType::DOMAIN ==> b[3] == 3
            &&& t.response_type == SocksRequestType::IpV6 ==> b[3] == 4
            &&& (t.port as u16) as int == 256 * b[b.len() - 2] + b[b.len() - 1]
        }),
{
    let b = response_bytes(SocksResponseView::TargetResponse(t));
    let p = be16(t.port as u16);
    lemma_be16_roundtrip(t.port as u16);
    lemma_be16_value_arith(p);
    assert(b[b.len() - 2] == p[0] && b[b.len() - 1] == p[1]);
}

/// The port of a target request is the big-endian value of the two bytes
/// that end it, whatever its address type; the address type byte 1 gives
/// an IPv4 address of the four bytes after the header, 3 a domain of the
/// length byte's count of bytes, and 4 an IPv6 address of sixteen bytes.
pub proof fn lemma_request_port_big_endian(s: Seq<u8>)
    requires
        target_request_read(s) is Some,
    ensures
        target_request_read(s) matches Some((SocksRequestView::TargetRequest(r), n)) && {
            &&& 2 <= n <= s.len()
            &&& (r.port as u16) as int == 256 * s[n - 2] + s[n - 1]
            &&& s[3] == 1 ==> n == 10 && r.request_type == SocksRequestType::IpV4 && r.address
                == AddrView::IPV4(s.subrange(4, 8))
            &&& s[3] == 3 ==> n == 7 + s[4] && r.request_type == SocksRequestType::DOMAIN
            &&& s[3] == 4 ==> n == 22 && r.request_type == SocksRequestType::IpV6 && r.address
                == AddrView::IPV6(s.subrange(4, 20))
        },
{
    let n = target_request_len(s);
    let port_at = n - 2;
    let pb = s.subrange(port_at, port_at + 2);
    lemma_be16_value_arith(pb);
    lemma_port_bits(0, be16_value(pb));
}

/// A written target response reads back, with the layout of a request,
/// as the same address type, address and port, taking all of its bytes:
/// for an IPv4 or IPv6 address of its proper length, or a domain shorter
/// than 256 bytes.
pub proof fn lemma_reply_reads_back(t: TargetResponseView)
    requires
        response_address_matches(t),
        match t.address {
            AddrView::IPV4(o) => o.len() == 4,
            AddrView::IPV6(o) => o.len() == 16,
            AddrView::DOMAIN(d) => encode_utf8(d).len() < 256,
        },
    ensures
        ({
            let b = response_bytes(SocksResponseView::TargetResponse(t));
            target_request_read(b) matches Some((SocksRequestView::TargetRequest(r), n)) && n
                == b.len() && r.request_type == t.response_type && r.address == t.address && r.port
                == t.port
        }),
{
    broadcast use encode_utf8_decode_utf8;
    let b = response_bytes(SocksResponseView::TargetResponse(t));
    let p = be16(t.port as u16);
    lemma_be16_roundtrip(t.port as u16);
    lemma_port_bits(t.port, t.port as u16);
    let a = address_bytes(t.address);
    assert(b =~= seq![5u8, t.response.spec_code(), 0u8, address_type_byte(t.response_type)] + a + p);
    assert(b.subrange(b.len() - 2, b.len() as int) =~= p);
    match t.address {
        AddrView::IPV4(o) => {
            assert(b.subrange(4, 8) =~= o);
        },
        AddrView::IPV6(o) => {
            assert(b.subrange(4, 20) =~= o);
        },
        AddrView::DOMAIN(d) => {
            let e = encode_utf8(d);
            assert(b[4] == e.len());
            assert(b.subrange(5, 5 + e.len() as int) =~= e);
        },
    }
}


/// The rest of a target request, as RFC 1928 lays it out: the command byte
/// 1 is CONNECT, 2 BIND and 3 UDP ASSOCIATE; a domain is the UTF-8 text of
/// as many bytes as its length byte gives, after that byte.
pub proof fn lemma_request_fields(s: Seq<u8>)
    requires
        target_request_read(s) is Some,
    ensures
        target_request_read(s) matches Some((SocksRequestView::TargetRequest(r), _)) && {
            &&& s[1] == 1 ==> r.command == SocksRequestCommand::CONNECT
            &&& s[1] == 2 ==> r.command == SocksRequestCommand::BIND
            &&& s[1] == 3 ==> r.command == SocksRequestCommand::UdpAssociate
            &&& s[3] == 3 ==> r.address == AddrView::DOMAIN(decode_utf8(s.subrange(5, 5 + s[4])))
        },
{
}

/// A greeting is read as its version byte, its count of methods, and that
/// many method bytes after them, all of which it consumes; nothing is read
/// before they have all arrived.
pub proof fn lemma_greeting_fields(s: Seq<u8>)
    ensures
        s.len() >= 2 && s.len() >= 2 + s[1] <==> method_selection_read(s) is Some,
        method_selection_read(s) matches Some((SocksRequestView::Negotiation { version, n_methods, methods }, n)) ==> version
            == s[0] && n_methods == s[1] && methods.len() == s[1] && n == 2 + s[1] && (forall|i: int|
            0 <= i < s[1] ==> #[trigger] methods[i] == s[2 + i]),
{
}

} // verus!
