//! SOCKS5 messages, as the local front end reads and writes them.
#![allow(non_camel_case_types)]
use vstd::prelude::*;
use vstd::utf8::*;
use crate::text::{
    ascii_bytes, ascii_string, decimal_digit, hex_digit, lemma_ascii_bytes_concat,
    lemma_ascii_concat, lemma_nat_decimal_ascii, lemma_nat_hex_ascii, nat_decimal, nat_hex,
    push_decimal, push_hex,
};

verus! {

/// What a SOCKS5 client sends.
#[derive(Debug)]
pub enum SocksRequest {
    Negotiation(MethodSelectionRequest),
    TargetRequest(TargetRequest),
    Data(Vec<u8>),
}

/// The authentication methods a SOCKS5 client may offer.
pub enum NegotiationMethod {
    NoAuthRequir1ed,
    GSSAPI,
    UserPwd,
    IanaAssigned,
    RESERVED,
    NoAcceptable,
}

/// The greeting of a SOCKS5 client: its version and the methods it offers.
#[derive(Debug)]
pub struct MethodSelectionRequest {
    pub version: u8,
    pub n_methods: u8,
    pub methods: Vec<u8>,
}

/// The answer to a greeting: the version and the chosen method.
pub struct MethodSelectionResponse {
    pub version: u8,
    pub method: u8,
}

/// A request to reach a target.
#[derive(Debug, Clone)]
pub struct TargetRequest {
    pub version: u8,
    pub command: SocksRequestCommand,
    pub reserved: u8,
    pub request_type: SocksRequestType,
    pub address: SocksAddr,
    pub port: i16,
}

/// A target address: the four octets of an IPv4 address, the sixteen of an
/// IPv6 address, or a domain name.
#[derive(Debug, Clone)]
pub enum SocksAddr {
    IPV4([u8; 4]),
    IPV6([u8; 16]),
    DOMAIN(String),
}

/// What a client asks the proxy to do with the target.
#[derive(Debug, Clone, Copy, PartialEq, Eq, Structural)]
pub enum SocksRequestCommand {
    CONNECT,
    BIND,
    UdpAssociate,
}

/// The kind of a target address.
#[derive(Debug, Clone, Copy, PartialEq, Eq, Structural)]
pub enum SocksRequestType {
    IpV4,
    DOMAIN,
    IpV6,
}

/// The answer to a target request.
pub struct TargetResponse {
    pub version: u8,
    pub response: TargetResponseType,
    pub reserved: u8,
    pub response_type: SocksRequestType,
    pub address: SocksAddr,
    pub port: i16,
}

/// The outcome reported to a client for its target request.
#[derive(Debug, Clone, Copy, PartialEq, Eq, Structural)]
pub enum TargetResponseType {
    Succeeded,
    GeneralFailure,
    NotAllowedByRuleset,
    NetworkUnreachable,
    HostUnreachable,
    ConnectionRefused,
    TTLExpired,
    CommandNotSupported,
    AddressTypeNotSupported,
    Unassigned,
}

/// What the front end sends back to a SOCKS5 client.
pub enum SocksResponse {
    Negotiation(MethodSelectionResponse),
    TargetResponse(TargetResponse),
    Data(Vec<u8>),
}

/// A target address as a value: octets, or the characters of a domain.
pub enum AddrView {
    IPV4(Seq<u8>),
    IPV6(Seq<u8>),
    DOMAIN(Seq<char>),
}

/// A target request as a value.
pub struct TargetRequestView {
    pub version: u8,
    pub command: SocksRequestCommand,
    pub reserved: u8,
    pub request_type: SocksRequestType,
    pub address: AddrView,
    pub port: i16,
}

/// A target response as a value.
pub struct TargetResponseView {
    pub version: u8,
    pub response: TargetResponseType,
    pub reserved: u8,
    pub response_type: SocksRequestType,
    pub address: AddrView,
    pub port: i16,
}

/// A client message as a value.
pub enum SocksRequestView {
    Negotiation { version: u8, n_methods: u8, methods: Seq<u8> },
    TargetRequest(TargetRequestView),
    Data(Seq<u8>),
}

/// A message to a client as a value.
pub enum SocksResponseView {
    Negotiation { version: u8, method: u8 },
    TargetResponse(TargetResponseView),
    Data(Seq<u8>),
}

impl View for SocksAddr {
    type V = AddrView;

    open spec fn view(&self) -> AddrView {
        match self {
            SocksAddr::IPV4(o) => AddrView::IPV4(o@),
            SocksAddr::IPV6(o) => AddrView::IPV6(o@),
            SocksAddr::DOMAIN(s) => AddrView::DOMAIN(s@),
        }
    }
}

impl View for TargetRequest {
    type V = TargetRequestView;

    open spec fn view(&self) -> TargetRequestView {
        TargetRequestView {
            version: self.version,
            command: self.command,
            reserved: self.reserved,
            request_type: self.request_type,
            address: self.address@,
            port: self.port,
        }
    }
}

impl View for TargetResponse {
    type V = TargetResponseView;

    open spec fn view(&self) -> TargetResponseView {
        TargetResponseView {
            version: self.version,
            response: self.response,
            reserved: self.reserved,
            response_type: self.response_type,
            address: self.address@,
            port: self.port,
        }
    }
}

impl View for SocksRequest {
    type V = SocksRequestView;

    open spec fn view(&self) -> SocksRequestView {
        match self {
            SocksRequest::Negotiation(m) => SocksRequestView::Negotiation {
                version: m.version,
                n_methods: m.n_methods,
                methods: m.methods@,
            },
            SocksRequest::TargetRequest(t) => SocksRequestView::TargetRequest(t@),
            SocksRequest::Data(d) => SocksRequestView::Data(d@),
        }
    }
}

impl View for SocksResponse {
    type V = SocksResponseView;

    open spec fn view(&self) -> SocksResponseView {
        match self {
            SocksResponse::Negotiation(m) => SocksResponseView::Negotiation {
                version: m.version,
                method: m.method,
            },
            SocksResponse::TargetResponse(t) => SocksResponseView::TargetResponse(t@),
            SocksResponse::Data(d) => SocksResponseView::Data(d@),
        }
    }
}

/// The reply codes of RFC 1928: success is 0, a general failure 1, a
/// refusal by the ruleset 2, an unreachable network 3 or host 4, a refused
/// connection 5, an expired TTL 6, an unsupported command 7 or address type
/// 8; distinct outcomes have distinct codes.
pub proof fn lemma_reply_codes(a: TargetResponseType, b: TargetResponseType)
    ensures
        TargetResponseType::Succeeded.spec_code() == 0,
        TargetResponseType::GeneralFailure.spec_code() == 1,
        TargetResponseType::NotAllowedByRuleset.spec_code() == 2,
        TargetResponseType::NetworkUnreachable.spec_code() == 3,
        TargetResponseType::HostUnreachable.spec_code() == 4,
        TargetResponseType::ConnectionRefused.spec_code() == 5,
        TargetResponseType::TTLExpired.spec_code() == 6,
        TargetResponseType::CommandNotSupported.spec_code() == 7,
        TargetResponseType::AddressTypeNotSupported.spec_code() == 8,
        a.spec_code() == b.spec_code() ==> a == b,
{
}

impl TargetResponseType {
    /// The reply code of this outcome on the wire.
    pub open spec fn spec_code(&self) -> u8 {
        match self {
            TargetResponseType::Succeeded => 0,
            TargetResponseType::GeneralFailure => 1,
            TargetResponseType::NotAllowedByRuleset => 2,
            TargetResponseType::NetworkUnreachable => 3,
            TargetResponseType::HostUnreachable => 4,
            TargetResponseType::ConnectionRefused => 5,
            TargetResponseType::TTLExpired => 6,
            TargetResponseType::CommandNotSupported => 7,
            TargetResponseType::AddressTypeNotSupported => 8,
            TargetResponseType::Unassigned => 9,
        }
    }

    /// The reply code of this outcome on the wire.
    #[verifier::when_used_as_spec(spec_code)]
    pub fn code(&self) -> (c: u8)
        ensures
            c == self.spec_code(),
    {
        match self {
            TargetResponseType::Succeeded => 0,
            TargetResponseType::GeneralFailure => 1,
            TargetResponseType::NotAllowedByRuleset => 2,
            TargetResponseType::NetworkUnreachable => 3,
            TargetResponseType::HostUnreachable => 4,
            TargetResponseType::ConnectionRefused => 5,
            TargetResponseType::TTLExpired => 6,
            TargetResponseType::CommandNotSupported => 7,
            TargetResponseType::AddressTypeNotSupported => 8,
            TargetResponseType::Unassigned => 9,
        }
    }
}

/// Dotted decimal text of an IPv4 address.
pub open spec fn ipv4_text(o: Seq<u8>) -> Seq<char> {
    nat_decimal(o[0] as nat) + seq!['.'] + nat_decimal(o[1] as nat) + seq!['.'] + nat_decimal(
        o[2] as nat,
    ) + seq!['.'] + nat_decimal(o[3] as nat)
}

/// The eight 16-bit groups of an IPv6 address given by its sixteen octets.
pub open spec fn ipv6_segments(o: Seq<u8>) -> Seq<u16> {
    Seq::new(8, |i: int| (o[2 * i] * 256 + o[2 * i + 1]) as u16)
}

/// Groups in lower-case hexadecimal, separated by colons.
pub open spec fn hex_groups(segs: Seq<u16>) -> Seq<char>
    decreases segs.len(),
{
    if segs.len() == 0 {
        seq![]
    } else if segs.len() == 1 {
        nat_hex(segs[0] as nat)
    } else {
        hex_groups(segs.drop_last()) + seq![':'] + nat_hex(segs.last() as nat)
    }
}

/// One step of the left-to-right scan for the first longest run of zero
/// groups: `cur` is the run ending at `i`, `best` the longest one seen.
pub open spec fn zero_run_scan(
    segs: Seq<u16>,
    i: nat,
    cur_start: nat,
    cur_len: nat,
    best_start: nat,
    best_len: nat,
) -> (nat, nat)
    decreases segs.len() - i,
{
    if i >= segs.len() {
        (best_start, best_len)
    } else if segs[i as int] == 0 {
        let cs = if cur_len == 0 { i } else { cur_start };
        let cl = cur_len + 1;
        if cl > best_len {
            zero_run_scan(segs, i + 1, cs, cl, cs, cl)
        } else {
            zero_run_scan(segs, i + 1, cs, cl, best_start, best_len)
        }
    } else {
        zero_run_scan(segs, i + 1, 0, 0, best_start, best_len)
    }
}

/// The start and length of the first longest run of zero groups.
pub open spec fn longest_zero_run(segs: Seq<u16>) -> (nat, nat) {
    zero_run_scan(segs, 0, 0, 0, 0, 0)
}

/// Whether the `m` groups from `a` on are all zero.
pub open spec fn zero_run(segs: Seq<u16>, a: int, m: int) -> bool {
    0 <= a && 0 <= m && a + m <= segs.len() && forall|k: int| a <= k < a + m ==> segs[k] == 0
}

proof fn lemma_zero_run_scan(segs: Seq<u16>, i: nat, cs: nat, cl: nat, bs: nat, bl: nat)
    requires
        i <= segs.len(),
        cl == 0 ==> (i == 0 || segs[i - 1] != 0),
        cl > 0 ==> cs + cl == i && zero_run(segs, cs as int, cl as int) && (cs == 0 || segs[cs - 1]
            != 0),
        zero_run(segs, bs as int, bl as int),
        bs + bl <= i,
        forall|a: int, m: int| #[trigger] zero_run(segs, a, m) && a + m <= i ==> m <= bl,
        forall|a: int| #[trigger] zero_run(segs, a, bl as int) && a + bl <= i && bl > 0 ==> bs <= a,
    ensures
        ({
            let (s, l) = zero_run_scan(segs, i, cs, cl, bs, bl);
            &&& zero_run(segs, s as int, l as int)
            &&& forall|a: int, m: int| #[trigger] zero_run(segs, a, m) ==> m <= l
            &&& forall|a: int| #[trigger] zero_run(segs, a, l as int) && l > 0 ==> s <= a
        }),
    decreases segs.len() - i,
{
    if i < segs.len() {
        if segs[i as int] == 0 {
            let cs2: nat = if cl == 0 { i } else { cs };
            let cl2: nat = cl + 1;
            assert(zero_run(segs, cs2 as int, cl2 as int)) by {
                assert forall|k: int| cs2 <= k < cs2 + cl2 implies segs[k] == 0 by {
                    if k < i {
                        assert(cs <= k < cs + cl);
                    }
                }
            }
            assert forall|a: int, m: int| zero_run(segs, a, m) && a + m == i + 1 && m > 0 implies a
                >= cs2 by {
                if a < cs2 {
                    assert(a <= cs2 - 1 < a + m);
                    assert(segs[cs2 - 1] == 0);
                }
            }
            let (bs2, bl2) = if cl2 > bl { (cs2, cl2) } else { (bs, bl) };
            assert forall|a: int, m: int| #[trigger] zero_run(segs, a, m) && a + m <= i + 1 implies m
                <= bl2 by {
                if a + m == i + 1 && m > 0 {
                    assert(a >= cs2);
                }
            }
            assert forall|a: int| #[trigger] zero_run(segs, a, bl2 as int) && a + bl2 <= i + 1 && bl2
                > 0 implies bs2 <= a by {
                if a + bl2 == i + 1 {
                    assert(a >= cs2);
                } else if cl2 > bl {
                    assert(zero_run(segs, a, bl2 as int) && a + bl2 <= i);
                }
            }
            lemma_zero_run_scan(segs, i + 1, cs2, cl2, bs2, bl2);
        } else {
            assert forall|a: int, m: int| #[trigger] zero_run(segs, a, m) && a + m <= i + 1 implies m
                <= bl by {
                if a + m == i + 1 && m > 0 {
                    assert(a <= i < a + m);
                }
            }
            assert forall|a: int| #[trigger] zero_run(segs, a, bl as int) && a + bl <= i + 1 && bl > 0
                implies bs <= a by {
                if a + bl == i + 1 {
                    assert(a <= i < a + bl);
                }
            }
            lemma_zero_run_scan(segs, i + 1, 0, 0, bs, bl);
        }
    }
}

/// The run of zero groups that the canonical IPv6 text compresses is a
/// longest one, and the first of the longest: it is a run of zero groups,
/// no run of zero groups is longer, and none of the same length starts
/// before it.
pub proof fn lemma_longest_zero_run(segs: Seq<u16>, a: int, m: int)
    ensures
        ({
            let (s, l) = longest_zero_run(segs);
            &&& zero_run(segs, s as int, l as int)
            &&& zero_run(segs, a, m) ==> m <= l
            &&& zero_run(segs, a, m) && m == l && l > 0 ==> s <= a
        }),
{
    lemma_zero_run_scan(segs, 0, 0, 0, 0, 0);
}

/// Whether an IPv6 address is an IPv4 address mapped into IPv6
/// (`::ffff:a.b.c.d`).
pub open spec fn is_ipv4_mapped(o: Seq<u8>) -> bool {
    (forall|i: int| 0 <= i < 10 ==> #[trigger] o[i] == 0) && o[10] == 0xff && o[11] == 0xff
}

/// The canonical text of an IPv6 address: an IPv4-mapped address as
/// `::ffff:` and the dotted IPv4 text; otherwise hexadecimal groups, with the
/// first longest run of two or more zero groups written as `::`.
pub open spec fn ipv6_text(o: Seq<u8>) -> Seq<char> {
    if is_ipv4_mapped(o) {
        seq![':', ':', 'f', 'f', 'f', 'f', ':'] + ipv4_text(o.subrange(12, 16))
    } else {
        let segs = ipv6_segments(o);
        let (start, len) = longest_zero_run(segs);
        if len > 1 {
            hex_groups(segs.subrange(0, start as int)) + seq![':', ':'] + hex_groups(
                segs.subrange((start + len) as int, 8),
            )
        } else {
            hex_groups(segs)
        }
    }
}

/// The host a target address names: a domain as given, an IPv4 address in
/// dotted decimal, an IPv6 address in its canonical text.
pub open spec fn addr_host(a: AddrView) -> Seq<char> {
    match a {
        AddrView::IPV4(o) => ipv4_text(o),
        AddrView::IPV6(o) => ipv6_text(o),
        AddrView::DOMAIN(s) => s,
    }
}

/// The host text of a target address in a `host:port` text: the host, with
/// an IPv6 address in brackets.
pub open spec fn addr_view_text(a: AddrView) -> Seq<char> {
    match a {
        AddrView::IPV6(o) => seq!['['] + ipv6_text(o) + seq![']'],
        _ => addr_host(a),
    }
}

/// Whether a character may appear in the text of an IP address: a decimal
/// digit, a lower-case hexadecimal letter, a colon or a dot.
pub open spec fn ip_char(c: char) -> bool {
    ('0' <= c && c <= '9') || ('a' <= c && c <= 'f') || c == ':' || c == '.'
}

/// Whether every character of `s` may appear in the text of an IP address.
pub open spec fn ip_chars(s: Seq<char>) -> bool {
    forall|i: int| 0 <= i < s.len() ==> ip_char(#[trigger] s[i])
}

proof fn lemma_ip_chars_concat(a: Seq<char>, b: Seq<char>)
    requires
        ip_chars(a),
        ip_chars(b),
    ensures
        ip_chars(a + b),
{
    assert forall|i: int| 0 <= i < (a + b).len() implies ip_char(#[trigger] (a + b)[i]) by {
        if i < a.len() {
            assert((a + b)[i] == a[i]);
        } else {
            assert((a + b)[i] == b[i - a.len()]);
        }
    }
}

proof fn lemma_nat_decimal_ip_chars(n: nat)
    ensures
        ip_chars(nat_decimal(n)),
    decreases n,
{
    if n >= 10 {
        lemma_nat_decimal_ip_chars(n / 10);
        assert(ip_char(decimal_digit(n % 10)));
        assert(ip_chars(seq![decimal_digit(n % 10)]));
        lemma_ip_chars_concat(nat_decimal(n / 10), seq![decimal_digit(n % 10)]);
    } else {
        assert(ip_char(decimal_digit(n)));
        assert(ip_chars(seq![decimal_digit(n)]));
    }
}

proof fn lemma_hex_digit_ip_char(d: nat)
    requires
        d < 16,
    ensures
        ip_char(hex_digit(d)),
{
    if d < 10 {
        assert(ip_char(decimal_digit(d)));
    }
}

proof fn lemma_nat_hex_ip_chars(n: nat)
    ensures
        ip_chars(nat_hex(n)),
    decreases n,
{
    if n >= 16 {
        lemma_nat_hex_ip_chars(n / 16);
        lemma_hex_digit_ip_char(n % 16);
        assert(ip_chars(seq![hex_digit(n % 16)]));
        lemma_ip_chars_concat(nat_hex(n / 16), seq![hex_digit(n % 16)]);
    } else {
        lemma_hex_digit_ip_char(n);
        assert(ip_chars(seq![hex_digit(n)]));
    }
}

proof fn lemma_hex_groups_ip_chars(segs: Seq<u16>)
    ensures
        ip_chars(hex_groups(segs)),
    decreases segs.len(),
{
    if segs.len() == 1 {
        lemma_nat_hex_ip_chars(segs[0] as nat);
    } else if segs.len() > 1 {
        lemma_hex_groups_ip_chars(segs.drop_last());
        lemma_nat_hex_ip_chars(segs.last() as nat);
        assert(ip_chars(seq![':']));
        lemma_ip_chars_concat(hex_groups(segs.drop_last()), seq![':']);
        lemma_ip_chars_concat(hex_groups(segs.drop_last()) + seq![':'], nat_hex(segs.last() as nat));
    }
}

/// The text of an IPv4 address holds only digits and dots.
pub proof fn lemma_ipv4_ip_chars(o: Seq<u8>)
    ensures
        ip_chars(ipv4_text(o)),
{
    let dot = seq!['.'];
    assert(ip_chars(dot));
    let d0 = nat_decimal(o[0] as nat);
    let d1 = nat_decimal(o[1] as nat);
    let d2 = nat_decimal(o[2] as nat);
    let d3 = nat_decimal(o[3] as nat);
    lemma_nat_decimal_ip_chars(o[0] as nat);
    lemma_nat_decimal_ip_chars(o[1] as nat);
    lemma_nat_decimal_ip_chars(o[2] as nat);
    lemma_nat_decimal_ip_chars(o[3] as nat);
    lemma_ip_chars_concat(d0, dot);
    lemma_ip_chars_concat(d0 + dot, d1);
    lemma_ip_chars_concat(d0 + dot + d1, dot);
    lemma_ip_chars_concat(d0 + dot + d1 + dot, d2);
    lemma_ip_chars_concat(d0 + dot + d1 + dot + d2, dot);
    lemma_ip_chars_concat(d0 + dot + d1 + dot + d2 + dot, d3);
}

/// The text of an IPv6 address holds only hexadecimal digits, colons and
/// dots.
pub proof fn lemma_ipv6_ip_chars(o: Seq<u8>)
    ensures
        ip_chars(ipv6_text(o)),
{
    if is_ipv4_mapped(o) {
        let p = seq![':', ':', 'f', 'f', 'f', 'f', ':'];
        assert(ip_chars(p));
        lemma_ipv4_ip_chars(o.subrange(12, 16));
        lemma_ip_chars_concat(p, ipv4_text(o.subrange(12, 16)));
    } else {
        let segs = ipv6_segments(o);
        let (start, len) = longest_zero_run(segs);
        if len > 1 {
            let a = hex_groups(segs.subrange(0, start as int));
            let b = hex_groups(segs.subrange((start + len) as int, 8));
            lemma_hex_groups_ip_chars(segs.subrange(0, start as int));
            lemma_hex_groups_ip_chars(segs.subrange((start + len) as int, 8));
            assert(ip_chars(seq![':', ':']));
            lemma_ip_chars_concat(a, seq![':', ':']);
            lemma_ip_chars_concat(a + seq![':', ':'], b);
        } else {
            lemma_hex_groups_ip_chars(segs);
        }
    }
}

/// The `host:port` text of a target request; the port is the unsigned
/// 16-bit number the request's two port bytes hold.
pub open spec fn target_text(t: TargetRequestView) -> Seq<char> {
    addr_view_text(t.address) + seq![':'] + nat_decimal(t.port as u16 as nat)
}

proof fn lemma_ipv4_text_ascii(o: Seq<u8>)
    requires
        o.len() == 4,
    ensures
        is_ascii_chars(ipv4_text(o)),
{
    lemma_nat_decimal_ascii(o[0] as nat);
    lemma_nat_decimal_ascii(o[1] as nat);
    lemma_nat_decimal_ascii(o[2] as nat);
    lemma_nat_decimal_ascii(o[3] as nat);
    let dot = seq!['.'];
    assert(is_ascii_chars(dot));
    let a = nat_decimal(o[0] as nat);
    lemma_ascii_concat(a, dot);
    lemma_ascii_concat(a + dot, nat_decimal(o[1] as nat));
    lemma_ascii_concat(a + dot + nat_decimal(o[1] as nat), dot);
    lemma_ascii_concat(a + dot + nat_decimal(o[1] as nat) + dot, nat_decimal(o[2] as nat));
    lemma_ascii_concat(a + dot + nat_decimal(o[1] as nat) + dot + nat_decimal(o[2] as nat), dot);
    lemma_ascii_concat(
        a + dot + nat_decimal(o[1] as nat) + dot + nat_decimal(o[2] as nat) + dot,
        nat_decimal(o[3] as nat),
    );
}

proof fn lemma_hex_groups_ascii(segs: Seq<u16>)
    ensures
        is_ascii_chars(hex_groups(segs)),
    decreases segs.len(),
{
    if segs.len() == 0 {
    } else if segs.len() == 1 {
        lemma_nat_hex_ascii(segs[0] as nat);
    } else {
        lemma_hex_groups_ascii(segs.drop_last());
        lemma_nat_hex_ascii(segs.last() as nat);
        let colon = seq![':'];
        assert(is_ascii_chars(colon));
        lemma_ascii_concat(hex_groups(segs.drop_last()), colon);
        lemma_ascii_concat(hex_groups(segs.drop_last()) + colon, nat_hex(segs.last() as nat));
    }
}

proof fn lemma_ipv6_text_ascii(o: Seq<u8>)
    requires
        o.len() == 16,
    ensures
        is_ascii_chars(ipv6_text(o)),
{
    if is_ipv4_mapped(o) {
        let p = seq![':', ':', 'f', 'f', 'f', 'f', ':'];
        assert(is_ascii_chars(p));
        lemma_ipv4_text_ascii(o.subrange(12, 16));
        lemma_ascii_concat(p, ipv4_text(o.subrange(12, 16)));
    } else {
        let segs = ipv6_segments(o);
        let (start, len) = longest_zero_run(segs);
        if len > 1 {
            let a = hex_groups(segs.subrange(0, start as int));
            let b = hex_groups(segs.subrange((start + len) as int, 8));
            lemma_hex_groups_ascii(segs.subrange(0, start as int));
            lemma_hex_groups_ascii(segs.subrange((start + len) as int, 8));
            assert(is_ascii_chars(seq![':', ':']));
            lemma_ascii_concat(a, seq![':', ':']);
            lemma_ascii_concat(a + seq![':', ':'], b);
        } else {
            lemma_hex_groups_ascii(segs);
        }
    }
}

/// Appends the dotted decimal text of an IPv4 address.
fn push_ipv4(out: &mut Vec<u8>, o: &[u8])
    requires
        o@.len() == 4,
    ensures
        final(out)@ == old(out)@ + ascii_bytes(ipv4_text(o@)),
{
    push_decimal(out, o[0] as u64);
    out.push(46u8);
    push_decimal(out, o[1] as u64);
    out.push(46u8);
    push_decimal(out, o[2] as u64);
    out.push(46u8);
    push_decimal(out, o[3] as u64);
    proof {
        let d0 = nat_decimal(o@[0] as nat);
        let d1 = nat_decimal(o@[1] as nat);
        let d2 = nat_decimal(o@[2] as nat);
        let d3 = nat_decimal(o@[3] as nat);
        let dot = seq!['.'];
        assert(ascii_bytes(dot) =~= seq![46u8]);
        lemma_ascii_bytes_concat(d0, dot);
        lemma_ascii_bytes_concat(d0 + dot, d1);
        lemma_ascii_bytes_concat(d0 + dot + d1, dot);
        lemma_ascii_bytes_concat(d0 + dot + d1 + dot, d2);
        lemma_ascii_bytes_concat(d0 + dot + d1 + dot + d2, dot);
        lemma_ascii_bytes_concat(d0 + dot + d1 + dot + d2 + dot, d3);
        assert(final(out)@ =~= old(out)@ + ascii_bytes(ipv4_text(o@)));
    }
}

/// Appends `segs[from..to]` in hexadecimal, separated by colons.
fn push_hex_groups(out: &mut Vec<u8>, segs: &Vec<u16>, from: usize, to: usize)
    requires
        from <= to <= segs@.len(),
    ensures
        final(out)@ == old(out)@ + ascii_bytes(hex_groups(segs@.subrange(from as int, to as int))),
{
    let mut i = from;
    assert(segs@.subrange(from as int, from as int) =~= Seq::<u16>::empty());
    assert(ascii_bytes(hex_groups(Seq::<u16>::empty())) =~= Seq::<u8>::empty());
    assert(out@ =~= old(out)@ + ascii_bytes(hex_groups(segs@.subrange(from as int, i as int))));
    while i < to
        invariant
            from <= i <= to <= segs@.len(),
            out@ == old(out)@ + ascii_bytes(hex_groups(segs@.subrange(from as int, i as int))),
        decreases to - i,
    {
        let ghost before = out@;
        let ghost prev = segs@.subrange(from as int, i as int);
        let ghost next = segs@.subrange(from as int, i + 1);
        assert(next.drop_last() =~= prev);
        assert(next.last() == segs@[i as int]);
        if i > from {
            out.push(58u8);
        }
        push_hex(out, segs[i]);
        proof {
            let h = nat_hex(segs@[i as int] as nat);
            if i == from {
                assert(next.len() == 1);
                assert(next[0] == segs@[i as int]);
                assert(hex_groups(prev) =~= Seq::<char>::empty());
                assert(out@ =~= old(out)@ + ascii_bytes(hex_groups(next)));
            } else {
                assert(ascii_bytes(seq![':']) =~= seq![58u8]);
                lemma_ascii_bytes_concat(hex_groups(prev), seq![':']);
                lemma_ascii_bytes_concat(hex_groups(prev) + seq![':'], h);
                assert(out@ =~= old(out)@ + ascii_bytes(hex_groups(next)));
            }
        }
        i = i + 1;
    }
}

/// The start and length of the first longest run of zero groups.
fn find_longest_zero_run(segs: &Vec<u16>) -> (r: (usize, usize))
    requires
        segs@.len() == 8,
    ensures
        r.0 as nat == longest_zero_run(segs@).0,
        r.1 as nat == longest_zero_run(segs@).1,
        r.0 + r.1 <= 8,
{
    let mut i: usize = 0;
    let mut cur_start: usize = 0;
    let mut cur_len: usize = 0;
    let mut best_start: usize = 0;
    let mut best_len: usize = 0;
    while i < 8
        invariant
            i <= 8,
            segs@.len() == 8,
            cur_start + cur_len == i || cur_len == 0,
            best_start + best_len <= i,
            zero_run_scan(
                segs@,
                i as nat,
                cur_start as nat,
                cur_len as nat,
                best_start as nat,
                best_len as nat,
            ) == longest_zero_run(segs@),
        decreases 8 - i,
    {
        if segs[i] == 0 {
            if cur_len == 0 {
                cur_start = i;
            }
            cur_len = cur_len + 1;
            if cur_len > best_len {
                best_start = cur_start;
                best_len = cur_len;
            }
        } else {
            cur_start = 0;
            cur_len = 0;
        }
        i = i + 1;
    }
    (best_start, best_len)
}

/// Appends the canonical text of an IPv6 address.
fn push_ipv6(out: &mut Vec<u8>, o: &[u8])
    requires
        o@.len() == 16,
    ensures
        final(out)@ == old(out)@ + ascii_bytes(ipv6_text(o@)),
{
    let mut mapped = o[10] == 0xff && o[11] == 0xff;
    let mut k: usize = 0;
    while k < 10
        invariant
            k <= 10,
            o@.len() == 16,
            mapped == (o@[10] == 0xff && o@[11] == 0xff && forall|j: int| 0 <= j < k ==> #[trigger] o@[j] == 0),
        decreases 10 - k,
    {
        if o[k] != 0 {
            mapped = false;
        }
        k = k + 1;
    }
    assert(mapped == is_ipv4_mapped(o@));
    if mapped {
        let prefix: Vec<u8> = vec![58u8, 58u8, 102u8, 102u8, 102u8, 102u8, 58u8];
        let mut p = prefix;
        out.append(&mut p);
        let tail = [o[12], o[13], o[14], o[15]];
        push_ipv4(out, &tail);
        proof {
            let pre = seq![':', ':', 'f', 'f', 'f', 'f', ':'];
            assert(ascii_bytes(pre) =~= seq![58u8, 58u8, 102u8, 102u8, 102u8, 102u8, 58u8]);
            assert(tail@ =~= o@.subrange(12, 16));
            lemma_ascii_bytes_concat(pre, ipv4_text(o@.subrange(12, 16)));
            assert(final(out)@ =~= old(out)@ + ascii_bytes(ipv6_text(o@)));
        }
    } else {
        let mut segs: Vec<u16> = Vec::new();
        let mut j: usize = 0;
        while j < 8
            invariant
                j <= 8,
                o@.len() == 16,
                segs@.len() == j,
                forall|t: int| 0 <= t < j ==> segs@[t] == ipv6_segments(o@)[t],
            decreases 8 - j,
        {
            segs.push(((o[2 * j] as u16) * 256) + (o[2 * j + 1] as u16));
            j = j + 1;
        }
        assert(segs@ =~= ipv6_segments(o@));
        let (start, len) = find_longest_zero_run(&segs);
        if len > 1 {
            push_hex_groups(out, &segs, 0, start);
            out.push(58u8);
            out.push(58u8);
            push_hex_groups(out, &segs, start + len, 8);
            proof {
                let a = hex_groups(segs@.subrange(0, start as int));
                let b = hex_groups(segs@.subrange(start + len, 8));
                assert(ascii_bytes(seq![':', ':']) =~= seq![58u8, 58u8]);
                lemma_ascii_bytes_concat(a, seq![':', ':']);
                lemma_ascii_bytes_concat(a + seq![':', ':'], b);
                assert(final(out)@ =~= old(out)@ + ascii_bytes(ipv6_text(o@)));
            }
        } else {
            push_hex_groups(out, &segs, 0, 8);
            assert(segs@.subrange(0, 8) =~= segs@);
        }
    }
}

impl TargetRequest {
    /// The `host:port` text of the target: the domain as given, the
    /// dotted text of an IPv4 address or the bracketed canonical text of an
    /// IPv6 address, then a colon and the port as an unsigned decimal number.
    pub fn to_addressstring(&self) -> (s: String)
        ensures
            s@ == target_text(self@),
    {
        let port: u16 = self.port as u16;
        let mut port_text: Vec<u8> = Vec::new();
        port_text.push(58u8);
        push_decimal(&mut port_text, port as u64);
        let ghost port_chars = seq![':'] + nat_decimal(port as nat);
        proof {
            lemma_nat_decimal_ascii(port as nat);
            assert(is_ascii_chars(seq![':']));
            lemma_ascii_concat(seq![':'], nat_decimal(port as nat));
            lemma_ascii_bytes_concat(seq![':'], nat_decimal(port as nat));
            assert(ascii_bytes(seq![':']) =~= seq![58u8]);
            assert(port_text@ =~= ascii_bytes(port_chars));
        }
        match &self.address {
            SocksAddr::DOMAIN(d) => {
                let mut s = d.clone();
                let suffix = ascii_string(port_text, Ghost(port_chars));
                s.append(suffix.as_str());
                assert(s@ =~= target_text(self@));
                s
            },
            SocksAddr::IPV4(o) => {
                let mut out: Vec<u8> = Vec::new();
                push_ipv4(&mut out, o);
                let ghost host = ipv4_text(o@);
                let mut p = port_text;
                out.append(&mut p);
                proof {
                    lemma_ipv4_text_ascii(o@);
                    lemma_ascii_concat(host, port_chars);
                    assert(out@ =~= ascii_bytes(host + port_chars));
                }
                let s = ascii_string(out, Ghost(host + port_chars));
                assert(s@ =~= target_text(self@));
                s
            },
            SocksAddr::IPV6(o) => {
                let mut out: Vec<u8> = Vec::new();
                out.push(91u8);
                push_ipv6(&mut out, o);
                out.push(93u8);
                let ghost host = seq!['['] + ipv6_text(o@) + seq![']'];
                let mut p = port_text;
                out.append(&mut p);
                proof {
                    lemma_ipv6_text_ascii(o@);
                    assert(is_ascii_chars(seq!['[']));
                    assert(is_ascii_chars(seq![']']));
                    lemma_ascii_concat(seq!['['], ipv6_text(o@));
                    lemma_ascii_concat(seq!['['] + ipv6_text(o@), seq![']']);
                    lemma_ascii_concat(host, port_chars);
                    lemma_ascii_bytes_concat(seq!['['], ipv6_text(o@));
                    lemma_ascii_bytes_concat(seq!['['] + ipv6_text(o@), seq![']']);
                    lemma_ascii_bytes_concat(host, port_chars);
                    assert(ascii_bytes(seq!['[']) =~= seq![91u8]);
                    assert(ascii_bytes(seq![']']) =~= seq![93u8]);
                    assert(out@ =~= ascii_bytes(host + port_chars));
                }
                let s = ascii_string(out, Ghost(host + port_chars));
                assert(s@ =~= target_text(self@));
                s
            },
        }
    }
}

} // verus!
