//! The decisions of the back end: answering heartbeats, reading the target
//! of an address request, and what to do with each frame from the front end.
use vstd::prelude::*;
use vstd::utf8::*;
use std::collections::HashMap;
use crate::message::{
    payload_bytes, type_of, FrameView, ProxyRequest, ProxyResponse, ProxyResponseType,
    ProxyTransfer, TransferView,
};
use crate::frontend::{
    backend_action, request_frame, response_routable, route, target_answer, AgentActionView,
    ConnectorResponseView, FrontendActionView,
};
use crate::socks::message::{
    addr_host, ip_char, ip_chars, ipv4_text, lemma_ipv4_ip_chars, lemma_ipv6_ip_chars, target_text,
    AddrView, TargetRequestView, TargetResponseType,
};
use crate::text::{
    ascii_bytes, decimal_digit, lemma_ascii_bytes_concat, lemma_ascii_concat, lemma_decimal_digit,
    lemma_nat_decimal_ascii, nat_decimal, string_from_utf8,
};

verus! {

/// The answer to a heartbeat: the same connection id and index; `None` for
/// any other frame.
pub fn process_heartbeat(msg: ProxyRequest) -> (r: Option<ProxyResponse>)
    ensures
        match msg@.transfer {
            TransferView::Heartbeat(i) => r matches Some(resp) && resp@ == request_frame(
                msg@.uuid,
                TransferView::Heartbeat(i),
            ),
            _ => r is None,
        },
{
    let uuid = msg.uuid();
    match msg.into_transfer() {
        ProxyTransfer::Heartbeat(index) => Some(ProxyResponse::new(uuid, ProxyTransfer::Heartbeat(index))),
        _ => None,
    }
}

/// The index of the first byte `x` in `b` at or after `from`.
pub open spec fn byte_index(b: Seq<u8>, x: u8, from: nat) -> Option<nat>
    decreases b.len() - from,
{
    if from >= b.len() {
        None
    } else if b[from as int] == x {
        Some(from)
    } else {
        byte_index(b, x, from + 1)
    }
}

/// Whether every byte is an ASCII digit.
pub open spec fn all_digits(d: Seq<u8>) -> bool {
    forall|i: int| 0 <= i < d.len() ==> 48 <= #[trigger] d[i] <= 57
}

/// The value of a string of decimal digits.
pub open spec fn decimal_value(d: Seq<u8>) -> nat
    decreases d.len(),
{
    if d.len() == 0 {
        0
    } else {
        decimal_value(d.drop_last()) * 10 + (d.last() - 48) as nat
    }
}

/// The port that text names, as `u16` parsing reads it: an optional `+`,
/// then one or more decimal digits whose value fits in 16 bits.
pub open spec fn port_value(b: Seq<u8>) -> Option<u16> {
    let d = if b.len() > 0 && b[0] == 43 {
        b.drop_first()
    } else {
        b
    };
    if d.len() == 0 || !all_digits(d) || decimal_value(d) > 65535 {
        None
    } else {
        Some(decimal_value(d) as u16)
    }
}

/// The port of the text after a host's colon: the text up to the next colon
/// or the end.
pub open spec fn port_after(rest: Seq<u8>) -> Option<u16> {
    let second = match byte_index(rest, 58, 0) {
        Some(j) => rest.take(j as int),
        None => rest,
    };
    port_value(second)
}

/// The host bytes and port of an address request's bytes: where they start
/// with `[`, the host is what lies between it and the first `]`, which a
/// colon must follow; otherwise the host is what precedes the first colon.
/// The port is read from the text after that colon.
pub open spec fn host_port_parts(b: Seq<u8>) -> Option<(Seq<u8>, u16)> {
    if b.len() > 0 && b[0] == 91 {
        match byte_index(b, 93, 1) {
            Some(j) => if j + 1 < b.len() && b[(j + 1) as int] == 58 {
                match port_after(b.skip((j + 2) as int)) {
                    Some(p) => Some((b.subrange(1, j as int), p)),
                    None => None,
                }
            } else {
                None
            },
            None => None,
        }
    } else {
        match byte_index(b, 58, 0) {
            None => None,
            Some(i) => match port_after(b.skip((i + 1) as int)) {
                Some(p) => Some((b.take(i as int), p)),
                None => None,
            },
        }
    }
}

/// The host and port of an address request, read from its UTF-8 bytes (see
/// `host_port_parts`); `None` where there is no host and port or the host is
/// not UTF-8.
pub open spec fn host_port(b: Seq<u8>) -> Option<(Seq<u8>, u16)> {
    match host_port_parts(b) {
        Some((h, p)) => if valid_utf8(h) {
            Some((h, p))
        } else {
            None
        },
        None => None,
    }
}

proof fn lemma_byte_index_bounds(b: Seq<u8>, x: u8, from: nat)
    ensures
        byte_index(b, x, from) matches Some(i) ==> from <= i < b.len() && b[i as int] == x && (
        forall|k: int| from <= k < i ==> b[k] != x),
        byte_index(b, x, from) is None ==> forall|k: int| from <= k < b.len() ==> b[k] != x,
    decreases b.len() - from,
{
    if from < b.len() && b[from as int] != x {
        lemma_byte_index_bounds(b, x, from + 1);
    }
}

/// The first byte `x` at or after `from`.
fn find_byte(b: &[u8], x: u8, from: usize) -> (r: Option<usize>)
    requires
        from <= b@.len(),
    ensures
        r matches Some(i) ==> byte_index(b@, x, from as nat) == Some(i as nat),
        r is None ==> byte_index(b@, x, from as nat) is None,
{
    let mut i = from;
    while i < b.len()
        invariant
            from <= i <= b@.len(),
            byte_index(b@, x, from as nat) == byte_index(b@, x, i as nat),
        decreases b@.len() - i,
    {
        if b[i] == x {
            return Some(i);
        }
        i = i + 1;
    }
    None
}

proof fn lemma_decimal_value_prefix(d: Seq<u8>, i: int)
    requires
        0 <= i <= d.len(),
        all_digits(d),
    ensures
        decimal_value(d) >= decimal_value(d.take(i)),
    decreases d.len() - i,
{
    if i < d.len() {
        lemma_decimal_value_prefix(d, i + 1);
        assert(d.take(i + 1).drop_last() =~= d.take(i));
        assert(48 <= d[i]);
        assert(d.take(i + 1).last() == d[i]);
    } else {
        assert(d.take(i) =~= d);
    }
}

/// The port that text names; see `port_value`.
pub fn parse_port(b: &[u8]) -> (r: Option<u16>)
    ensures
        r == port_value(b@),
{
    let start: usize = if b.len() > 0 && b[0] == 43 { 1 } else { 0 };
    let ghost d = if b@.len() > 0 && b@[0] == 43 { b@.drop_first() } else { b@ };
    assert(d =~= b@.skip(start as int));
    if start == b.len() {
        return None;
    }
    let mut value: u32 = 0;
    let mut i = start;
    while i < b.len()
        invariant
            start <= i <= b@.len(),
            start < b@.len(),
            d == (if b@.len() > 0 && b@[0] == 43 { b@.drop_first() } else { b@ }),
            d =~= b@.skip(start as int),
            all_digits(b@.subrange(start as int, i as int)),
            value == decimal_value(b@.subrange(start as int, i as int)),
            value <= 65535,
        decreases b@.len() - i,
    {
        let c = b[i];
        if c < 48 || c > 57 {
            assert(d[i - start] == c);
            assert(!all_digits(d));
            return None;
        }
        assert(b@.subrange(start as int, i + 1).drop_last() =~= b@.subrange(start as int, i as int));
        assert(b@.subrange(start as int, i + 1).last() == c);
        value = value * 10 + (c - 48) as u32;
        assert(value == decimal_value(b@.subrange(start as int, i + 1)));
        assert(all_digits(b@.subrange(start as int, i + 1))) by {
            assert forall|k: int| 0 <= k < i + 1 - start implies 48 <= #[trigger] b@.subrange(start as int, i + 1)[k] <= 57 by {
                if k < i - start {
                    assert(b@.subrange(start as int, i + 1)[k] == b@.subrange(start as int, i as int)[k]);
                }
            }
        }
        if value > 65535 {
            proof {
                assert(d.take(i + 1 - start) =~= b@.subrange(start as int, i + 1));
                if all_digits(d) {
                    lemma_decimal_value_prefix(d, i + 1 - start);
                }
            }
            return None;
        }
        i = i + 1;
    }
    assert(b@.subrange(start as int, b@.len() as int) =~= d);
    Some(value as u16)
}

/// The port of the text after a host's colon; see `port_after`.
fn read_port_after(rest: &[u8]) -> (r: Option<u16>)
    ensures
        r == port_after(rest@),
{
    let second = match find_byte(rest, 58, 0) {
        Some(j) => {
            proof {
                lemma_byte_index_bounds(rest@, 58, 0);
            }
            vstd::slice::slice_subrange(rest, 0, j)
        },
        None => rest,
    };
    parse_port(second)
}

/// The host and port of an address request; see `host_port`. The host of
/// `[host]:port` is what the brackets hold.
pub fn parse_host_port(addr: &String) -> (r: Option<(String, u16)>)
    ensures
        match host_port(encode_utf8(addr@)) {
            None => r is None,
            Some((h, p)) => r matches Some((hs, ps)) && hs@ == decode_utf8(h) && ps == p,
        },
{
    let b = addr.as_str().as_bytes();
    let n = b.len();
    let (start, end, port) = if n > 0 && b[0] == 91 {
        let j = match find_byte(b, 93, 1) {
            None => return None,
            Some(j) => j,
        };
        proof {
            lemma_byte_index_bounds(b@, 93, 1);
        }
        if j + 1 >= n || b[j + 1] != 58 {
            return None;
        }
        let rest = vstd::slice::slice_subrange(b, j + 2, n);
        assert(rest@ =~= b@.skip(j + 2));
        let p = match read_port_after(rest) {
            None => return None,
            Some(p) => p,
        };
        (1usize, j, p)
    } else {
        let i = match find_byte(b, 58, 0) {
            None => return None,
            Some(i) => i,
        };
        proof {
            lemma_byte_index_bounds(b@, 58, 0);
        }
        let rest = vstd::slice::slice_subrange(b, i + 1, n);
        assert(rest@ =~= b@.skip(i + 1));
        let p = match read_port_after(rest) {
            None => return None,
            Some(p) => p,
        };
        (0usize, i, p)
    };
    let host_bytes = vstd::slice::slice_to_vec(vstd::slice::slice_subrange(b, start, end));
    assert(host_bytes@ =~= b@.subrange(start as int, end as int));
    assert(start == 0 ==> b@.subrange(0, end as int) =~= b@.take(end as int));
    match string_from_utf8(host_bytes) {
        Some(host) => Some((host, port)),
        None => None,
    }
}

/// Whether a text holds no colon.
pub open spec fn colon_free(s: Seq<char>) -> bool {
    forall|i: int| 0 <= i < s.len() ==> #[trigger] s[i] != ':'
}

proof fn lemma_encode_utf8_concat(a: Seq<char>, b: Seq<char>)
    ensures
        encode_utf8(a + b) == encode_utf8(a) + encode_utf8(b),
    decreases a.len(),
{
    if a.len() == 0 {
        assert(a + b =~= b);
        assert(encode_utf8(a) + encode_utf8(b) =~= encode_utf8(b));
    } else {
        assert((a + b)[0] == a[0]);
        assert((a + b).drop_first() =~= a.drop_first() + b);
        lemma_encode_utf8_concat(a.drop_first(), b);
        assert(encode_utf8(a + b) =~= encode_utf8(a) + encode_utf8(b));
    }
}

/// The UTF-8 bytes of a character other than the ASCII character `x` hold
/// no byte `x`.
proof fn lemma_scalar_avoids(c: char, x: u8)
    requires
        x < 128,
        c as u32 != x as u32,
    ensures
        forall|j: int| 0 <= j < encode_scalar(c as u32).len() ==> #[trigger] encode_scalar(c as u32)[j] != x,
{
    let v = c as u32;
    assert(has_width_1_encoding(v) && v != x as u32 ==> leading_byte_width_1(v) != x) by (bit_vector);
    assert(x < 128 ==> leading_byte_width_2(v) != x) by (bit_vector);
    assert(x < 128 ==> leading_byte_width_3(v) != x) by (bit_vector);
    assert(x < 128 ==> leading_byte_width_4(v) != x) by (bit_vector);
    assert(x < 128 ==> last_continuation_byte(v) != x) by (bit_vector);
    assert(x < 128 ==> second_last_continuation_byte(v) != x) by (bit_vector);
    assert(x < 128 ==> third_last_continuation_byte(v) != x) by (bit_vector);
}

proof fn lemma_encode_utf8_colon_free(s: Seq<char>)
    requires
        colon_free(s),
    ensures
        forall|j: int| 0 <= j < encode_utf8(s).len() ==> #[trigger] encode_utf8(s)[j] != 58,
    decreases s.len(),
{
    if s.len() > 0 {
        assert(s[0] != ':');
        assert(':' as u32 == 58u32);
        if s[0] as u32 == 58u32 {
            char_u32_cast(s[0], 58u32);
            char_u32_cast(':', 58u32);
        }
        lemma_scalar_avoids(s[0], 58);
        assert(colon_free(s.drop_first())) by {
            assert forall|i: int| 0 <= i < s.drop_first().len() implies #[trigger] s.drop_first()[i]
                != ':' by {
                assert(s.drop_first()[i] == s[i + 1]);
            }
        }
        lemma_encode_utf8_colon_free(s.drop_first());
        let e0 = encode_scalar(s[0] as u32);
        let r = encode_utf8(s.drop_first());
        assert(encode_utf8(s) == e0 + r);
        assert forall|j: int| 0 <= j < encode_utf8(s).len() implies #[trigger] encode_utf8(s)[j] != 58 by {
            if j < e0.len() {
                assert(encode_utf8(s)[j] == e0[j]);
            } else {
                assert(encode_utf8(s)[j] == r[j - e0.len()]);
            }
        }
    }
}

proof fn lemma_byte_index_at(b: Seq<u8>, x: u8, from: nat, i: nat)
    requires
        from <= i < b.len(),
        b[i as int] == x,
        forall|k: int| from <= k < i ==> b[k] != x,
    ensures
        byte_index(b, x, from) == Some(i),
    decreases i - from,
{
    if from < i {
        lemma_byte_index_at(b, x, from + 1, i);
    }
}

proof fn lemma_byte_index_none(b: Seq<u8>, x: u8, from: nat)
    requires
        forall|k: int| from <= k < b.len() ==> b[k] != x,
    ensures
        byte_index(b, x, from) is None,
    decreases b.len() - from,
{
    if from < b.len() {
        lemma_byte_index_none(b, x, from + 1);
    }
}

/// The decimal text of `n` reads back as `n`.
proof fn lemma_decimal_text_value(n: nat)
    ensures
        all_digits(ascii_bytes(nat_decimal(n))),
        decimal_value(ascii_bytes(nat_decimal(n))) == n,
        ascii_bytes(nat_decimal(n)).len() >= 1,
    decreases n,
{
    let s = ascii_bytes(nat_decimal(n));
    if n < 10 {
        lemma_decimal_digit(n);
        assert(s =~= seq![(48 + n) as u8]);
        assert(s.drop_last() =~= Seq::<u8>::empty());
        assert(decimal_value(s.drop_last()) == 0);
        assert(s.last() == (48 + n) as u8);
    } else {
        lemma_decimal_digit(n % 10);
        lemma_decimal_text_value(n / 10);
        let p = ascii_bytes(nat_decimal(n / 10));
        lemma_ascii_bytes_concat(nat_decimal(n / 10), seq![decimal_digit(n % 10)]);
        assert(ascii_bytes(seq![decimal_digit(n % 10)]) =~= seq![(48 + n % 10) as u8]);
        assert(s =~= p + seq![(48 + n % 10) as u8]);
        assert(s.drop_last() =~= p);
        assert(s.last() == (48 + n % 10) as u8);
        assert(decimal_value(s) == decimal_value(p) * 10 + n % 10);
        assert((n / 10) * 10 + n % 10 == n);
        assert(all_digits(s)) by {
            assert forall|i: int| 0 <= i < s.len() implies 48 <= #[trigger] s[i] <= 57 by {
                if i < p.len() {
                    assert(s[i] == p[i]);
                }
            }
        }
    }
}

proof fn lemma_decimal_colon_free(n: nat)
    ensures
        colon_free(nat_decimal(n)),
    decreases n,
{
    if n >= 10 {
        lemma_decimal_colon_free(n / 10);
        let a = nat_decimal(n / 10);
        let b = seq![decimal_digit(n % 10)];
        assert forall|i: int| 0 <= i < (a + b).len() implies #[trigger] (a + b)[i] != ':' by {
            if i < a.len() {
                assert((a + b)[i] == a[i]);
            }
        }
    }
}

proof fn lemma_concat_colon_free(a: Seq<char>, b: Seq<char>)
    requires
        colon_free(a),
        colon_free(b),
    ensures
        colon_free(a + b),
{
    assert forall|i: int| 0 <= i < (a + b).len() implies #[trigger] (a + b)[i] != ':' by {
        if i < a.len() {
            assert((a + b)[i] == a[i]);
        } else {
            assert((a + b)[i] == b[i - a.len()]);
        }
    }
}

proof fn lemma_ipv4_colon_free(o: Seq<u8>)
    ensures
        colon_free(ipv4_text(o)),
{
    let dot = seq!['.'];
    lemma_decimal_colon_free(o[0] as nat);
    lemma_decimal_colon_free(o[1] as nat);
    lemma_decimal_colon_free(o[2] as nat);
    lemma_decimal_colon_free(o[3] as nat);
    lemma_concat_colon_free(nat_decimal(o[0] as nat), dot);
    lemma_concat_colon_free(nat_decimal(o[0] as nat) + dot, nat_decimal(o[1] as nat));
    lemma_concat_colon_free(nat_decimal(o[0] as nat) + dot + nat_decimal(o[1] as nat), dot);
    lemma_concat_colon_free(
        nat_decimal(o[0] as nat) + dot + nat_decimal(o[1] as nat) + dot,
        nat_decimal(o[2] as nat),
    );
    lemma_concat_colon_free(
        nat_decimal(o[0] as nat) + dot + nat_decimal(o[1] as nat) + dot + nat_decimal(o[2] as nat),
        dot,
    );
    lemma_concat_colon_free(
        nat_decimal(o[0] as nat) + dot + nat_decimal(o[1] as nat) + dot + nat_decimal(o[2] as nat)
            + dot,
        nat_decimal(o[3] as nat),
    );
}

/// The `host:port` text of a host without a colon that does not start with
/// `[`, and a port from 0 to 65535, reads back as that host and that port.
pub proof fn lemma_host_port_text(host: Seq<char>, port: nat)
    requires
        colon_free(host),
        host.len() == 0 || host[0] != '[',
        port <= 65535,
    ensures
        host_port(encode_utf8(host + seq![':'] + nat_decimal(port))) == Some(
            (encode_utf8(host), port as u16),
        ),
        decode_utf8(encode_utf8(host)) == host,
{
    let h = encode_utf8(host);
    let d = ascii_bytes(nat_decimal(port));
    lemma_nat_decimal_ascii(port);
    is_ascii_chars_encode_utf8(nat_decimal(port));
    assert(encode_utf8(nat_decimal(port)) =~= d);
    assert((58u32 & 0x7F) as u8 == 58u8) by (bit_vector);
    assert(encode_utf8(seq![':']) =~= seq![58u8]) by {
        assert(':' as u32 == 58u32);
        assert(seq![':'].drop_first() =~= Seq::<char>::empty());
        assert(encode_utf8(Seq::<char>::empty()) =~= Seq::<u8>::empty());
        assert(encode_scalar(58u32) =~= seq![58u8]);
    }
    lemma_encode_utf8_concat(host, seq![':']);
    lemma_encode_utf8_concat(host + seq![':'], nat_decimal(port));
    let b = encode_utf8(host + seq![':'] + nat_decimal(port));
    assert(b =~= h + seq![58u8] + d);
    lemma_encode_utf8_colon_free(host);
    lemma_byte_index_at(b, 58, 0, h.len());
    lemma_decimal_text_value(port);
    let rest = b.skip((h.len() + 1) as int);
    assert(rest =~= d);
    lemma_byte_index_none(rest, 58, 0);
    assert(b.take(h.len() as int) =~= h);
    assert(d[0] != 43);
    encode_utf8_decode_utf8(host);
    encode_utf8_valid_utf8(host);
    if host.len() > 0 {
        assert('[' as u32 == 91u32);
        lemma_scalar_avoids(host[0], 91);
        assert(encode_utf8(host) =~= encode_scalar(host[0] as u32) + encode_utf8(host.drop_first()));
        assert(encode_scalar(host[0] as u32).len() > 0);
        assert(b[0] == encode_scalar(host[0] as u32)[0]);
    } else {
        assert(b[0] == 58);
    }
}

/// The `[host]:port` text of a host made of the characters of IP addresses
/// and a port from 0 to 65535 reads back as that host and that port.
pub proof fn lemma_bracketed_host_port_text(host: Seq<char>, port: nat)
    requires
        ip_chars(host),
        port <= 65535,
    ensures
        host_port(encode_utf8(seq!['['] + host + seq![']'] + seq![':'] + nat_decimal(port))) == Some(
            (encode_utf8(host), port as u16),
        ),
        decode_utf8(encode_utf8(host)) == host,
{
    let dec = nat_decimal(port);
    let t = seq!['['] + host + seq![']'] + seq![':'] + dec;
    let l = host.len() as int;
    lemma_nat_decimal_ascii(port);
    assert(is_ascii_chars(host));
    assert(is_ascii_chars(seq!['[']));
    assert(is_ascii_chars(seq![']']));
    assert(is_ascii_chars(seq![':']));
    lemma_ascii_concat(seq!['['], host);
    lemma_ascii_concat(seq!['['] + host, seq![']']);
    lemma_ascii_concat(seq!['['] + host + seq![']'], seq![':']);
    lemma_ascii_concat(seq!['['] + host + seq![']'] + seq![':'], dec);
    is_ascii_chars_encode_utf8(t);
    is_ascii_chars_encode_utf8(host);
    let b = encode_utf8(t);
    assert(t.len() == l + 3 + dec.len());
    assert(t[0] == '[');
    assert(t[l + 1] == ']');
    assert(t[l + 2] == ':');
    assert('[' as u8 == 91u8 && ']' as u8 == 93u8 && ':' as u8 == 58u8);
    assert(b[0] == 91);
    assert(b[l + 1] == 93);
    assert(b[l + 2] == 58);
    assert forall|k: int| 1 <= k < l + 1 implies b[k] != 93 by {
        assert(t[k] == host[k - 1]);
        assert(ip_char(host[k - 1]));
    }
    lemma_byte_index_at(b, 93, 1, (l + 1) as nat);
    let h = b.subrange(1, l + 1);
    assert forall|k: int| 0 <= k < l implies h[k] == encode_utf8(host)[k] by {
        assert(t[k + 1] == host[k]);
    }
    assert(h =~= encode_utf8(host));
    let rest = b.skip(l + 3);
    let d = ascii_bytes(dec);
    assert forall|k: int| 0 <= k < dec.len() implies rest[k] == d[k] by {
        assert(t[l + 3 + k] == dec[k]);
    }
    assert(rest =~= d);
    lemma_decimal_text_value(port);
    lemma_byte_index_none(rest, 58, 0);
    assert(d[0] != 43);
    encode_utf8_decode_utf8(host);
    encode_utf8_valid_utf8(host);
}

/// What an agent asks the back end to reach is what the back end connects
/// to: the host of the target (an IPv4 or IPv6 address, or a domain without
/// a colon that does not start with `[`) and its port.
pub proof fn lemma_target_reaches_backend(uuid: u16, t: TargetRequestView)
    requires
        (t.address matches AddrView::DOMAIN(d) ==> colon_free(d) && (d.len() == 0 || d[0] != '[')),
    ensures
        request_handleable(request_frame(uuid, TransferView::RequestAddr(target_text(t))), false),
        backend_step(request_frame(uuid, TransferView::RequestAddr(target_text(t))))
            == (BackendActionView::Connect {
                uuid,
                host: addr_host(t.address),
                port: t.port as u16,
            }),
{
    let host = addr_host(t.address);
    let port = t.port as u16 as nat;
    match t.address {
        AddrView::IPV6(o) => {
            lemma_ipv6_ip_chars(o);
            assert(target_text(t) =~= seq!['['] + host + seq![']'] + seq![':'] + nat_decimal(port));
            lemma_bracketed_host_port_text(host, port);
        },
        AddrView::IPV4(o) => {
            lemma_ipv4_colon_free(o);
            lemma_ipv4_ip_chars(o);
            assert(host.len() > 0);
            assert(ip_char(host[0]));
            lemma_host_port_text(host, port);
        },
        AddrView::DOMAIN(d) => {
            lemma_host_port_text(host, port);
        },
    }
}

/// What the back end does with a frame from the front end.
pub enum BackendAction {
    /// Resolve `host` and connect to it on `port` for connection `uuid`.
    Connect { uuid: u16, host: String, port: u16 },
    /// Write `data` to the target of connection `uuid`.
    Forward { uuid: u16, data: Vec<u8> },
    /// Send this frame back.
    Reply(ProxyResponse),
}

/// The back end's next step, as a value.
pub enum BackendActionView {
    Connect { uuid: u16, host: Seq<char>, port: u16 },
    Forward { uuid: u16, data: Seq<u8> },
    Reply(FrameView),
}

impl View for BackendAction {
    type V = BackendActionView;

    open spec fn view(&self) -> BackendActionView {
        match self {
            BackendAction::Connect { uuid, host, port } => BackendActionView::Connect {
                uuid: *uuid,
                host: host@,
                port: *port,
            },
            BackendAction::Forward { uuid, data } => BackendActionView::Forward {
                uuid: *uuid,
                data: data@,
            },
            BackendAction::Reply(r) => BackendActionView::Reply(r@),
        }
    }
}

/// Whether the back end can take a frame: data needs an open connection, and
/// outcomes never travel this way.
pub open spec fn request_handleable(f: FrameView, has_connection: bool) -> bool {
    match f.transfer {
        TransferView::RequestAddr(_) => true,
        TransferView::Data(_) => has_connection,
        TransferView::Response(_) => false,
        TransferView::Heartbeat(_) => true,
    }
}

/// The back end's step for a handleable frame: an address request that
/// names a host and a port becomes a connection attempt, and any other is
/// refused; data is forwarded; a heartbeat is echoed.
pub open spec fn backend_step(f: FrameView) -> BackendActionView {
    match f.transfer {
        TransferView::RequestAddr(a) => match host_port(encode_utf8(a)) {
            Some((h, p)) => BackendActionView::Connect { uuid: f.uuid, host: decode_utf8(h), port: p },
            None => BackendActionView::Reply(
                request_frame(f.uuid, TransferView::Response(ProxyResponseType::ConnectionRefused)),
            ),
        },
        TransferView::Data(d) => BackendActionView::Forward { uuid: f.uuid, data: d },
        TransferView::Heartbeat(i) => BackendActionView::Reply(
            request_frame(f.uuid, TransferView::Heartbeat(i)),
        ),
        TransferView::Response(_) => BackendActionView::Forward { uuid: f.uuid, data: seq![] },
    }
}

/// Whether the back end can take `item`; see `request_handleable`.
pub fn is_handleable(item: &ProxyRequest, has_connection: bool) -> (b: bool)
    ensures
        b == request_handleable(item@, has_connection),
{
    match item.transfer() {
        ProxyTransfer::RequestAddr(_) => true,
        ProxyTransfer::Data(_) => has_connection,
        ProxyTransfer::Response(_) => false,
        ProxyTransfer::Heartbeat(_) => true,
    }
}

/// The back end's step for `item`; see `backend_step`. `has_connection`
/// says whether connection `item.uuid` is open.
pub fn handle_message(item: ProxyRequest, has_connection: bool) -> (a: BackendAction)
    requires
        request_handleable(item@, has_connection),
    ensures
        a@ == backend_step(item@),
{
    let uuid = item.uuid();
    match item.into_transfer() {
        ProxyTransfer::RequestAddr(addr) => match parse_host_port(&addr) {
            Some((host, port)) => BackendAction::Connect { uuid, host, port },
            None => BackendAction::Reply(
                ProxyResponse::new(uuid, ProxyTransfer::Response(ProxyResponseType::ConnectionRefused)),
            ),
        },
        ProxyTransfer::Data(data) => BackendAction::Forward { uuid, data },
        ProxyTransfer::Heartbeat(index) => BackendAction::Reply(
            ProxyResponse::new(uuid, ProxyTransfer::Heartbeat(index)),
        ),
        ProxyTransfer::Response(_) => BackendAction::Forward { uuid, data: Vec::new() },
    }
}

/// How reaching a target went, or that its connection died.
#[derive(Clone, Copy, PartialEq, Eq, Structural)]
pub enum ConnectOutcome {
    Established,
    TimedOut,
    Failed,
    Dead,
}

/// The outcome a connection attempt reports.
pub open spec fn outcome_code(o: ConnectOutcome) -> ProxyResponseType {
    match o {
        ConnectOutcome::Established => ProxyResponseType::Succeeded,
        ConnectOutcome::TimedOut => ProxyResponseType::Timeout,
        ConnectOutcome::Failed => ProxyResponseType::ConnectionRefused,
        ConnectOutcome::Dead => ProxyResponseType::Abort,
    }
}

/// The frame that reports `outcome` for connection `uuid`: success when
/// the connection is established, timeout when resolving timed out, refusal
/// for any other failure, abort when an established connection died.
pub fn outcome_response(uuid: u16, outcome: ConnectOutcome) -> (r: ProxyResponse)
    ensures
        r@ == request_frame(uuid, TransferView::Response(outcome_code(outcome))),
{
    let code = match outcome {
        ConnectOutcome::Established => ProxyResponseType::Succeeded,
        ConnectOutcome::TimedOut => ProxyResponseType::Timeout,
        ConnectOutcome::Failed => ProxyResponseType::ConnectionRefused,
        ConnectOutcome::Dead => ProxyResponseType::Abort,
    };
    ProxyResponse::new(uuid, ProxyTransfer::Response(code))
}

/// What an agent hears of the outcome of its connection attempt.
pub open spec fn outcome_heard(o: ConnectOutcome) -> ConnectorResponseView {
    match o {
        ConnectOutcome::Established => ConnectorResponseView::Succeeded,
        ConnectOutcome::TimedOut => ConnectorResponseView::Failed,
        ConnectOutcome::Failed => ConnectorResponseView::Failed,
        ConnectOutcome::Dead => ConnectorResponseView::Abort,
    }
}

/// The back end's answers mean to the front end what they say: the echo of
/// heartbeat `i` is taken as the answer to heartbeat `i`, and the outcome of
/// a connection attempt and the data of a connection other than 0 reach the
/// agent of that connection.
pub proof fn lemma_backend_answers_reach_frontend(uuid: u16, i: u32, o: ConnectOutcome, d: Seq<u8>)
    requires
        uuid != 0,
    ensures
        backend_step(request_frame(0, TransferView::Heartbeat(i))) matches BackendActionView::Reply(f)
            && response_routable(f) && route(f) == FrontendActionView::HeartbeatAck(i),
        response_routable(request_frame(uuid, TransferView::Response(outcome_code(o)))),
        route(request_frame(uuid, TransferView::Response(outcome_code(o))))
            == FrontendActionView::ToAgent(uuid, outcome_heard(o)),
        response_routable(request_frame(uuid, TransferView::Data(d))),
        route(request_frame(uuid, TransferView::Data(d))) == FrontendActionView::ToAgent(
            uuid,
            ConnectorResponseView::Data(d),
        ),
{
}

/// The SOCKS5 client hears success exactly when the back end established
/// its connection: the frame that reports outcome `o` reaches the agent of
/// its connection, and the agent answers its client with a succeeded target
/// response just when `o` is an established connection. Distinct outcomes
/// are reported by distinct codes.
pub proof fn lemma_client_told_success_iff_established(uuid: u16, o: ConnectOutcome, o2: ConnectOutcome)
    requires
        uuid != 0,
    ensures
        route(request_frame(uuid, TransferView::Response(outcome_code(o)))) matches FrontendActionView::ToAgent(
            u,
            c,
        ) && u == uuid && (backend_action(c) == AgentActionView::Reply(
            target_answer(TargetResponseType::Succeeded, "123"@),
        ) <==> o == ConnectOutcome::Established),
        outcome_code(o) == outcome_code(o2) ==> o == o2,
{
}

/// What happens to the back end's table of connections: a connection is
/// established, one is closed (its target closed or writing to it failed),
/// or data read from a target is to be sent.
pub enum TableEvent {
    Established(u16),
    Closed(u16),
    DataFrom(u16),
}

/// How the open connection ids change with one event.
pub open spec fn table_step(before: Set<u16>, e: TableEvent, after: Set<u16>) -> bool {
    match e {
        TableEvent::Established(u) => after == before.insert(u),
        TableEvent::Closed(u) => after == before.remove(u),
        TableEvent::DataFrom(_) => after == before,
    }
}

/// Success is reported before any data: over any run from an empty table,
/// where `opens` holds the open ids before each event and after the last,
/// a connection open at step `i` (as data from its target needs) was
/// established at an earlier step, which reported its success.
pub proof fn lemma_success_before_data(
    events: Seq<TableEvent>,
    opens: Seq<Set<u16>>,
    i: int,
    u: u16,
)
    requires
        opens.len() == events.len() + 1,
        opens[0] == Set::<u16>::empty(),
        forall|k: int| 0 <= k < events.len() ==> table_step(#[trigger] opens[k], events[k], opens[k + 1]),
        0 <= i <= events.len(),
        opens[i].contains(u),
    ensures
        exists|j: int| 0 <= j < i && events[j] == TableEvent::Established(u),
    decreases i,
{
    if i > 0 {
        let k = i - 1;
        assert(table_step(opens[k], events[k], opens[k + 1]));
        if events[k] == TableEvent::Established(u) {
            assert(events[k] == TableEvent::Established(u));
        } else {
            match events[k] {
                TableEvent::Established(v) => {
                    assert(opens[k].contains(u));
                },
                TableEvent::Closed(v) => {
                    assert(opens[k].contains(u));
                },
                TableEvent::DataFrom(_) => {
                    assert(opens[k].contains(u));
                },
            }
            lemma_success_before_data(events, opens, k, u);
        }
    }
}

/// Whether connection `u` was established at some step of `log`.
pub open spec fn established_in(log: Seq<TableEvent>, u: u16) -> bool {
    exists|j: int| 0 <= j < log.len() && log[j] == TableEvent::Established(u)
}

/// A step added to a log keeps what it established, and establishing `u`
/// is in the log from then on.
proof fn lemma_established_push(log: Seq<TableEvent>, e: TableEvent, u: u16)
    ensures
        established_in(log, u) ==> established_in(log.push(e), u),
        e == TableEvent::Established(u) ==> established_in(log.push(e), u),
{
    if established_in(log, u) {
        let j = choose|j: int| 0 <= j < log.len() && log[j] == TableEvent::Established(u);
        assert(log.push(e)[j] == TableEvent::Established(u));
    }
    assert(log.push(e)[log.len() as int] == e);
}

/// The connections the back end holds open, by connection id, each with
/// what writes to its target, and (as a ghost) the connections established
/// and closed so far.
pub struct ConnectionTable<W> {
    conns: HashMap<u16, W>,
    log: Ghost<Seq<TableEvent>>,
}

impl<W> ConnectionTable<W> {
    /// Every open connection was established at some step of the log.
    #[verifier::type_invariant]
    closed spec fn opened_by_log(&self) -> bool {
        forall|u: u16| #[trigger] self.conns@.contains_key(u) ==> established_in(self.log@, u)
    }

    /// The writer of each open connection, by its id.
    pub closed spec fn map(&self) -> Map<u16, W> {
        self.conns@
    }

    /// The connections established and closed since `new`, in order.
    pub closed spec fn log(&self) -> Seq<TableEvent> {
        self.log@
    }

    /// Whether connection `uuid` is open.
    pub open spec fn opens(&self, uuid: u16) -> bool {
        self.map().contains_key(uuid)
    }

    /// No connection open, no step taken.
    pub fn new() -> (t: ConnectionTable<W>)
        ensures
            t.map() == Map::<u16, W>::empty(),
            t.log() == Seq::<TableEvent>::empty(),
    {
        broadcast use vstd::std_specs::hash::group_hash_axioms;
        ConnectionTable { conns: HashMap::new(), log: Ghost(Seq::empty()) }
    }

    /// Whether connection `uuid` is open.
    pub fn is_open(&self, uuid: u16) -> (b: bool)
        ensures
            b == self.opens(uuid),
    {
        broadcast use vstd::std_specs::hash::group_hash_axioms;
        self.conns.contains_key(&uuid)
    }

    /// The writer of connection `uuid`, while it is open.
    pub fn writer(&self, uuid: u16) -> (w: Option<&W>)
        ensures
            match w {
                Some(x) => self.opens(uuid) && *x == self.map()[uuid],
                None => !self.opens(uuid),
            },
    {
        broadcast use vstd::std_specs::hash::group_hash_axioms;
        self.conns.get(&uuid)
    }

    /// The back end's step for `item` given the open connections: `None`
    /// where it cannot take the frame (data for a connection that is not
    /// open, or an outcome), else the step of `backend_step`.
    pub fn frame_step(&self, item: ProxyRequest) -> (a: Option<BackendAction>)
        ensures
            a is None <==> !request_handleable(item@, self.opens(item@.uuid)),
            a matches Some(x) ==> x@ == backend_step(item@),
    {
        let open = self.is_open(item.uuid());
        if is_handleable(&item, open) {
            Some(handle_message(item, open))
        } else {
            None
        }
    }

    /// Records the connection to the target of `uuid` as open, with `w`
    /// writing to it (replacing what an open one had), and gives the frame
    /// that reports success.
    pub fn established(&mut self, uuid: u16, w: W) -> (r: ProxyResponse)
        ensures
            final(self).map() == old(self).map().insert(uuid, w),
            final(self).log() == old(self).log().push(TableEvent::Established(uuid)),
            table_step(old(self).map().dom(), TableEvent::Established(uuid), final(self).map().dom()),
            r@ == request_frame(uuid, TransferView::Response(ProxyResponseType::Succeeded)),
    {
        broadcast use vstd::std_specs::hash::group_hash_axioms;
        proof {
            use_type_invariant(&*self);
        }
        let ghost log = self.log@.push(TableEvent::Established(uuid));
        let mut conns = HashMap::new();
        std::mem::swap(&mut conns, &mut self.conns);
        let ghost before = conns@;
        let _ = conns.insert(uuid, w);
        self.log = Ghost(log);
        proof {
            assert forall|u: u16| #[trigger] conns@.contains_key(u) implies established_in(log, u) by {
                lemma_established_push(old(self).log@, TableEvent::Established(uuid), u);
                if u != uuid {
                    assert(before.contains_key(u));
                }
            }
        }
        self.conns = conns;
        outcome_response(uuid, ConnectOutcome::Established)
    }

    /// The frame carrying `data` read from the target of connection `uuid`,
    /// while it is open; `None` once it is not. Data only ever goes out on a
    /// connection whose success was reported at an earlier step.
    pub fn target_data(&self, uuid: u16, data: Vec<u8>) -> (r: Option<ProxyResponse>)
        ensures
            r is Some <==> self.opens(uuid),
            table_step(self.map().dom(), TableEvent::DataFrom(uuid), self.map().dom()),
            r matches Some(f) ==> f@ == request_frame(uuid, TransferView::Data(data@)),
            r is Some ==> established_in(self.log(), uuid),
    {
        proof {
            use_type_invariant(self);
        }
        if self.is_open(uuid) {
            Some(ProxyResponse::new(uuid, ProxyTransfer::Data(data)))
        } else {
            None
        }
    }

    /// Forgets connection `uuid` after writing to its target failed.
    pub fn write_failed(&mut self, uuid: u16)
        ensures
            final(self).map() == old(self).map().remove(uuid),
            final(self).log() == old(self).log().push(TableEvent::Closed(uuid)),
            table_step(old(self).map().dom(), TableEvent::Closed(uuid), final(self).map().dom()),
    {
        broadcast use vstd::std_specs::hash::group_hash_axioms;
        proof {
            use_type_invariant(&*self);
        }
        let ghost log = self.log@.push(TableEvent::Closed(uuid));
        let mut conns = HashMap::new();
        std::mem::swap(&mut conns, &mut self.conns);
        let ghost before = conns@;
        let _ = conns.remove(&uuid);
        self.log = Ghost(log);
        proof {
            assert forall|u: u16| #[trigger] conns@.contains_key(u) implies established_in(log, u) by {
                lemma_established_push(old(self).log@, TableEvent::Closed(uuid), u);
                assert(before.contains_key(u));
            }
        }
        self.conns = conns;
    }

    /// Forgets connection `uuid` after its target closed, and gives the
    /// frame that reports the abort.
    pub fn died(&mut self, uuid: u16) -> (r: ProxyResponse)
        ensures
            final(self).map() == old(self).map().remove(uuid),
            final(self).log() == old(self).log().push(TableEvent::Closed(uuid)),
            table_step(old(self).map().dom(), TableEvent::Closed(uuid), final(self).map().dom()),
            r@ == request_frame(uuid, TransferView::Response(ProxyResponseType::Abort)),
    {
        self.write_failed(uuid);
        outcome_response(uuid, ConnectOutcome::Dead)
    }
}

} // verus!
