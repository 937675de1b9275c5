//! Plaintext frames: a 16-byte connection id, the payload length
//! (big-endian u32), the transfer type, then the payload.
use vstd::prelude::*;
use vstd::utf8::*;
use crate::text::string_from_utf8;
use crate::wire::{be32, be32_value, lemma_be32_roundtrip, read_u32, write_u32};

verus! {

broadcast use {encode_utf8_valid_utf8, encode_utf8_decode_utf8};

/// What a SOCKS client actor hears about its connection.
pub enum ConnectorResponse {
    Succeeded,
    Failed,
    Data(Vec<u8>),
}

/// A codec that hands over whatever bytes have arrived.
pub struct BytesCodec;

impl BytesCodec {
    /// All buffered bytes, or nothing when the buffer is empty.
    pub fn decode(&mut self, src: &mut Vec<u8>) -> (r: Option<Vec<u8>>)
        ensures
            old(src)@.len() == 0 ==> r is None && final(src)@ == old(src)@,
            old(src)@.len() > 0 ==> (r matches Some(b) && b@ == old(src)@) && final(src)@.len() == 0,
    {
        if src.len() == 0 {
            return None;
        }
        let mut taken: Vec<u8> = Vec::new();
        std::mem::swap(src, &mut taken);
        Some(taken)
    }
}

/// The kind of a transfer, as its type byte names it.
#[derive(Debug, Clone, Copy, PartialEq, Eq, Structural)]
pub enum ProxyTransferType {
    Data,
    RequestAddr,
    Response,
    Heartbeat,
}

/// What one frame carries.
#[derive(Debug, PartialEq, Eq)]
pub enum ProxyTransfer {
    Data(Vec<u8>),
    RequestAddr(String),
    Response(ProxyResponseType),
    Heartbeat,
}

/// The outcome of a connection attempt.
#[derive(Debug, Clone, Copy, PartialEq, Eq, Structural)]
pub enum ProxyResponseType {
    Succeeded,
    ConnectionRefused,
    Timeout,
}

/// A frame from the client to the server.
#[derive(Debug, PartialEq, Eq)]
pub struct ProxyRequest {
    pub uuid: [u8; 16],
    transfer_len: usize,
    transfer_type: ProxyTransferType,
    pub request: ProxyTransfer,
}

/// A frame from the server to the client.
#[derive(Debug, PartialEq, Eq)]
pub struct ProxyResponse {
    pub uuid: [u8; 16],
    transfer_len: usize,
    transfer_type: ProxyTransferType,
    pub response: ProxyTransfer,
}

/// The codec of requests: it writes and reads request frames.
pub struct ProxyRequestCodec;

/// The codec of responses: it writes and reads response frames.
pub struct ProxyResponseCodec;

/// The contents of a transfer.
pub enum TransferView {
    Data(Seq<u8>),
    RequestAddr(Seq<char>),
    Response(ProxyResponseType),
    Heartbeat,
}

/// The contents of a frame.
pub struct FrameView {
    pub uuid: Seq<u8>,
    pub transfer_len: nat,
    pub transfer_type: ProxyTransferType,
    pub transfer: TransferView,
}

impl View for ProxyTransfer {
    type V = TransferView;

    open spec fn view(&self) -> TransferView {
        match self {
            ProxyTransfer::Data(d) => TransferView::Data(d@),
            ProxyTransfer::RequestAddr(s) => TransferView::RequestAddr(s@),
            ProxyTransfer::Response(r) => TransferView::Response(*r),
            ProxyTransfer::Heartbeat => TransferView::Heartbeat,
        }
    }
}

impl View for ProxyRequest {
    type V = FrameView;

    closed spec fn view(&self) -> FrameView {
        FrameView {
            uuid: self.uuid@,
            transfer_len: self.transfer_len as nat,
            transfer_type: self.transfer_type,
            transfer: self.request@,
        }
    }
}

impl View for ProxyResponse {
    type V = FrameView;

    closed spec fn view(&self) -> FrameView {
        FrameView {
            uuid: self.uuid@,
            transfer_len: self.transfer_len as nat,
            transfer_type: self.transfer_type,
            transfer: self.response@,
        }
    }
}

impl ProxyTransferType {
    /// The type byte of this kind.
    pub open spec fn spec_code(&self) -> u8 {
        match self {
            ProxyTransferType::Data => 0,
            ProxyTransferType::RequestAddr => 1,
            ProxyTransferType::Response => 2,
            ProxyTransferType::Heartbeat => 3,
        }
    }

    /// The type byte of this kind.
    #[verifier::when_used_as_spec(spec_code)]
    pub fn code(&self) -> (c: u8)
        ensures
            c == self.spec_code(),
    {
        match self {
            ProxyTransferType::Data => 0,
            ProxyTransferType::RequestAddr => 1,
            ProxyTransferType::Response => 2,
            ProxyTransferType::Heartbeat => 3,
        }
    }
}

impl ProxyResponseType {
    /// The byte of this outcome.
    pub open spec fn spec_code(&self) -> u8 {
        match self {
            ProxyResponseType::Succeeded => 0,
            ProxyResponseType::ConnectionRefused => 1,
            ProxyResponseType::Timeout => 2,
        }
    }

    /// The byte of this outcome.
    #[verifier::when_used_as_spec(spec_code)]
    pub fn code(&self) -> (c: u8)
        ensures
            c == self.spec_code(),
    {
        match self {
            ProxyResponseType::Succeeded => 0,
            ProxyResponseType::ConnectionRefused => 1,
            ProxyResponseType::Timeout => 2,
        }
    }
}

/// The kind of a transfer.
pub open spec fn type_of(t: TransferView) -> ProxyTransferType {
    match t {
        TransferView::Data(_) => ProxyTransferType::Data,
        TransferView::RequestAddr(_) => ProxyTransferType::RequestAddr,
        TransferView::Response(_) => ProxyTransferType::Response,
        TransferView::Heartbeat => ProxyTransferType::Heartbeat,
    }
}

/// The payload of a transfer: data as is, an address in UTF-8, an outcome
/// as its byte, nothing for a heartbeat.
pub open spec fn payload_bytes(t: TransferView) -> Seq<u8> {
    match t {
        TransferView::Data(d) => d,
        TransferView::RequestAddr(s) => encode_utf8(s),
        TransferView::Response(r) => seq![r.spec_code()],
        TransferView::Heartbeat => seq![],
    }
}

/// A frame for connection `uuid` carrying `t`, as `new` builds it.
pub open spec fn new_frame(uuid: Seq<u8>, t: TransferView) -> FrameView {
    FrameView { uuid, transfer_len: payload_bytes(t).len(), transfer_type: type_of(t), transfer: t }
}

/// The kind that a type byte below 4 names.
pub open spec fn type_of_code(b: u8) -> ProxyTransferType {
    if b == 0 {
        ProxyTransferType::Data
    } else if b == 1 {
        ProxyTransferType::RequestAddr
    } else if b == 2 {
        ProxyTransferType::Response
    } else {
        ProxyTransferType::Heartbeat
    }
}

/// The transfer a payload of type `t` holds, or `None` where it does not fit
/// its type: an unknown type, an address that is not UTF-8, an outcome that
/// is not exactly one known byte. A heartbeat ignores its payload.
pub open spec fn transfer_from(t: u8, p: Seq<u8>) -> Option<TransferView> {
    if t == 0 {
        Some(TransferView::Data(p))
    } else if t == 1 {
        if valid_utf8(p) {
            Some(TransferView::RequestAddr(decode_utf8(p)))
        } else {
            None
        }
    } else if t == 2 {
        if p.len() == 1 && p[0] < 3 {
            Some(
                TransferView::Response(
                    if p[0] == 0 {
                        ProxyResponseType::Succeeded
                    } else if p[0] == 1 {
                        ProxyResponseType::ConnectionRefused
                    } else {
                        ProxyResponseType::Timeout
                    },
                ),
            )
        } else {
            None
        }
    } else if t == 3 {
        Some(TransferView::Heartbeat)
    } else {
        None
    }
}

/// The bytes of a frame: the id, the declared length, the type byte, the
/// payload.
pub open spec fn frame_bytes(f: FrameView) -> Seq<u8> {
    f.uuid + be32(f.transfer_len as u32) + seq![f.transfer_type.spec_code()] + payload_bytes(
        f.transfer,
    )
}

/// The bytes of a plaintext frame: the sixteen bytes of the connection id,
/// the payload's length (most significant byte first), the type byte (0 for
/// data, 1 for an address request, 2 for an outcome, 3 for a heartbeat),
/// then the payload; an outcome travels as one byte, 0 for success, 1 for a
/// refusal, 2 for a timeout, and a heartbeat carries nothing.
pub proof fn lemma_plain_wire_layout(uuid: Seq<u8>, t: TransferView)
    requires
        uuid.len() == 16,
        payload_bytes(t).len() <= u32::MAX,
    ensures
        ({
            let b = frame_bytes(new_frame(uuid, t));
            let p = payload_bytes(t);
            &&& b.len() == 21 + p.len()
            &&& b.subrange(0, 16) == uuid
            &&& 16777216 * b[16] + 65536 * b[17] + 256 * b[18] + b[19] == p.len()
            &&& b.subrange(21, b.len() as int) == p
            &&& t is Data ==> b[20] == 0
            &&& t is RequestAddr ==> b[20] == 1
            &&& t is Response ==> b[20] == 2
            &&& t is Heartbeat ==> b[20] == 3 && p.len() == 0
            &&& t == TransferView::Response(ProxyResponseType::Succeeded) ==> p == seq![0u8]
            &&& t == TransferView::Response(ProxyResponseType::ConnectionRefused) ==> p == seq![1u8]
            &&& t == TransferView::Response(ProxyResponseType::Timeout) ==> p == seq![2u8]
        }),
{
    let b = frame_bytes(new_frame(uuid, t));
    let p = payload_bytes(t);
    let l = p.len() as u32;
    assert(((l >> 24u32) as u8) as int * 16777216 + (((l >> 16u32) & 0xffu32) as u8) as int * 65536
        + (((l >> 8u32) & 0xffu32) as u8) as int * 256 + ((l & 0xffu32) as u8) as int == l as int)
        by (bit_vector);
    assert(b.subrange(0, 16) =~= uuid);
    assert(b.subrange(21, b.len() as int) =~= p);
    assert(b[16] == (l >> 24u32) as u8 && b[17] == ((l >> 16u32) & 0xffu32) as u8);
    assert(b[18] == ((l >> 8u32) & 0xffu32) as u8 && b[19] == (l & 0xffu32) as u8);
}

/// What reading a frame from the start of `s` finds: the id, the declared
/// length, the type byte, the payload and the bytes consumed; `None` until
/// the whole frame has arrived.
pub open spec fn frame_read(s: Seq<u8>) -> Option<(Seq<u8>, u32, u8, Seq<u8>, nat)> {
    if s.len() < 21 {
        None
    } else {
        let len = be32_value(s.subrange(16, 20));
        let total = 21 + len;
        if s.len() < total {
            None
        } else {
            Some((s.take(16), len, s[20], s.subrange(21, total), total as nat))
        }
    }
}

/// A frame that has only partly arrived is waited for: where `s` reads as a
/// frame of exactly `s.len()` bytes, every shorter start of `s` reads as
/// nothing yet, and can be read.
pub proof fn lemma_partial_frame_waits(s: Seq<u8>, k: int)
    requires
        frame_readable(s),
        frame_read(s) matches Some((_, _, _, _, n)) && n == s.len(),
        0 <= k < s.len(),
    ensures
        frame_read(s.take(k)) is None,
        frame_readable(s.take(k)),
{
    if k >= 21 {
        assert(s.take(k).subrange(16, 20) =~= s.subrange(16, 20));
    }
}

/// Whether the start of `s` can be read: the declared length leaves room
/// for the 21 header bytes in 32 bits, and a whole frame's payload fits its
/// type.
pub open spec fn frame_readable(s: Seq<u8>) -> bool {
    &&& s.len() >= 21 ==> be32_value(s.subrange(16, 20)) <= u32::MAX - 21
    &&& frame_read(s) matches Some((_, _, t, p, _)) ==> transfer_from(t, p) is Some
}

/// The item a frame holds.
pub open spec fn frame_item(uuid: Seq<u8>, len: u32, t: u8, p: Seq<u8>) -> FrameView {
    FrameView {
        uuid,
        transfer_len: len as nat,
        transfer_type: type_of_code(t),
        transfer: transfer_from(t, p).unwrap(),
    }
}

/// Whether `s` starts with a frame that reads back as `f`, `consumed` bytes
/// long.
pub open spec fn decodes_to(s: Seq<u8>, f: FrameView, consumed: nat) -> bool {
    &&& frame_readable(s)
    &&& frame_read(s) matches Some((uuid, len, t, p, n)) && frame_item(uuid, len, t, p) == f
        && n == consumed
}

/// A frame as `new` builds it: the declared length is the payload's and
/// the declared type the transfer's.
pub open spec fn frame_consistent(f: FrameView) -> bool {
    &&& f.uuid.len() == 16
    &&& f.transfer_len == payload_bytes(f.transfer).len()
    &&& f.transfer_type == type_of(f.transfer)
}

/// The bytes of a consistent frame whose payload leaves room for the
/// header in 32 bits, followed by any bytes, read back as the frame, and
/// reading consumes exactly its bytes.
pub proof fn lemma_frame_roundtrip(f: FrameView, rest: Seq<u8>)
    requires
        frame_consistent(f),
        f.transfer_len <= u32::MAX - 21,
    ensures
        decodes_to(frame_bytes(f) + rest, f, frame_bytes(f).len()),
{
    let s = frame_bytes(f) + rest;
    lemma_be32_roundtrip(f.transfer_len as u32);
    assert(s.subrange(16, 20) =~= be32(f.transfer_len as u32));
    assert(s.take(16) =~= f.uuid);
    assert(s.subrange(21, 21 + f.transfer_len as int) =~= payload_bytes(f.transfer));
    match f.transfer {
        TransferView::Response(r) => {},
        _ => {},
    }
}

/// The declared length and kind of a transfer, as `new` computes them.
fn length_and_type(t: &ProxyTransfer) -> (r: (usize, ProxyTransferType))
    ensures
        r.0 == payload_bytes(t@).len(),
        r.1 == type_of(t@),
{
    match t {
        ProxyTransfer::Response(_) => (1usize, ProxyTransferType::Response),
        ProxyTransfer::RequestAddr(a) => (a.as_str().as_bytes().len(), ProxyTransferType::RequestAddr),
        ProxyTransfer::Data(a) => (a.len(), ProxyTransferType::Data),
        ProxyTransfer::Heartbeat => (0, ProxyTransferType::Heartbeat),
    }
}

/// Appends the bytes of a frame.
fn put_frame(uuid: &[u8; 16], len: usize, ttype: ProxyTransferType, t: &ProxyTransfer, dst: &mut Vec<u8>)
    requires
        len <= u32::MAX,
    ensures
        final(dst)@ == old(dst)@ + uuid@ + be32(len as u32) + seq![ttype.spec_code()] + payload_bytes(
            t@,
        ),
{
    dst.extend_from_slice(uuid);
    let l = write_u32(len as u32);
    dst.extend_from_slice(&l);
    dst.push(ttype.code());
    match t {
        ProxyTransfer::Data(data) => dst.extend_from_slice(data.as_slice()),
        ProxyTransfer::RequestAddr(addr) => dst.extend_from_slice(addr.as_str().as_bytes()),
        ProxyTransfer::Response(response) => dst.push(response.code()),
        ProxyTransfer::Heartbeat => {},
    }
    assert(final(dst)@ =~= old(dst)@ + uuid@ + be32(len as u32) + seq![ttype.spec_code()]
        + payload_bytes(t@));
}

/// Reads the fields of the frame at the start of `src`, taking its bytes.
fn take_frame(src: &mut Vec<u8>) -> (r: Option<([u8; 16], u32, u8, Vec<u8>)>)
    requires
        frame_readable(old(src)@),
    ensures
        match frame_read(old(src)@) {
            None => r is None && final(src)@ == old(src)@,
            Some((uuid, len, t, p, n)) => (r matches Some((u, l, tt, pp)) && u@ == uuid && l == len
                && tt == t && pp@ == p) && final(src)@ == old(src)@.skip(n as int),
        },
{
    if src.len() < 21 {
        return None;
    }
    let transfer_len = read_u32(vstd::slice::slice_subrange(src.as_slice(), 16, 20));
    let all_len: u32 = 21 + transfer_len;
    if src.len() < all_len as usize {
        return None;
    }
    let ghost s = old(src)@;
    let uuid: [u8; 16] = [
        src[0],
        src[1],
        src[2],
        src[3],
        src[4],
        src[5],
        src[6],
        src[7],
        src[8],
        src[9],
        src[10],
        src[11],
        src[12],
        src[13],
        src[14],
        src[15],
    ];
    assert(uuid@ =~= s.take(16));
    let t = src[20];
    let payload = vstd::slice::slice_to_vec(
        vstd::slice::slice_subrange(src.as_slice(), 21, all_len as usize),
    );
    let mut rest = src.split_off(all_len as usize);
    std::mem::swap(src, &mut rest);
    Some((uuid, transfer_len, t, payload))
}

/// The transfer a payload of type `t` holds; see `transfer_from`.
pub fn parse_transfer(t: u8, payload: Vec<u8>) -> (r: Option<(ProxyTransferType, ProxyTransfer)>)
    ensures
        r is None <==> transfer_from(t, payload@) is None,
        r matches Some((ty, x)) ==> Some(x@) == transfer_from(t, payload@) && ty == type_of_code(t),
{
    if t == 0 {
        Some((ProxyTransferType::Data, ProxyTransfer::Data(payload)))
    } else if t == 1 {
        match string_from_utf8(payload) {
            Some(s) => Some((ProxyTransferType::RequestAddr, ProxyTransfer::RequestAddr(s))),
            None => None,
        }
    } else if t == 2 {
        if payload.len() != 1 {
            return None;
        }
        let r = if payload[0] == 0 {
            ProxyResponseType::Succeeded
        } else if payload[0] == 1 {
            ProxyResponseType::ConnectionRefused
        } else if payload[0] == 2 {
            ProxyResponseType::Timeout
        } else {
            return None;
        };
        Some((ProxyTransferType::Response, ProxyTransfer::Response(r)))
    } else if t == 3 {
        Some((ProxyTransferType::Heartbeat, ProxyTransfer::Heartbeat))
    } else {
        None
    }
}

/// Whether the start of `src` can be read; see `frame_readable`.
pub fn can_decode(src: &Vec<u8>) -> (b: bool)
    ensures
        b == frame_readable(src@),
{
    if src.len() < 21 {
        return true;
    }
    let len = read_u32(vstd::slice::slice_subrange(src.as_slice(), 16, 20));
    if len > u32::MAX - 21 {
        return false;
    }
    let total: usize = 21 + len as usize;
    if src.len() < total {
        return true;
    }
    let p = vstd::slice::slice_to_vec(vstd::slice::slice_subrange(src.as_slice(), 21, total));
    parse_transfer(src[20], p).is_some()
}

impl ProxyRequest {
    /// A request for connection `uuid` carrying `request`; its declared length
    /// is the payload's and its kind the transfer's.
    pub fn new(uuid: [u8; 16], request: ProxyTransfer) -> (r: ProxyRequest)
        ensures
            r@ == new_frame(uuid@, request@),
    {
        let (len, t_type) = length_and_type(&request);
        ProxyRequest { uuid, transfer_len: len, transfer_type: t_type, request }
    }

    /// The connection id.
    pub fn uuid(&self) -> (u: [u8; 16])
        ensures
            u@ == self@.uuid,
    {
        self.uuid
    }

    /// The transfer carried, taken out.
    pub fn into_transfer(self) -> (t: ProxyTransfer)
        ensures
            t@ == self@.transfer,
    {
        self.request
    }
}

impl ProxyResponse {
    /// A response for connection `uuid` carrying `response`; its declared
    /// length is the payload's and its kind the transfer's.
    pub fn new(uuid: [u8; 16], response: ProxyTransfer) -> (r: ProxyResponse)
        ensures
            r@ == new_frame(uuid@, response@),
    {
        let (len, t_type) = length_and_type(&response);
        ProxyResponse { uuid, transfer_len: len, transfer_type: t_type, response }
    }

    /// The connection id.
    pub fn uuid(&self) -> (u: [u8; 16])
        ensures
            u@ == self@.uuid,
    {
        self.uuid
    }

    /// The transfer carried.
    pub fn transfer(&self) -> (t: &ProxyTransfer)
        ensures
            t@ == self@.transfer,
    {
        &self.response
    }

    /// The transfer carried, taken out.
    pub fn into_transfer(self) -> (t: ProxyTransfer)
        ensures
            t@ == self@.transfer,
    {
        self.response
    }
}

impl ProxyRequestCodec {
    /// Appends the bytes of `item`. What it appends, followed by any bytes,
    /// reads back as `item` when `item` is as `new` builds it.
    pub fn encode(&mut self, item: ProxyRequest, dst: &mut Vec<u8>)
        requires
            item@.transfer_len <= u32::MAX,
        ensures
            final(dst)@ == old(dst)@ + frame_bytes(item@),
            frame_consistent(item@) && item@.transfer_len <= u32::MAX - 21 ==> forall|rest: Seq<u8>|
                #[trigger] decodes_to(final(dst)@.skip(old(dst)@.len() as int) + rest, item@, frame_bytes(item@).len()),
    {
        put_frame(&item.uuid, item.transfer_len, item.transfer_type, &item.request, dst);
        proof {
            assert(final(dst)@.skip(old(dst)@.len() as int) =~= frame_bytes(item@));
            if frame_consistent(item@) && item@.transfer_len <= u32::MAX - 21 {
                assert forall|rest: Seq<u8>| #[trigger]
                    decodes_to(final(dst)@.skip(old(dst)@.len() as int) + rest, item@, frame_bytes(item@).len()) by {
                    lemma_frame_roundtrip(item@, rest);
                }
            }
        }
    }

    /// Reads the next request from the start of `src`, taking its bytes;
    /// `None` until a whole frame has arrived.
    pub fn decode(&mut self, src: &mut Vec<u8>) -> (r: Option<ProxyRequest>)
        requires
            frame_readable(old(src)@),
        ensures
            match frame_read(old(src)@) {
                None => r is None && final(src)@ == old(src)@,
                Some((uuid, len, t, p, n)) => (r matches Some(q) && q@ == frame_item(uuid, len, t, p))
                    && final(src)@ == old(src)@.skip(n as int),
            },
    {
        match take_frame(src) {
            None => None,
            Some((uuid, len, t, payload)) => match parse_transfer(t, payload) {
                Some((transfer_type, request)) => Some(
                    ProxyRequest { uuid, transfer_len: len as usize, transfer_type, request },
                ),
                None => None,
            },
        }
    }
}

impl ProxyResponseCodec {
    /// Appends the bytes of `item`. What it appends, followed by any bytes,
    /// reads back as `item` when `item` is as `new` builds it.
    pub fn encode(&mut self, item: ProxyResponse, dst: &mut Vec<u8>)
        requires
            item@.transfer_len <= u32::MAX,
        ensures
            final(dst)@ == old(dst)@ + frame_bytes(item@),
            frame_consistent(item@) && item@.transfer_len <= u32::MAX - 21 ==> forall|rest: Seq<u8>|
                #[trigger] decodes_to(final(dst)@.skip(old(dst)@.len() as int) + rest, item@, frame_bytes(item@).len()),
    {
        put_frame(&item.uuid, item.transfer_len, item.transfer_type, &item.response, dst);
        proof {
            assert(final(dst)@.skip(old(dst)@.len() as int) =~= frame_bytes(item@));
            if frame_consistent(item@) && item@.transfer_len <= u32::MAX - 21 {
                assert forall|rest: Seq<u8>| #[trigger]
                    decodes_to(final(dst)@.skip(old(dst)@.len() as int) + rest, item@, frame_bytes(item@).len()) by {
                    lemma_frame_roundtrip(item@, rest);
                }
            }
        }
    }

    /// Reads the next response from the start of `src`, taking its bytes;
    /// `None` until a whole frame has arrived.
    pub fn decode(&mut self, src: &mut Vec<u8>) -> (r: Option<ProxyResponse>)
        requires
            frame_readable(old(src)@),
        ensures
            match frame_read(old(src)@) {
                None => r is None && final(src)@ == old(src)@,
                Some((uuid, len, t, p, n)) => (r matches Some(q) && q@ == frame_item(uuid, len, t, p))
                    && final(src)@ == old(src)@.skip(n as int),
            },
    {
        match take_frame(src) {
            None => None,
            Some((uuid, len, t, payload)) => match parse_transfer(t, payload) {
                Some((transfer_type, response)) => Some(
                    ProxyResponse { uuid, transfer_len: len as usize, transfer_type, response },
                ),
                None => None,
            },
        }
    }
}

} // verus!
