//! The messages of the tunnel and their encrypted framing.
//!
//! A frame is two sealed parts under one key and one nonce. The header is
//! eleven bytes: the connection id (big-endian u16), four random bytes, the
//! payload length (big-endian u32) and the transfer type; it is sealed with
//! no additional data. The payload is sealed with the sealed header as
//! additional data.
use vstd::prelude::*;
use vstd::utf8::*;
use crate::crypto::{
    aead_open, aead_opened, aead_seal, aead_sealed, aead_tag_len, random_bytes, AeadAlgorithm,
    TAG_LEN,
};
use crate::kdf::{derive_key, derived_key};
use crate::opt::_CryptoConfig;
use crate::text::string_from_utf8;
use crate::wire::{
    be16, be16_value, be32, be32_value, lemma_be16_roundtrip, lemma_be32_roundtrip, read_u16,
    read_u32, write_u16, write_u32,
};

verus! {

broadcast use {encode_utf8_valid_utf8, encode_utf8_decode_utf8};

/// What a front-end agent hears about its connection.
#[derive(Debug)]
pub enum ConnectorResponse {
    Succeeded,
    Failed,
    Data(Vec<u8>),
    Abort,
}

/// A codec that hands over whatever bytes have arrived.
pub struct BytesCodec;

impl BytesCodec {
    /// All buffered bytes, or nothing when the buffer is empty.
    pub fn decode(&mut self, src: &mut Vec<u8>) -> (r: Option<Vec<u8>>)
        ensures
            old(src)@.len() == 0 ==> r is None && final(src)@ == old(src)@,
            old(src)@.len() > 0 ==> (r matches Some(b) && b@ == old(src)@) && final(src)@.len() == 0,
    {
        if src.len() == 0 {
            return None;
        }
        let mut taken: Vec<u8> = Vec::new();
        std::mem::swap(src, &mut taken);
        Some(taken)
    }
}

/// The kind of a transfer, as its type byte names it.
#[derive(Debug, Clone, Copy, PartialEq, Eq, Structural)]
pub enum ProxyTransferType {
    Data,
    RequestAddr,
    Response,
    Heartbeat,
}

/// What one frame carries.
#[derive(Debug, PartialEq, Eq)]
pub enum ProxyTransfer {
    Data(Vec<u8>),
    RequestAddr(String),
    Response(ProxyResponseType),
    Heartbeat(u32),
}

/// The outcome of a connection attempt, or its end.
#[derive(Debug, Clone, Copy, PartialEq, Eq, Structural)]
pub enum ProxyResponseType {
    Succeeded,
    ConnectionRefused,
    Timeout,
    Abort,
}

/// A frame from the front end to the back end.
#[derive(Debug, PartialEq, Eq)]
pub struct ProxyRequest {
    pub uuid: u16,
    transfer_len: usize,
    transfer_type: ProxyTransferType,
    pub request: ProxyTransfer,
}

/// A frame from the back end to the front end.
#[derive(Debug, PartialEq, Eq)]
pub struct ProxyResponse {
    pub uuid: u16,
    transfer_len: usize,
    transfer_type: ProxyTransferType,
    pub response: ProxyTransfer,
}

/// The contents of a transfer.
pub enum TransferView {
    Data(Seq<u8>),
    RequestAddr(Seq<char>),
    Response(ProxyResponseType),
    Heartbeat(u32),
}

/// The contents of a frame: its connection id, the length and type it
/// declares, and its transfer.
pub struct FrameView {
    pub uuid: u16,
    pub transfer_len: nat,
    pub transfer_type: ProxyTransferType,
    pub transfer: TransferView,
}

impl View for ProxyTransfer {
    type V = TransferView;

    open spec fn view(&self) -> TransferView {
        match self {
            ProxyTransfer::Data(d) => TransferView::Data(d@),
            ProxyTransfer::RequestAddr(s) => TransferView::RequestAddr(s@),
            ProxyTransfer::Response(r) => TransferView::Response(*r),
            ProxyTransfer::Heartbeat(i) => TransferView::Heartbeat(*i),
        }
    }
}

impl View for ProxyRequest {
    type V = FrameView;

    closed spec fn view(&self) -> FrameView {
        FrameView {
            uuid: self.uuid,
            transfer_len: self.transfer_len as nat,
            transfer_type: self.transfer_type,
            transfer: self.request@,
        }
    }
}

impl View for ProxyResponse {
    type V = FrameView;

    closed spec fn view(&self) -> FrameView {
        FrameView {
            uuid: self.uuid,
            transfer_len: self.transfer_len as nat,
            transfer_type: self.transfer_type,
            transfer: self.response@,
        }
    }
}

impl ProxyTransferType {
    /// The type byte of this kind.
    pub open spec fn spec_code(&self) -> u8 {
        match self {
            ProxyTransferType::Data => 0,
            ProxyTransferType::RequestAddr => 1,
            ProxyTransferType::Response => 2,
            ProxyTransferType::Heartbeat => 3,
        }
    }

    /// The type byte of this kind.
    #[verifier::when_used_as_spec(spec_code)]
    pub fn code(&self) -> (c: u8)
        ensures
            c == self.spec_code(),
    {
        match self {
            ProxyTransferType::Data => 0,
            ProxyTransferType::RequestAddr => 1,
            ProxyTransferType::Response => 2,
            ProxyTransferType::Heartbeat => 3,
        }
    }
}

impl ProxyResponseType {
    /// The byte of this outcome.
    pub open spec fn spec_code(&self) -> u8 {
        match self {
            ProxyResponseType::Succeeded => 0,
            ProxyResponseType::ConnectionRefused => 1,
            ProxyResponseType::Timeout => 2,
            ProxyResponseType::Abort => 3,
        }
    }

    /// The byte of this outcome.
    #[verifier::when_used_as_spec(spec_code)]
    pub fn code(&self) -> (c: u8)
        ensures
            c == self.spec_code(),
    {
        match self {
            ProxyResponseType::Succeeded => 0,
            ProxyResponseType::ConnectionRefused => 1,
            ProxyResponseType::Timeout => 2,
            ProxyResponseType::Abort => 3,
        }
    }
}

/// The kind of a transfer.
pub open spec fn type_of(t: TransferView) -> ProxyTransferType {
    match t {
        TransferView::Data(_) => ProxyTransferType::Data,
        TransferView::RequestAddr(_) => ProxyTransferType::RequestAddr,
        TransferView::Response(_) => ProxyTransferType::Response,
        TransferView::Heartbeat(_) => ProxyTransferType::Heartbeat,
    }
}

/// The bytes of a transfer before sealing: data as is, an address in UTF-8,
/// an outcome as its byte, a heartbeat index in big-endian.
pub open spec fn payload_bytes(t: TransferView) -> Seq<u8> {
    match t {
        TransferView::Data(d) => d,
        TransferView::RequestAddr(s) => encode_utf8(s),
        TransferView::Response(r) => seq![r.spec_code()],
        TransferView::Heartbeat(i) => be32(i),
    }
}

/// The kind that a type byte below 4 names.
pub open spec fn type_of_code(b: u8) -> ProxyTransferType {
    if b == 0 {
        ProxyTransferType::Data
    } else if b == 1 {
        ProxyTransferType::RequestAddr
    } else if b == 2 {
        ProxyTransferType::Response
    } else {
        ProxyTransferType::Heartbeat
    }
}

/// The outcome that a byte below 4 names.
pub open spec fn response_of_code(b: u8) -> ProxyResponseType {
    if b == 0 {
        ProxyResponseType::Succeeded
    } else if b == 1 {
        ProxyResponseType::ConnectionRefused
    } else if b == 2 {
        ProxyResponseType::Timeout
    } else {
        ProxyResponseType::Abort
    }
}

/// The transfer that an opened payload of type `t` holds, or `None` where
/// the payload does not fit its type: an unknown type, an address that is not
/// UTF-8, an outcome that is not exactly one known byte, a heartbeat shorter
/// than four bytes (only its first four bytes are read).
pub open spec fn transfer_from(t: u8, p: Seq<u8>) -> Option<TransferView> {
    if t == 0 {
        Some(TransferView::Data(p))
    } else if t == 1 {
        if valid_utf8(p) {
            Some(TransferView::RequestAddr(decode_utf8(p)))
        } else {
            None
        }
    } else if t == 2 {
        if p.len() == 1 && p[0] < 4 {
            Some(TransferView::Response(response_of_code(p[0])))
        } else {
            None
        }
    } else if t == 3 {
        if p.len() >= 4 {
            Some(TransferView::Heartbeat(be32_value(p)))
        } else {
            None
        }
    } else {
        None
    }
}

/// A frame as `new` builds it: the declared length is the payload's and the
/// declared type is the transfer's.
pub open spec fn frame_consistent(f: FrameView) -> bool {
    &&& f.transfer_len == payload_bytes(f.transfer).len()
    &&& f.transfer_type == type_of(f.transfer)
}

/// The key, cipher and nonce of a codec.
pub struct CipherView {
    pub alg: AeadAlgorithm,
    pub key: Seq<u8>,
    pub nonce: Seq<u8>,
}

/// The nonce every frame uses: the same twelve bytes for every header and
/// every payload sealed under a key. An AEAD nonce must never repeat under
/// one key, so this framing authenticates frames but does not keep their
/// contents confidential against an eavesdropper who sees several frames.
pub open spec fn frame_nonce() -> Seq<u8> {
    Seq::new(12, |i: int| 1u8)
}

/// A cipher as the codecs build it: a 32-byte key for a cipher that takes
/// one, and the fixed nonce.
pub open spec fn cipher_ready(c: CipherView) -> bool {
    &&& c.alg != AeadAlgorithm::Aes128Gcm
    &&& c.key.len() == 32
    &&& c.nonce == frame_nonce()
}

/// The cipher that a configuration derives.
pub open spec fn cipher_of(config: _CryptoConfig) -> CipherView {
    CipherView {
        alg: config.crypto_method,
        key: derived_key(config.digest_method, config.digest_iteration, config.salt@, config.key@),
        nonce: frame_nonce(),
    }
}

/// The length of a sealed header.
pub open spec fn sealed_header_len() -> nat {
    (11 + TAG_LEN) as nat
}

/// The eleven header bytes before sealing.
pub open spec fn header_plain(uuid: u16, random: Seq<u8>, len: usize, ttype: u8) -> Seq<u8> {
    be16(uuid) + random + be32(len as u32) + seq![ttype]
}

/// A whole frame: the sealed header, then the payload sealed with the sealed
/// header as additional data.
pub open spec fn sealed_frame(c: CipherView, header: Seq<u8>, payload: Seq<u8>) -> Seq<u8> {
    let h = aead_sealed(c.alg, c.key, c.nonce, seq![], header);
    h + aead_sealed(c.alg, c.key, c.nonce, h, payload)
}

/// The frame of an item sent with these random bytes.
pub open spec fn encoded_frame(c: CipherView, f: FrameView, random: Seq<u8>) -> Seq<u8> {
    sealed_frame(
        c,
        header_plain(f.uuid, random, f.transfer_len as usize, f.transfer_type.spec_code()),
        payload_bytes(f.transfer),
    )
}

/// The eleven header bytes of a frame before sealing: the connection id
/// (most significant byte first), the four random bytes, the payload's
/// length (most significant byte first), and the type byte: 0 for data, 1
/// for an address request, 2 for an outcome, 3 for a heartbeat. An outcome
/// travels as one byte, 0 for success, 1 for a refusal, 2 for a timeout, 3
/// for an abort; a heartbeat as its index in four bytes, most significant
/// first.
pub proof fn lemma_wire_layout(f: FrameView, random: Seq<u8>)
    requires
        frame_consistent(f),
        random.len() == 4,
        f.transfer_len <= u32::MAX,
    ensures
        ({
            let h = header_plain(f.uuid, random, f.transfer_len as usize, f.transfer_type.spec_code());
            let p = payload_bytes(f.transfer);
            &&& h.len() == 11
            &&& 256 * h[0] + h[1] == f.uuid
            &&& h.subrange(2, 6) == random
            &&& 16777216 * h[6] + 65536 * h[7] + 256 * h[8] + h[9] == f.transfer_len
            &&& p.len() == f.transfer_len
            &&& f.transfer is Data ==> h[10] == 0
            &&& f.transfer is RequestAddr ==> h[10] == 1
            &&& f.transfer is Response ==> h[10] == 2
            &&& f.transfer is Heartbeat ==> h[10] == 3
            &&& f.transfer == TransferView::Response(ProxyResponseType::Succeeded) ==> p == seq![0u8]
            &&& f.transfer == TransferView::Response(ProxyResponseType::ConnectionRefused) ==> p
                == seq![1u8]
            &&& f.transfer == TransferView::Response(ProxyResponseType::Timeout) ==> p == seq![2u8]
            &&& f.transfer == TransferView::Response(ProxyResponseType::Abort) ==> p == seq![3u8]
            &&& f.transfer matches TransferView::Heartbeat(i) ==> 16777216 * p[0] + 65536 * p[1] + 256
                * p[2] + p[3] == i
        }),
{
    let h = header_plain(f.uuid, random, f.transfer_len as usize, f.transfer_type.spec_code());
    let u = f.uuid;
    let l = f.transfer_len as u32;
    assert(((u >> 8u16) as u8) as int * 256 + ((u & 0xffu16) as u8) as int == u as int) by (bit_vector);
    assert(((l >> 24u32) as u8) as int * 16777216 + (((l >> 16u32) & 0xffu32) as u8) as int * 65536
        + (((l >> 8u32) & 0xffu32) as u8) as int * 256 + ((l & 0xffu32) as u8) as int == l as int)
        by (bit_vector);
    assert(h.subrange(2, 6) =~= random);
    assert(h[6] == (l >> 24u32) as u8 && h[7] == ((l >> 16u32) & 0xffu32) as u8);
    assert(h[8] == ((l >> 8u32) & 0xffu32) as u8 && h[9] == (l & 0xffu32) as u8);
    if let TransferView::Heartbeat(i) = f.transfer {
        assert(((i >> 24u32) as u8) as int * 16777216 + (((i >> 16u32) & 0xffu32) as u8) as int
            * 65536 + (((i >> 8u32) & 0xffu32) as u8) as int * 256 + ((i & 0xffu32) as u8) as int
            == i as int) by (bit_vector);
    }
}

/// What the start of a buffer holds for a reader of frames.
pub enum FrameOutcome {
    /// Not enough bytes yet.
    Incomplete,
    /// A part did not authenticate; `consumed` bytes are dropped.
    Rejected { consumed: nat },
    /// A frame: the header's fields and the opened payload.
    Frame { uuid: u16, len: u32, ttype: u8, payload: Seq<u8>, consumed: nat },
}

/// What reading a frame from the start of `s` gives. The header is opened
/// first, from a copy; once the whole frame has arrived it is taken from the
/// buffer and its payload opened.
pub open spec fn frame_outcome(c: CipherView, s: Seq<u8>) -> FrameOutcome {
    let hl = sealed_header_len() as int;
    if s.len() < hl {
        FrameOutcome::Incomplete
    } else {
        match aead_opened(c.alg, c.key, c.nonce, seq![], s.take(hl)) {
            None => FrameOutcome::Rejected { consumed: 0 },
            Some(h) => {
                let len = be32_value(h.subrange(6, 10));
                let total = hl + len + TAG_LEN;
                if s.len() < total {
                    FrameOutcome::Incomplete
                } else {
                    match aead_opened(c.alg, c.key, c.nonce, s.take(hl), s.subrange(hl, total)) {
                        None => FrameOutcome::Rejected { consumed: total as nat },
                        Some(p) => FrameOutcome::Frame {
                            uuid: be16_value(h),
                            len,
                            ttype: h[10],
                            payload: p,
                            consumed: total as nat,
                        },
                    }
                }
            },
        }
    }
}

/// A frame that has only partly arrived is waited for: where `s` reads as a
/// frame of exactly `s.len()` bytes, every shorter start of `s` reads as
/// incomplete.
pub proof fn lemma_partial_frame_waits(c: CipherView, s: Seq<u8>, k: int)
    requires
        frame_outcome(c, s) matches FrameOutcome::Frame { consumed, .. } && consumed == s.len(),
        0 <= k < s.len(),
    ensures
        frame_outcome(c, s.take(k)) == FrameOutcome::Incomplete,
{
    let hl = sealed_header_len() as int;
    if k >= hl {
        assert(s.take(k).take(hl) =~= s.take(hl));
    }
}

/// Whether reading the start of `s` meets a frame whose payload does not fit
/// its type (where a reader of frames gives up).
pub open spec fn frame_malformed(c: CipherView, s: Seq<u8>) -> bool {
    match frame_outcome(c, s) {
        FrameOutcome::Frame { ttype, payload, .. } => transfer_from(ttype, payload) is None,
        _ => false,
    }
}

/// The item a frame holds.
pub open spec fn frame_item(uuid: u16, len: u32, ttype: u8, payload: Seq<u8>) -> FrameView {
    FrameView {
        uuid,
        transfer_len: len as nat,
        transfer_type: type_of_code(ttype),
        transfer: transfer_from(ttype, payload).unwrap(),
    }
}

/// Why a codec gave up.
#[derive(Debug, Clone, Copy, PartialEq, Eq, Structural)]
pub enum CodecError {
    /// A part of a frame did not authenticate ("dec error").
    Decryption,
    /// A part of a frame could not be sealed ("enc error").
    Encryption,
    /// The system's random generator failed.
    RandomUnavailable,
}

/// The fields of a frame that has been read.
pub struct Frame {
    pub uuid: u16,
    pub transfer_len: u32,
    pub transfer_type: u8,
    pub payload: Vec<u8>,
}

/// Takes `n` bytes from the start of `src`.
fn take_front(src: &mut Vec<u8>, n: usize) -> (taken: Vec<u8>)
    requires
        n <= old(src)@.len(),
    ensures
        taken@ == old(src)@.take(n as int),
        final(src)@ == old(src)@.skip(n as int),
{
    let mut rest = src.split_off(n);
    std::mem::swap(src, &mut rest);
    rest
}

/// Reads one frame from the start of `src` and opens it; see
/// `frame_outcome`.
pub fn open_frame(alg: AeadAlgorithm, key: &[u8; 32], nonce: &[u8; 12], src: &mut Vec<u8>) -> (r:
    Result<Option<Frame>, CodecError>)
    ensures
        ({
            let c = CipherView { alg, key: key@, nonce: nonce@ };
            match frame_outcome(c, old(src)@) {
                FrameOutcome::Incomplete => (r matches Ok(None)) && final(src)@ == old(src)@,
                FrameOutcome::Rejected { consumed } => r == Err::<Option<Frame>, CodecError>(
                    CodecError::Decryption,
                ) && final(src)@ == old(src)@.skip(consumed as int),
                FrameOutcome::Frame { uuid, len, ttype, payload, consumed } => (r matches Ok(
                    Some(f),
                ) && f.uuid == uuid && f.transfer_len == len && f.transfer_type == ttype
                    && f.payload@ == payload) && final(src)@ == old(src)@.skip(consumed as int),
            }
        }),
{
    let hl: usize = 11 + TAG_LEN;
    if src.len() < hl {
        return Ok(None);
    }
    let empty: Vec<u8> = Vec::new();
    let header_sealed = vstd::slice::slice_subrange(src.as_slice(), 0, hl);
    assert(header_sealed@ =~= old(src)@.take(hl as int));
    assert(empty@ =~= Seq::<u8>::empty());
    let opened = aead_open(alg, key, nonce, empty.as_slice(), header_sealed);
    let h = match opened {
        None => return Err(CodecError::Decryption),
        Some(h) => h,
    };
    assert(h@.len() == 11);
    let len = read_u32(vstd::slice::slice_subrange(h.as_slice(), 6, 10));
    let ttype = h[10];
    let uuid = read_u16(h.as_slice());
    let need: u64 = hl as u64 + len as u64 + TAG_LEN as u64;
    if (src.len() as u64) < need {
        return Ok(None);
    }
    let total = need as usize;
    let packet = take_front(src, total);
    let aad = vstd::slice::slice_subrange(packet.as_slice(), 0, hl);
    let body = vstd::slice::slice_subrange(packet.as_slice(), hl, total);
    assert(aad@ =~= old(src)@.take(hl as int));
    assert(body@ =~= old(src)@.subrange(hl as int, total as int));
    match aead_open(alg, key, nonce, aad, body) {
        None => Err(CodecError::Decryption),
        Some(payload) => Ok(Some(Frame { uuid, transfer_len: len, transfer_type: ttype, payload })),
    }
}

/// The transfer an opened payload of type `t` holds; see `transfer_from`.
pub fn parse_transfer(t: u8, payload: Vec<u8>) -> (r: Option<(ProxyTransferType, ProxyTransfer)>)
    ensures
        r is None <==> transfer_from(t, payload@) is None,
        r matches Some((ty, x)) ==> Some(x@) == transfer_from(t, payload@) && ty == type_of_code(t)
            && ty == type_of(x@),
{
    if t == 0 {
        Some((ProxyTransferType::Data, ProxyTransfer::Data(payload)))
    } else if t == 1 {
        match string_from_utf8(payload) {
            Some(s) => Some((ProxyTransferType::RequestAddr, ProxyTransfer::RequestAddr(s))),
            None => None,
        }
    } else if t == 2 {
        if payload.len() != 1 {
            return None;
        }
        let r = if payload[0] == 0 {
            ProxyResponseType::Succeeded
        } else if payload[0] == 1 {
            ProxyResponseType::ConnectionRefused
        } else if payload[0] == 2 {
            ProxyResponseType::Timeout
        } else if payload[0] == 3 {
            ProxyResponseType::Abort
        } else {
            return None;
        };
        Some((ProxyTransferType::Response, ProxyTransfer::Response(r)))
    } else if t == 3 {
        if payload.len() < 4 {
            return None;
        }
        Some((ProxyTransferType::Heartbeat, ProxyTransfer::Heartbeat(read_u32(payload.as_slice()))))
    } else {
        None
    }
}

/// Whether a payload of type `t` fits its type; see `transfer_from`.
pub fn transfer_fits(t: u8, payload: &Vec<u8>) -> (b: bool)
    ensures
        b == (transfer_from(t, payload@) is Some),
{
    let copy = vstd::slice::slice_to_vec(payload.as_slice());
    parse_transfer(t, copy).is_some()
}

/// The bytes of a transfer before sealing; see `payload_bytes`.
pub fn transfer_payload(t: &ProxyTransfer) -> (b: Vec<u8>)
    ensures
        b@ == payload_bytes(t@),
{
    match t {
        ProxyTransfer::Data(d) => vstd::slice::slice_to_vec(d.as_slice()),
        ProxyTransfer::RequestAddr(a) => vstd::slice::slice_to_vec(a.as_str().as_bytes()),
        ProxyTransfer::Response(r) => {
            let mut v: Vec<u8> = Vec::new();
            v.push(r.code());
            assert(v@ =~= payload_bytes(t@));
            v
        },
        ProxyTransfer::Heartbeat(i) => {
            let w = write_u32(*i);
            vstd::slice::slice_to_vec(&w)
        },
    }
}

/// Appends the frame of (`uuid`, `random`, `len`, `ttype`, `payload`) to
/// `dst`: the sealed header, then the sealed payload. Nothing is appended
/// when sealing fails.
pub fn seal_frame(
    alg: AeadAlgorithm,
    key: &[u8; 32],
    nonce: &[u8; 12],
    uuid: u16,
    random: [u8; 4],
    len: usize,
    ttype: u8,
    payload: &[u8],
    dst: &mut Vec<u8>,
) -> (r: Result<(), CodecError>)
    ensures
        ({
            let c = CipherView { alg, key: key@, nonce: nonce@ };
            &&& r is Ok ==> final(dst)@ == old(dst)@ + sealed_frame(
                c,
                header_plain(uuid, random@, len, ttype),
                payload@,
            )
            &&& r is Err ==> r == Err::<(), CodecError>(CodecError::Encryption) && final(dst)@ == old(
                dst,
            )@
            &&& alg != AeadAlgorithm::Aes128Gcm && payload@.len() <= 0xffff_ffff ==> r is Ok
            &&& r is Ok && cipher_ready(c) && len == payload@.len() && payload@.len() <= 0xffff_ffff
                ==> frame_reads_back(c, uuid, random@, len, ttype, payload@)
        }),
{
    let mut header: Vec<u8> = Vec::new();
    let u = write_u16(uuid);
    header.push(u[0]);
    header.push(u[1]);
    header.push(random[0]);
    header.push(random[1]);
    header.push(random[2]);
    header.push(random[3]);
    let l = write_u32(len as u32);
    header.push(l[0]);
    header.push(l[1]);
    header.push(l[2]);
    header.push(l[3]);
    header.push(ttype);
    assert(header@ =~= header_plain(uuid, random@, len, ttype));
    let empty: Vec<u8> = Vec::new();
    assert(empty@ =~= Seq::<u8>::empty());
    let h = match aead_seal(alg, key, nonce, empty.as_slice(), header.as_slice()) {
        Some(h) => h,
        None => return Err(CodecError::Encryption),
    };
    let b = match aead_seal(alg, key, nonce, h.as_slice(), payload) {
        Some(b) => b,
        None => return Err(CodecError::Encryption),
    };
    dst.extend_from_slice(h.as_slice());
    dst.extend_from_slice(b.as_slice());
    assert(final(dst)@ =~= old(dst)@ + (h@ + b@));
    proof {
        let c = CipherView { alg, key: key@, nonce: nonce@ };
        if cipher_ready(c) && len == payload@.len() && payload@.len() <= 0xffff_ffff {
            assert forall|rest: Seq<u8>| #[trigger]
                frame_outcome(c, sealed_frame(c, header_plain(uuid, random@, len, ttype), payload@)
                    + rest) == (FrameOutcome::Frame {
                    uuid,
                    len: len as u32,
                    ttype,
                    payload: payload@,
                    consumed: sealed_frame(c, header_plain(uuid, random@, len, ttype), payload@).len(),
                }) by {
                lemma_frame_roundtrip(c, uuid, random@, len, ttype, payload@, rest);
            }
        }
    }
    Ok(())
}

/// Whether the frame of these fields, followed by any bytes, reads back as
/// these fields and consumes exactly the frame.
pub open spec fn frame_reads_back(
    c: CipherView,
    uuid: u16,
    random: Seq<u8>,
    len: usize,
    ttype: u8,
    payload: Seq<u8>,
) -> bool {
    let s = sealed_frame(c, header_plain(uuid, random, len, ttype), payload);
    forall|rest: Seq<u8>| #[trigger]
        frame_outcome(c, s + rest) == (FrameOutcome::Frame {
            uuid,
            len: len as u32,
            ttype,
            payload,
            consumed: s.len(),
        })
}

/// Reading back a frame that `seal_frame` wrote, with any bytes after it,
/// gives the header's fields and the payload, and consumes exactly the
/// frame.
pub proof fn lemma_frame_roundtrip(
    c: CipherView,
    uuid: u16,
    random: Seq<u8>,
    len: usize,
    ttype: u8,
    payload: Seq<u8>,
    rest: Seq<u8>,
)
    requires
        cipher_ready(c),
        random.len() == 4,
        payload.len() <= 0xffff_ffff,
        len == payload.len(),
        aead_opened(c.alg, c.key, c.nonce, seq![], aead_sealed(c.alg, c.key, c.nonce, seq![], header_plain(uuid, random, len, ttype)))
            == Some(header_plain(uuid, random, len, ttype)),
        aead_sealed(c.alg, c.key, c.nonce, seq![], header_plain(uuid, random, len, ttype)).len() == 11 + TAG_LEN,
        ({
            let h = aead_sealed(c.alg, c.key, c.nonce, seq![], header_plain(uuid, random, len, ttype));
            &&& aead_opened(c.alg, c.key, c.nonce, h, aead_sealed(c.alg, c.key, c.nonce, h, payload)) == Some(payload)
            &&& aead_sealed(c.alg, c.key, c.nonce, h, payload).len() == payload.len() + TAG_LEN
        }),
    ensures
        ({
            let s = sealed_frame(c, header_plain(uuid, random, len, ttype), payload);
            frame_outcome(c, s + rest) == FrameOutcome::Frame {
                uuid,
                len: len as u32,
                ttype,
                payload,
                consumed: s.len(),
            }
        }),
{
    let hp = header_plain(uuid, random, len, ttype);
    let h = aead_sealed(c.alg, c.key, c.nonce, seq![], hp);
    let b = aead_sealed(c.alg, c.key, c.nonce, h, payload);
    let s = h + b;
    let all = s + rest;
    assert(all.take(27) =~= h);
    lemma_be16_roundtrip(uuid);
    lemma_be32_roundtrip(len as u32);
    assert(hp.subrange(6, 10) =~= be32(len as u32));
    assert(be16_value(hp) == be16_value(be16(uuid)));
    assert(all.subrange(27, 27 + len + 16) =~= b);
}


/// The declared length and kind of a transfer, as `new` computes them.
fn length_and_type(t: &ProxyTransfer) -> (r: (usize, ProxyTransferType))
    ensures
        r.0 == payload_bytes(t@).len(),
        r.1 == type_of(t@),
{
    match t {
        ProxyTransfer::Response(_) => (1usize, ProxyTransferType::Response),
        ProxyTransfer::RequestAddr(a) => (a.as_str().as_bytes().len(), ProxyTransferType::RequestAddr),
        ProxyTransfer::Data(a) => (a.len(), ProxyTransferType::Data),
        ProxyTransfer::Heartbeat(_) => (4, ProxyTransferType::Heartbeat),
    }
}

impl ProxyRequest {
    /// A request for connection `uuid` carrying `request`; its declared length
    /// is the length of the payload and its kind the transfer's.
    pub fn new(uuid: u16, request: ProxyTransfer) -> (r: ProxyRequest)
        ensures
            r@ == (FrameView {
                uuid,
                transfer_len: payload_bytes(request@).len(),
                transfer_type: type_of(request@),
                transfer: request@,
            }),
    {
        let (len, t_type) = length_and_type(&request);
        ProxyRequest { uuid, transfer_len: len, transfer_type: t_type, request }
    }

    /// The payload length this request declares.
    pub fn transfer_len(&self) -> (n: usize)
        ensures
            n == self@.transfer_len,
    {
        self.transfer_len
    }

    /// The kind this request declares.
    pub fn transfer_type(&self) -> (t: ProxyTransferType)
        ensures
            t == self@.transfer_type,
    {
        self.transfer_type
    }

    /// The connection id.
    pub fn uuid(&self) -> (u: u16)
        ensures
            u == self@.uuid,
    {
        self.uuid
    }

    /// The transfer carried.
    pub fn transfer(&self) -> (t: &ProxyTransfer)
        ensures
            t@ == self@.transfer,
    {
        &self.request
    }

    /// The transfer carried, taken out.
    pub fn into_transfer(self) -> (t: ProxyTransfer)
        ensures
            t@ == self@.transfer,
    {
        self.request
    }
}

impl ProxyResponse {
    /// A response for connection `uuid` carrying `response`; its declared
    /// length is the length of the payload and its kind the transfer's.
    pub fn new(uuid: u16, response: ProxyTransfer) -> (r: ProxyResponse)
        ensures
            r@ == (FrameView {
                uuid,
                transfer_len: payload_bytes(response@).len(),
                transfer_type: type_of(response@),
                transfer: response@,
            }),
    {
        let (len, t_type) = length_and_type(&response);
        ProxyResponse { uuid, transfer_len: len, transfer_type: t_type, response }
    }

    /// The payload length this response declares.
    pub fn transfer_len(&self) -> (n: usize)
        ensures
            n == self@.transfer_len,
    {
        self.transfer_len
    }

    /// The kind this response declares.
    pub fn transfer_type(&self) -> (t: ProxyTransferType)
        ensures
            t == self@.transfer_type,
    {
        self.transfer_type
    }

    /// The connection id.
    pub fn uuid(&self) -> (u: u16)
        ensures
            u == self@.uuid,
    {
        self.uuid
    }

    /// The transfer carried.
    pub fn transfer(&self) -> (t: &ProxyTransfer)
        ensures
            t@ == self@.transfer,
    {
        &self.response
    }

    /// The transfer carried, taken out.
    pub fn into_transfer(self) -> (t: ProxyTransfer)
        ensures
            t@ == self@.transfer,
    {
        self.response
    }
}

/// A transfer's payload read back under its kind's type byte gives the
/// transfer.
pub proof fn lemma_transfer_roundtrip(t: TransferView)
    ensures
        transfer_from(type_of(t).spec_code(), payload_bytes(t)) == Some(t),
        type_of_code(type_of(t).spec_code()) == type_of(t),
{
    match t {
        TransferView::Heartbeat(i) => {
            lemma_be32_roundtrip(i);
        },
        TransferView::Response(r) => {},
        _ => {},
    }
}

/// Whether `s` starts with a frame that reads back as `f`, `consumed` bytes
/// long.
pub open spec fn decodes_to(c: CipherView, s: Seq<u8>, f: FrameView, consumed: nat) -> bool {
    match frame_outcome(c, s) {
        FrameOutcome::Frame { uuid, len, ttype, payload, consumed: n } => {
            &&& transfer_from(ttype, payload) is Some
            &&& frame_item(uuid, len, ttype, payload) == f
            &&& n == consumed
        },
        _ => false,
    }
}

/// A consistent frame within the length limit, sealed and read back with any
/// bytes after it, is the same frame, and reading consumes exactly it.
pub proof fn lemma_item_reads_back(c: CipherView, f: FrameView, random: Seq<u8>)
    requires
        frame_consistent(f),
        payload_bytes(f.transfer).len() <= 0xffff_ffff,
        frame_reads_back(
            c,
            f.uuid,
            random,
            f.transfer_len as usize,
            f.transfer_type.spec_code(),
            payload_bytes(f.transfer),
        ),
    ensures
        forall|rest: Seq<u8>| #[trigger]
            decodes_to(c, encoded_frame(c, f, random) + rest, f, encoded_frame(c, f, random).len()),
{
    lemma_transfer_roundtrip(f.transfer);
    assert forall|rest: Seq<u8>| #[trigger]
        decodes_to(c, encoded_frame(c, f, random) + rest, f, encoded_frame(c, f, random).len()) by {
        let s = encoded_frame(c, f, random);
        assert(frame_outcome(c, s + rest) == (FrameOutcome::Frame {
            uuid: f.uuid,
            len: f.transfer_len as usize as u32,
            ttype: f.transfer_type.spec_code(),
            payload: payload_bytes(f.transfer),
            consumed: s.len(),
        }));
        assert(frame_item(
            f.uuid,
            f.transfer_len as usize as u32,
            f.transfer_type.spec_code(),
            payload_bytes(f.transfer),
        ) == f);
    }
}

/// The frame codec of the front end: it seals requests and opens requests,
/// under a key derived from the configuration.
pub struct ProxyRequestCodec {
    crypto_algorithm: AeadAlgorithm,
    key: [u8; 32],
    nonce_bytes: [u8; 12],
    tag_len: usize,
}

/// The frame codec of the back end: it seals responses and opens
/// responses, under a key derived from the configuration.
pub struct ProxyResponseCodec {
    crypto_algorithm: AeadAlgorithm,
    key: [u8; 32],
    nonce_bytes: [u8; 12],
    tag_len: usize,
}

impl View for ProxyRequestCodec {
    type V = CipherView;

    closed spec fn view(&self) -> CipherView {
        CipherView { alg: self.crypto_algorithm, key: self.key@, nonce: self.nonce_bytes@ }
    }
}

impl View for ProxyResponseCodec {
    type V = CipherView;

    closed spec fn view(&self) -> CipherView {
        CipherView { alg: self.crypto_algorithm, key: self.key@, nonce: self.nonce_bytes@ }
    }
}

/// Whether a configuration can make a codec: its cipher takes a 32-byte key
/// (AES-128-GCM does not, and making its key fails), its iteration count is
/// nonzero, and key and salt are far below the digests' input limit.
pub open spec fn codec_config_ok(config: _CryptoConfig) -> bool {
    &&& config.crypto_method != AeadAlgorithm::Aes128Gcm
    &&& config.digest_iteration > 0
    &&& config.salt@.len() < 0x1000_0000_0000_0000
    &&& config.key@.len() < 0x1000_0000_0000_0000
}

/// Whether a codec can be made from `config`; see `codec_config_ok`.
pub fn codec_config_usable(config: &_CryptoConfig) -> (b: bool)
    ensures
        b == codec_config_ok(*config),
{
    config.crypto_method != AeadAlgorithm::Aes128Gcm && config.digest_iteration > 0
        && (config.salt.len() as u64) < 0x1000_0000_0000_0000u64
        && (config.key.len() as u64) < 0x1000_0000_0000_0000u64
}

impl ProxyRequestCodec {
    #[verifier::type_invariant]
    spec fn ready(&self) -> bool {
        &&& cipher_ready(self@)
        &&& self.tag_len == TAG_LEN
    }

    /// A codec whose key is derived by PBKDF2 from the configuration's key
    /// and salt, with its digest and iteration count.
    pub fn new(config: _CryptoConfig) -> (c: ProxyRequestCodec)
        requires
            codec_config_ok(config),
        ensures
            c@ == cipher_of(config),
            cipher_ready(c@),
    {
        let key = derive_key(
            config.digest_method,
            config.digest_iteration,
            config.salt.as_slice(),
            config.key.as_slice(),
        );
        let tag_len = aead_tag_len(config.crypto_method);
        let nonce_bytes = [1u8; 12];
        assert(nonce_bytes@ =~= frame_nonce());
        ProxyRequestCodec { crypto_algorithm: config.crypto_method, key, nonce_bytes, tag_len }
    }

    /// Appends the frame of `item` with these random header bytes. It fails,
    /// appending nothing, only where a part cannot be sealed, which does not
    /// happen for payloads within 2^32 - 1 bytes. What it appends, followed
    /// by any bytes, reads back as `item` when `item` is as `new` builds it.
    pub fn encode_with_random(&mut self, item: ProxyRequest, random: [u8; 4], dst: &mut Vec<u8>) -> (r:
        Result<(), CodecError>)
        ensures
            final(self)@ == old(self)@,
            r is Ok ==> final(dst)@ == old(dst)@ + encoded_frame(old(self)@, item@, random@),
            r is Err ==> r == Err::<(), CodecError>(CodecError::Encryption) && final(dst)@ == old(dst)@,
            payload_bytes(item@.transfer).len() <= 0xffff_ffff ==> r is Ok,
            r is Ok && frame_consistent(item@) && payload_bytes(item@.transfer).len() <= 0xffff_ffff
                ==> forall|rest: Seq<u8>| #[trigger]
                decodes_to(
                    old(self)@,
                    final(dst)@.skip(old(dst)@.len() as int) + rest,
                    item@,
                    encoded_frame(old(self)@, item@, random@).len(),
                ),
    {
        proof {
            use_type_invariant(&*self);
        }
        let payload = transfer_payload(&item.request);
        let r = seal_frame(
            self.crypto_algorithm,
            &self.key,
            &self.nonce_bytes,
            item.uuid,
            random,
            item.transfer_len,
            item.transfer_type.code(),
            payload.as_slice(),
            dst,
        );
        proof {
            if r is Ok {
                assert(final(dst)@.skip(old(dst)@.len() as int) =~= encoded_frame(self@, item@, random@));
                if frame_consistent(item@) && payload_bytes(item@.transfer).len() <= 0xffff_ffff {
                    lemma_item_reads_back(self@, item@, random@);
                }
            }
        }
        r
    }

    /// Appends the frame of `item` with four random header bytes from the
    /// system; fails with `RandomUnavailable` when the system cannot give
    /// them, appending nothing. What it appends, followed by any bytes, reads
    /// back as `item` when `item` is as `new` builds it.
    pub fn encode(&mut self, item: ProxyRequest, dst: &mut Vec<u8>) -> (r: Result<(), CodecError>)
        ensures
            final(self)@ == old(self)@,
            r is Ok ==> exists|random: Seq<u8>| random.len() == 4 && final(dst)@ == old(dst)@ + encoded_frame(old(self)@, item@, random),
            r is Err ==> final(dst)@ == old(dst)@,
            payload_bytes(item@.transfer).len() <= 0xffff_ffff && r is Err ==> r == Err::<(), CodecError>(CodecError::RandomUnavailable),
            r is Ok && frame_consistent(item@) && payload_bytes(item@.transfer).len() <= 0xffff_ffff
                ==> forall|rest: Seq<u8>| #[trigger]
                decodes_to(
                    old(self)@,
                    final(dst)@.skip(old(dst)@.len() as int) + rest,
                    item@,
                    (final(dst)@.len() - old(dst)@.len()) as nat,
                ),
    {
        match random_bytes() {
            Some(random) => {
                let r = self.encode_with_random(item, random, dst);
                proof {
                    if r is Ok {
                        assert(dst@.len() - old(dst)@.len() == encoded_frame(old(self)@, item@, random@).len());
                    }
                }
                r
            },
            None => Err(CodecError::RandomUnavailable),
        }
    }

    /// Reads the next request from the start of `src`; see `frame_outcome`.
    /// Needs the frame's payload to fit its type.
    pub fn decode(&mut self, src: &mut Vec<u8>) -> (r: Result<Option<ProxyRequest>, CodecError>)
        requires
            !frame_malformed(old(self)@, old(src)@),
        ensures
            final(self)@ == old(self)@,
            match frame_outcome(old(self)@, old(src)@) {
                FrameOutcome::Incomplete => (r matches Ok(None)) && final(src)@ == old(src)@,
                FrameOutcome::Rejected { consumed } => (r matches Err(CodecError::Decryption))
                    && final(src)@ == old(src)@.skip(consumed as int),
                FrameOutcome::Frame { uuid, len, ttype, payload, consumed } => (r matches Ok(Some(q))
                    && q@ == frame_item(uuid, len, ttype, payload)) && final(src)@ == old(src)@.skip(
                    consumed as int,
                ),
            },
    {
        let f = open_frame(self.crypto_algorithm, &self.key, &self.nonce_bytes, src);
        match f {
            Err(e) => Err(e),
            Ok(None) => Ok(None),
            Ok(Some(frame)) => {
                let uuid = frame.uuid;
                let len = frame.transfer_len;
                let ttype = frame.transfer_type;
                match parse_transfer(ttype, frame.payload) {
                    Some((transfer_type, request)) => Ok(
                        Some(ProxyRequest { uuid, transfer_len: len as usize, transfer_type, request }),
                    ),
                    None => Err(CodecError::Decryption),
                }
            },
        }
    }

    /// Reads the next request as `decode` does where the frame's payload fits
    /// its type; gives `None`, leaving `src` as it was, where it does not.
    pub fn try_decode(&mut self, src: &mut Vec<u8>) -> (r: Option<
        Result<Option<ProxyRequest>, CodecError>,
    >)
        ensures
            final(self)@ == old(self)@,
            r is None <==> frame_malformed(old(self)@, old(src)@),
            r is None ==> final(src)@ == old(src)@,
            r matches Some(d) ==> match frame_outcome(old(self)@, old(src)@) {
                FrameOutcome::Incomplete => (d matches Ok(None)) && final(src)@ == old(src)@,
                FrameOutcome::Rejected { consumed } => (d matches Err(CodecError::Decryption))
                    && final(src)@ == old(src)@.skip(consumed as int),
                FrameOutcome::Frame { uuid, len, ttype, payload, consumed } => (d matches Ok(Some(q))
                    && q@ == frame_item(uuid, len, ttype, payload)) && final(src)@ == old(src)@.skip(
                    consumed as int,
                ),
            },
    {
        let mut probe = vstd::slice::slice_to_vec(src.as_slice());
        let f = open_frame(self.crypto_algorithm, &self.key, &self.nonce_bytes, &mut probe);
        if let Ok(Some(frame)) = f {
            if !transfer_fits(frame.transfer_type, &frame.payload) {
                return None;
            }
        }
        Some(self.decode(src))
    }
}

impl ProxyResponseCodec {
    #[verifier::type_invariant]
    spec fn ready(&self) -> bool {
        &&& cipher_ready(self@)
        &&& self.tag_len == TAG_LEN
    }

    /// A codec whose key is derived by PBKDF2 from the configuration's key
    /// and salt, with its digest and iteration count.
    pub fn new(config: _CryptoConfig) -> (c: ProxyResponseCodec)
        requires
            codec_config_ok(config),
        ensures
            c@ == cipher_of(config),
            cipher_ready(c@),
    {
        let key = derive_key(
            config.digest_method,
            config.digest_iteration,
            config.salt.as_slice(),
            config.key.as_slice(),
        );
        let tag_len = aead_tag_len(config.crypto_method);
        let nonce_bytes = [1u8; 12];
        assert(nonce_bytes@ =~= frame_nonce());
        ProxyResponseCodec { crypto_algorithm: config.crypto_method, key, nonce_bytes, tag_len }
    }

    /// Appends the frame of `item` with these random header bytes. It fails,
    /// appending nothing, only where a part cannot be sealed, which does not
    /// happen for payloads within 2^32 - 1 bytes. What it appends, followed
    /// by any bytes, reads back as `item` when `item` is as `new` builds it.
    pub fn encode_with_random(&mut self, item: ProxyResponse, random: [u8; 4], dst: &mut Vec<u8>) -> (r:
        Result<(), CodecError>)
        ensures
            final(self)@ == old(self)@,
            r is Ok ==> final(dst)@ == old(dst)@ + encoded_frame(old(self)@, item@, random@),
            r is Err ==> r == Err::<(), CodecError>(CodecError::Encryption) && final(dst)@ == old(dst)@,
            payload_bytes(item@.transfer).len() <= 0xffff_ffff ==> r is Ok,
            r is Ok && frame_consistent(item@) && payload_bytes(item@.transfer).len() <= 0xffff_ffff
                ==> forall|rest: Seq<u8>| #[trigger]
                decodes_to(
                    old(self)@,
                    final(dst)@.skip(old(dst)@.len() as int) + rest,
                    item@,
                    encoded_frame(old(self)@, item@, random@).len(),
                ),
    {
        proof {
            use_type_invariant(&*self);
        }
        let payload = transfer_payload(&item.response);
        let r = seal_frame(
            self.crypto_algorithm,
            &self.key,
            &self.nonce_bytes,
            item.uuid,
            random,
            item.transfer_len,
            item.transfer_type.code(),
            payload.as_slice(),
            dst,
        );
        proof {
            if r is Ok {
                assert(final(dst)@.skip(old(dst)@.len() as int) =~= encoded_frame(self@, item@, random@));
                if frame_consistent(item@) && payload_bytes(item@.transfer).len() <= 0xffff_ffff {
                    lemma_item_reads_back(self@, item@, random@);
                }
            }
        }
        r
    }

    /// Appends the frame of `item` with four random header bytes from the
    /// system; fails with `RandomUnavailable` when the system cannot give
    /// them, appending nothing. What it appends, followed by any bytes, reads
    /// back as `item` when `item` is as `new` builds it.
    pub fn encode(&mut self, item: ProxyResponse, dst: &mut Vec<u8>) -> (r: Result<(), CodecError>)
        ensures
            final(self)@ == old(self)@,
            r is Ok ==> exists|random: Seq<u8>| random.len() == 4 && final(dst)@ == old(dst)@ + encoded_frame(old(self)@, item@, random),
            r is Err ==> final(dst)@ == old(dst)@,
            payload_bytes(item@.transfer).len() <= 0xffff_ffff && r is Err ==> r == Err::<(), CodecError>(CodecError::RandomUnavailable),
            r is Ok && frame_consistent(item@) && payload_bytes(item@.transfer).len() <= 0xffff_ffff
                ==> forall|rest: Seq<u8>| #[trigger]
                decodes_to(
                    old(self)@,
                    final(dst)@.skip(old(dst)@.len() as int) + rest,
                    item@,
                    (final(dst)@.len() - old(dst)@.len()) as nat,
                ),
    {
        match random_bytes() {
            Some(random) => {
                let r = self.encode_with_random(item, random, dst);
                proof {
                    if r is Ok {
                        assert(dst@.len() - old(dst)@.len() == encoded_frame(old(self)@, item@, random@).len());
                    }
                }
                r
            },
            None => Err(CodecError::RandomUnavailable),
        }
    }

    /// Reads the next response from the start of `src`; see `frame_outcome`.
    /// Needs the frame's payload to fit its type.
    pub fn decode(&mut self, src: &mut Vec<u8>) -> (r: Result<Option<ProxyResponse>, CodecError>)
        requires
            !frame_malformed(old(self)@, old(src)@),
        ensures
            final(self)@ == old(self)@,
            match frame_outcome(old(self)@, old(src)@) {
                FrameOutcome::Incomplete => (r matches Ok(None)) && final(src)@ == old(src)@,
                FrameOutcome::Rejected { consumed } => (r matches Err(CodecError::Decryption))
                    && final(src)@ == old(src)@.skip(consumed as int),
                FrameOutcome::Frame { uuid, len, ttype, payload, consumed } => (r matches Ok(Some(q))
                    && q@ == frame_item(uuid, len, ttype, payload)) && final(src)@ == old(src)@.skip(
                    consumed as int,
                ),
            },
    {
        let f = open_frame(self.crypto_algorithm, &self.key, &self.nonce_bytes, src);
        match f {
            Err(e) => Err(e),
            Ok(None) => Ok(None),
            Ok(Some(frame)) => {
                let uuid = frame.uuid;
                let len = frame.transfer_len;
                let ttype = frame.transfer_type;
                match parse_transfer(ttype, frame.payload) {
                    Some((transfer_type, response)) => Ok(
                        Some(ProxyResponse { uuid, transfer_len: len as usize, transfer_type, response }),
                    ),
                    None => Err(CodecError::Decryption),
                }
            },
        }
    }

    /// Reads the next response as `decode` does where the frame's payload
    /// fits its type; gives `None`, leaving `src` as it was, where it does not.
    pub fn try_decode(&mut self, src: &mut Vec<u8>) -> (r: Option<
        Result<Option<ProxyResponse>, CodecError>,
    >)
        ensures
            final(self)@ == old(self)@,
            r is None <==> frame_malformed(old(self)@, old(src)@),
            r is None ==> final(src)@ == old(src)@,
            r matches Some(d) ==> match frame_outcome(old(self)@, old(src)@) {
                FrameOutcome::Incomplete => (d matches Ok(None)) && final(src)@ == old(src)@,
                FrameOutcome::Rejected { consumed } => (d matches Err(CodecError::Decryption))
                    && final(src)@ == old(src)@.skip(consumed as int),
                FrameOutcome::Frame { uuid, len, ttype, payload, consumed } => (d matches Ok(Some(q))
                    && q@ == frame_item(uuid, len, ttype, payload)) && final(src)@ == old(src)@.skip(
                    consumed as int,
                ),
            },
    {
        let mut probe = vstd::slice::slice_to_vec(src.as_slice());
        let f = open_frame(self.crypto_algorithm, &self.key, &self.nonce_bytes, &mut probe);
        if let Ok(Some(frame)) = f {
            if !transfer_fits(frame.transfer_type, &frame.payload) {
                return None;
            }
        }
        Some(self.decode(src))
    }
}

} // verus!
