use just_proxy_lib::message::{
    BytesCodec, CodecError, ProxyRequest, ProxyRequestCodec, ProxyResponse, ProxyResponseCodec,
    ProxyResponseType, ProxyTransfer, ProxyTransferType,
};
use just_proxy_lib::opt::{CryptoConfig, _CryptoConfig};

fn default_crypto() -> _CryptoConfig {
    CryptoConfig::default().convert().unwrap()
}

#[test]
fn new_declares_length_and_type() {
    let r = ProxyRequest::new(7, ProxyTransfer::RequestAddr("héllo:80".to_string()));
    assert_eq!(r.transfer_len(), 9);
    assert_eq!(r.transfer_type(), ProxyTransferType::RequestAddr);
    let r = ProxyResponse::new(7, ProxyTransfer::Heartbeat(3));
    assert_eq!(r.transfer_len(), 4);
    assert_eq!(r.transfer_type(), ProxyTransferType::Heartbeat);
    let r = ProxyResponse::new(7, ProxyTransfer::Response(ProxyResponseType::Abort));
    assert_eq!(r.transfer_len(), 1);
    let r = ProxyRequest::new(7, ProxyTransfer::Data(vec![1, 2, 3]));
    assert_eq!(r.transfer_len(), 3);
    assert_eq!(r.transfer_type(), ProxyTransferType::Data);
}

#[test]
fn request_frames_read_back() {
    let mut codec = ProxyRequestCodec::new(default_crypto());
    let items = vec![
        ProxyRequest::new(5, ProxyTransfer::RequestAddr("example.com:443".to_string())),
        ProxyRequest::new(5, ProxyTransfer::Data(b"hello world".to_vec())),
        ProxyRequest::new(0, ProxyTransfer::Heartbeat(77)),
        ProxyRequest::new(9, ProxyTransfer::Response(ProxyResponseType::Timeout)),
        ProxyRequest::new(9, ProxyTransfer::Data(Vec::new())),
    ];
    let mut wire = Vec::new();
    let mut lens = Vec::new();
    for item in items {
        let copy = match &item.request {
            ProxyTransfer::Data(d) => ProxyTransfer::Data(d.clone()),
            ProxyTransfer::RequestAddr(a) => ProxyTransfer::RequestAddr(a.clone()),
            ProxyTransfer::Response(r) => ProxyTransfer::Response(*r),
            ProxyTransfer::Heartbeat(i) => ProxyTransfer::Heartbeat(*i),
        };
        lens.push(item.transfer_len());
        let before = wire.len();
        codec.encode(item, &mut wire).unwrap();
        assert_eq!(wire.len() - before, 27 + lens.last().unwrap() + 16);
        let mut single = wire[before..].to_vec();
        let back = codec.try_decode(&mut single).unwrap().unwrap().unwrap();
        assert_eq!(back.request, copy);
        assert!(single.is_empty());
    }
    // Frames read back one after the other from one buffer.
    let mut count = 0;
    while let Some(r) = codec.decode(&mut wire).unwrap() {
        assert_eq!(r.transfer_len(), lens[count]);
        count += 1;
    }
    assert_eq!(count, 5);
    assert!(wire.is_empty());
}

#[test]
fn response_frames_read_back() {
    let mut codec = ProxyResponseCodec::new(default_crypto());
    let mut wire = Vec::new();
    codec
        .encode_with_random(ProxyResponse::new(3, ProxyTransfer::Response(ProxyResponseType::Succeeded)), [1, 2, 3, 4], &mut wire)
        .unwrap();
    wire.push(0xee);
    let back = codec.decode(&mut wire).unwrap().unwrap();
    assert_eq!(back, ProxyResponse::new(3, ProxyTransfer::Response(ProxyResponseType::Succeeded)));
    assert_eq!(wire, vec![0xee]);
}

#[test]
fn frames_are_sealed() {
    let mut codec = ProxyRequestCodec::new(default_crypto());
    let mut wire = Vec::new();
    codec.encode_with_random(ProxyRequest::new(1, ProxyTransfer::Data(b"secret payload".to_vec())), [0; 4], &mut wire).unwrap();
    assert!(!wire.windows(14).any(|w| w == b"secret payload"));
    // The random header bytes change the whole frame.
    let mut other = Vec::new();
    codec.encode_with_random(ProxyRequest::new(1, ProxyTransfer::Data(b"secret payload".to_vec())), [0, 0, 0, 1], &mut other).unwrap();
    assert_ne!(wire, other);
    let mut again = Vec::new();
    codec.encode_with_random(ProxyRequest::new(1, ProxyTransfer::Data(b"secret payload".to_vec())), [0; 4], &mut again).unwrap();
    assert_eq!(wire, again);
}

#[test]
fn partial_frames_wait() {
    let mut codec = ProxyRequestCodec::new(default_crypto());
    let mut wire = Vec::new();
    codec.encode(ProxyRequest::new(1, ProxyTransfer::Data(vec![7; 100])), &mut wire).unwrap();
    for cut in [0usize, 10, 26, 27, 60, wire.len() - 1] {
        let mut part = wire[..cut].to_vec();
        assert!(codec.decode(&mut part).unwrap().is_none());
        assert_eq!(part.len(), cut);
    }
}

#[test]
fn another_key_is_rejected() {
    let mut sender = ProxyRequestCodec::new(default_crypto());
    let mut other = CryptoConfig::default();
    other.key = "another".to_string();
    let mut receiver = ProxyRequestCodec::new(other.convert().unwrap());
    let mut wire = Vec::new();
    sender.encode(ProxyRequest::new(1, ProxyTransfer::Heartbeat(1)), &mut wire).unwrap();
    let len = wire.len();
    assert_eq!(receiver.decode(&mut wire), Err(CodecError::Decryption));
    assert_eq!(wire.len(), len);
    // A different salt or iteration count derives a different key too.
    let mut salted = CryptoConfig::default();
    salted.salt = "x".to_string();
    let mut receiver = ProxyRequestCodec::new(salted.convert().unwrap());
    assert_eq!(receiver.decode(&mut wire), Err(CodecError::Decryption));
    let mut slow = CryptoConfig::default();
    slow.digest_iteration = 2;
    let mut receiver = ProxyRequestCodec::new(slow.convert().unwrap());
    assert_eq!(receiver.decode(&mut wire), Err(CodecError::Decryption));
}

#[test]
fn tampered_payload_is_rejected_and_dropped() {
    let mut codec = ProxyRequestCodec::new(default_crypto());
    let mut wire = Vec::new();
    codec.encode(ProxyRequest::new(1, ProxyTransfer::Data(vec![1, 2, 3])), &mut wire).unwrap();
    let n = wire.len();
    wire[30] ^= 1;
    wire.push(5);
    assert_eq!(codec.decode(&mut wire), Err(CodecError::Decryption));
    assert_eq!(wire, vec![5]);
    assert_eq!(n, 27 + 3 + 16);
}

#[test]
fn chacha_frames_read_back() {
    let mut c = CryptoConfig::default();
    c.crypto_method = "chacha20_poly1305".to_string();
    c.digest_method = "sha512".to_string();
    let mut codec = ProxyResponseCodec::new(c.convert().unwrap());
    let mut wire = Vec::new();
    codec.encode(ProxyResponse::new(2, ProxyTransfer::Data(vec![4; 5])), &mut wire).unwrap();
    let back = codec.decode(&mut wire).unwrap().unwrap();
    assert_eq!(back, ProxyResponse::new(2, ProxyTransfer::Data(vec![4; 5])));
}

#[test]
fn bytes_codec_takes_everything() {
    let mut c = BytesCodec;
    let mut buf = Vec::new();
    assert_eq!(c.decode(&mut buf), None);
    let mut buf = vec![1, 2];
    assert_eq!(c.decode(&mut buf), Some(vec![1, 2]));
    assert!(buf.is_empty());
}
