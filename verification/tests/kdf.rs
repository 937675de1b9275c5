use just_proxy_lib::crypto::DigestAlgorithm;
use just_proxy_lib::kdf::{derive_key, pbkdf2_hmac_sha512_256};
use just_proxy_lib::message::{ProxyRequest, ProxyRequestCodec, ProxyTransfer};
use just_proxy_lib::opt::CryptoConfig;

fn hex(b: &[u8]) -> String {
    b.iter().map(|x| format!("{:02x}", x)).collect()
}

#[test]
fn pbkdf2_sha512_256_vectors() {
    assert_eq!(
        hex(&pbkdf2_hmac_sha512_256(1, b"2121", b"12312")),
        "6e0888324a5bab8d2f1e63fce19070cb8e509ecd61c0a91d1bb24741e0a2b787"
    );
    assert_eq!(
        hex(&pbkdf2_hmac_sha512_256(3, b"salt", b"password")),
        "9fa42ea03f8f8ac08be344def79d9c031e8f773f20a1061f5f38b37f01d32943"
    );
    // A secret longer than the digest's block is hashed first.
    assert_eq!(
        hex(&pbkdf2_hmac_sha512_256(2, b"", &[b'k'; 200])),
        "7ed276191c4b5c999a2d1cfbfab64c21ec78b1188d93f0e5478c9227ccc3a5b1"
    );
}

#[test]
fn derive_key_by_digest() {
    let a = derive_key(DigestAlgorithm::Sha512_256, 1, b"2121", b"12312");
    assert_eq!(a, pbkdf2_hmac_sha512_256(1, b"2121", b"12312"));
    let b = derive_key(DigestAlgorithm::Sha512, 1, b"2121", b"12312");
    let c = derive_key(DigestAlgorithm::Sha256, 1, b"2121", b"12312");
    assert_ne!(a, b);
    assert_ne!(b, c);
    assert_ne!(a, c);
}

#[test]
fn sha512_256_codec_reads_back() {
    let mut cfg = CryptoConfig::default();
    cfg.digest_method = "sha512_256".to_string();
    cfg.digest_iteration = 4;
    let mut enc = ProxyRequestCodec::new(cfg.convert().unwrap());
    let mut dec = ProxyRequestCodec::new({
        let mut c = CryptoConfig::default();
        c.digest_method = "sha512_256".to_string();
        c.digest_iteration = 4;
        c.convert().unwrap()
    });
    let mut wire = Vec::new();
    enc.encode(ProxyRequest::new(3, ProxyTransfer::Data(b"ping".to_vec())), &mut wire).unwrap();
    let back = dec.decode(&mut wire).unwrap().unwrap();
    assert_eq!(back.request, ProxyTransfer::Data(b"ping".to_vec()));
    // A codec with another digest cannot open the frame.
    let mut other = ProxyRequestCodec::new(CryptoConfig::default().convert().unwrap());
    let mut wire = Vec::new();
    enc.encode(ProxyRequest::new(3, ProxyTransfer::Data(b"ping".to_vec())), &mut wire).unwrap();
    assert!(other.try_decode(&mut wire).unwrap().is_err());
}
