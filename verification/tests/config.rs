use just_proxy_lib::cli::BinOpt;
use just_proxy_lib::crypto::{AeadAlgorithm, DigestAlgorithm};
use just_proxy_lib::opt::{CryptoConfig, QuicConfig, TransportConfig};

fn crypto(method: &str, digest: &str, iterations: u32) -> CryptoConfig {
    CryptoConfig {
        key: "secret".to_string(),
        salt: "pepper".to_string(),
        crypto_method: method.to_string(),
        digest_method: digest.to_string(),
        digest_iteration: iterations,
    }
}

fn transport() -> TransportConfig {
    TransportConfig {
        stream_window_bidi: 32,
        idle_timeout: 10_000,
        stream_receive_window: 1 << 20,
        receive_window: 1 << 23,
        max_tlps: 2,
        packet_threshold: 3,
        time_threshold: 0x2000,
        delayed_ack_timeout: 25_000,
        initial_rtt: 333_000,
        max_datagram_size: 1200,
        initial_window: 14_720,
        minimum_window: 2400,
        loss_reduction_factor: 0x8000,
        persistent_congestion_threshold: 3,
    }
}

fn bin_opt() -> BinOpt {
    BinOpt {
        verbose: false,
        socks_host: "127.0.0.1".to_string(),
        proxy_host: "10.0.0.2".to_string(),
        socks_port: 12345,
        proxy_port: 12346,
        protocol: "tcp".to_string(),
        server: false,
        config_path: "/etc/justproxy/config.json".to_string(),
        dump_config: false,
        retry: true,
        retry_interval: 5,
        daemon: false,
    }
}

#[test]
fn default_crypto_config() {
    let c = CryptoConfig::default();
    assert_eq!(c.key, "12312");
    assert_eq!(c.salt, "2121");
    assert_eq!(c.crypto_method, "aes-256-gcm");
    assert_eq!(c.digest_method, "sha256");
    assert_eq!(c.digest_iteration, 1);
    let converted = c.convert().unwrap();
    assert_eq!(converted.key, b"12312".to_vec());
    assert_eq!(converted.salt, b"2121".to_vec());
    assert_eq!(converted.crypto_method, AeadAlgorithm::Aes256Gcm);
    assert_eq!(converted.digest_method, DigestAlgorithm::Sha256);
    assert_eq!(converted.digest_iteration, 1);
}

#[test]
fn every_named_algorithm_converts() {
    let ciphers = [
        ("aes-256-gcm", AeadAlgorithm::Aes256Gcm),
        ("aes-128-gcm", AeadAlgorithm::Aes128Gcm),
        ("chacha20_poly1305", AeadAlgorithm::Chacha20Poly1305),
    ];
    let digests = [
        ("sha1", DigestAlgorithm::Sha1),
        ("sha256", DigestAlgorithm::Sha256),
        ("sha384", DigestAlgorithm::Sha384),
        ("sha512", DigestAlgorithm::Sha512),
        ("sha512_256", DigestAlgorithm::Sha512_256),
    ];
    for (cn, c) in ciphers.iter() {
        for (dn, d) in digests.iter() {
            let r = crypto(cn, dn, 1000).convert().unwrap();
            assert_eq!(r.crypto_method, *c);
            assert_eq!(r.digest_method, *d);
            assert_eq!(r.digest_iteration, 1000);
            assert_eq!(r.key, b"secret".to_vec());
            assert_eq!(r.salt, b"pepper".to_vec());
        }
    }
}

#[test]
fn key_and_salt_become_utf8_bytes() {
    let mut c = crypto("aes-256-gcm", "sha1", 1);
    c.key = "ké".to_string();
    c.salt = String::new();
    let r = c.convert().unwrap();
    assert_eq!(r.key, vec![0x6b, 0xc3, 0xa9]);
    assert!(r.salt.is_empty());
}

#[test]
fn unknown_names_are_refused() {
    assert_eq!(crypto("aes-512-gcm", "sha256", 1).convert().err(), Some("unsupported crypto method"));
    assert_eq!(crypto("AES-256-GCM", "sha256", 1).convert().err(), Some("unsupported crypto method"));
    assert_eq!(crypto("aes-256-gcm", "md5", 1).convert().err(), Some("unsupported digest method"));
    assert_eq!(crypto("aes-256-gcm", "SHA256", 1).convert().err(), Some("unsupported digest method"));
    assert_eq!(crypto("aes-256-gcm", "sha512/256", 1).convert().err(), Some("unsupported digest method"));
    // The cipher is checked first, and a bad name wins over a zero count.
    assert_eq!(crypto("rot13", "md5", 0).convert().err(), Some("unsupported crypto method"));
    assert_eq!(crypto("aes-128-gcm", "md5", 0).convert().err(), Some("unsupported digest method"));
}

#[test]
fn default_quic_config_overrides_nothing() {
    let q = QuicConfig::default();
    assert_eq!(q.to_quinn_config(transport()), transport());
}

#[test]
fn quic_overrides_replace_defaults() {
    let mut q = QuicConfig::default();
    q.idle_timeout = Some(60_000);
    q.max_tlps = Some(7);
    q.time_threshold = Some(1);
    q.presistent_cognestion_threshold = Some(9);
    let t = q.to_quinn_config(transport());
    let mut expected = transport();
    expected.idle_timeout = 60_000;
    expected.max_tlps = 7;
    expected.time_threshold = 1;
    expected.persistent_congestion_threshold = 9;
    assert_eq!(t, expected);

    let all = QuicConfig {
        stream_window_bidi: Some(1),
        idle_timeout: Some(2),
        stream_receive_window: Some(3),
        receive_window: Some(4),
        max_tlps: Some(5),
        packet_threshold: Some(6),
        time_threshold: Some(7),
        delayed_ack_timeout: Some(8),
        initial_rtt: Some(9),
        max_datagram_size: Some(10),
        initial_window: Some(11),
        minimum_window: Some(12),
        loss_reduction_factor: Some(13),
        presistent_cognestion_threshold: Some(14),
        local_cid_len: Some(8),
    };
    let t = all.to_quinn_config(transport());
    assert_eq!(
        t,
        TransportConfig {
            stream_window_bidi: 1,
            idle_timeout: 2,
            stream_receive_window: 3,
            receive_window: 4,
            max_tlps: 5,
            packet_threshold: 6,
            time_threshold: 7,
            delayed_ack_timeout: 8,
            initial_rtt: 9,
            max_datagram_size: 10,
            initial_window: 11,
            minimum_window: 12,
            loss_reduction_factor: 13,
            persistent_congestion_threshold: 14,
        }
    );
}

#[test]
fn server_options_from_the_command_line() {
    let mut q = QuicConfig::default();
    q.initial_rtt = Some(42);
    let o = bin_opt().to_server_config(q, crypto("chacha20_poly1305", "sha384", 3));
    assert_eq!(o.proxy_host, "10.0.0.2");
    assert_eq!(o.proxy_port, 12346);
    assert_eq!(o.protocol, "tcp");
    assert_eq!(o.config.quic.initial_rtt, Some(42));
    assert_eq!(o.config.crypto.crypto_method, AeadAlgorithm::Chacha20Poly1305);
    assert_eq!(o.config.crypto.digest_method, DigestAlgorithm::Sha384);
    assert_eq!(o.config.crypto.digest_iteration, 3);
    assert_eq!(o.config.crypto.key, b"secret".to_vec());
}

#[test]
fn client_options_from_the_command_line() {
    let o = bin_opt().to_client_config(QuicConfig::default(), CryptoConfig::default());
    assert_eq!(o.socks_host, "127.0.0.1");
    assert_eq!(o.proxy_host, "10.0.0.2");
    assert_eq!(o.socks_port, 12345);
    assert_eq!(o.proxy_port, 12346);
    assert_eq!(o.protocol, "tcp");
    assert_eq!(o.config.quic.initial_rtt, None);
    assert_eq!(o.config.crypto.salt, b"2121".to_vec());
    assert_eq!(o.config.crypto.crypto_method, AeadAlgorithm::Aes256Gcm);
}
