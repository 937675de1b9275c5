//! The command line of the program and the options it builds.
use vstd::prelude::*;
use crate::crypto::{AeadAlgorithm, DigestAlgorithm};
use crate::json::{json_merge, lemma_merge_fresh_entries, merge, JsonValue, JsonView};
use crate::opt::{
    crypto_json, no_overrides, quic_json, ClientOpt, Config, CryptoConfig, QuicConfig, ServerOpt,
    _CryptoConfig,
};

verus! {

/// The command line: where to listen and connect, which transport, whether
/// to serve, where the configuration file is, and how to run (retrying the
/// client, or in the background as a daemon).
pub struct BinOpt {
    pub verbose: bool,
    pub socks_host: String,
    pub proxy_host: String,
    pub socks_port: i64,
    pub proxy_port: i64,
    pub protocol: String,
    pub server: bool,
    pub config_path: String,
    pub dump_config: bool,
    pub retry: bool,
    pub retry_interval: u64,
    pub daemon: bool,
}

/// Whether a cryptography configuration converts: both algorithms are known
/// and the iteration count is nonzero.
pub open spec fn crypto_convertible(c: CryptoConfig) -> bool {
    c.names_known_algorithms() && c.digest_iteration != 0
}

/// Converts a configuration that is known to convert.
fn converted(crypto_config: CryptoConfig) -> (c: _CryptoConfig)
    requires
        crypto_convertible(crypto_config),
    ensures
        crypto_config.convert_spec(c),
{
    match crypto_config.convert() {
        Ok(c) => c,
        Err(_) => _CryptoConfig {
            key: Vec::new(),
            salt: Vec::new(),
            crypto_method: AeadAlgorithm::Aes256Gcm,
            digest_method: DigestAlgorithm::Sha256,
            digest_iteration: 1,
        },
    }
}

/// The configuration file that the program offers as a start: QUIC
/// settings that override nothing, and the default cryptography.
pub open spec fn starter_config() -> JsonView {
    json_merge(
        quic_json(no_overrides()),
        crypto_json("12312"@, "2121"@, "aes-256-gcm"@, "sha256"@, 1),
    )
}

impl BinOpt {
    /// The starter configuration: the JSON object of QUIC settings that
    /// override nothing with the default cryptography merged in. Its keys are
    /// distinct, so the entries of the cryptography follow those of QUIC.
    pub fn dump_config() -> (j: JsonValue)
        ensures
            j@ == starter_config(),
            quic_json(no_overrides()) matches JsonView::Object(q) && crypto_json(
                "12312"@,
                "2121"@,
                "aes-256-gcm"@,
                "sha256"@,
                1,
            ) matches JsonView::Object(c) && j@ == JsonView::Object(q + c),
    {
        let quic_config = QuicConfig::default();
        let crypto_config = CryptoConfig::default();
        let mut quic_value = quic_config.to_json();
        let crypto_value = crypto_config.to_json();
        assert(quic_config == no_overrides());
        merge(&mut quic_value, &crypto_value);
        proof {
            reveal_strlit("stream_window_bidi");
            reveal_strlit("idle_timeout");
            reveal_strlit("stream_receive_window");
            reveal_strlit("receive_window");
            reveal_strlit("max_tlps");
            reveal_strlit("packet_threshold");
            reveal_strlit("time_threshold");
            reveal_strlit("delayed_ack_timeout");
            reveal_strlit("initial_rtt");
            reveal_strlit("max_datagram_size");
            reveal_strlit("initial_window");
            reveal_strlit("minimum_window");
            reveal_strlit("loss_reduction_factor");
            reveal_strlit("presistent_cognestion_threshold");
            reveal_strlit("local_cid_len");
            reveal_strlit("key");
            reveal_strlit("salt");
            reveal_strlit("crypto_method");
            reveal_strlit("digest_method");
            reveal_strlit("digest_iteration");
            if let (JsonView::Object(q), JsonView::Object(c)) = (
                quic_json(no_overrides()),
                crypto_json("12312"@, "2121"@, "aes-256-gcm"@, "sha256"@, 1),
            ) {
                assert forall|i: int, k: int| 0 <= i < c.len() && 0 <= k < q.len() implies (
                #[trigger] c[i]).0 != (#[trigger] q[k]).0 by {
                    assert(c[i].0.len() != q[k].0.len() || c[i].0[0] != q[k].0[0]);
                }
                assert forall|i: int, k: int| 0 <= i < k < c.len() implies (#[trigger] c[i]).0 != (
                #[trigger] c[k]).0 by {
                    assert(c[i].0.len() != c[k].0.len() || c[i].0[0] != c[k].0[0]);
                }
                lemma_merge_fresh_entries(q, c);
            }
        }
        quic_value
    }

    /// The server's options: the proxy address and transport from the
    /// command line, and the configuration read from the file.
    pub fn to_server_config(&self, quic_config: QuicConfig, crypto_config: CryptoConfig) -> (o: ServerOpt)
        requires
            crypto_convertible(crypto_config),
        ensures
            o.proxy_host@ == self.proxy_host@,
            o.proxy_port == self.proxy_port,
            o.protocol@ == self.protocol@,
            o.config.quic == quic_config,
            crypto_config.convert_spec(o.config.crypto),
    {
        ServerOpt {
            proxy_host: self.proxy_host.clone(),
            proxy_port: self.proxy_port,
            protocol: self.protocol.clone(),
            config: Config { quic: quic_config, crypto: converted(crypto_config) },
        }
    }

    /// The client's options: the SOCKS5 and proxy addresses and transport
    /// from the command line, and the configuration read from the file.
    pub fn to_client_config(&self, quic_config: QuicConfig, crypto_config: CryptoConfig) -> (o: ClientOpt)
        requires
            crypto_convertible(crypto_config),
        ensures
            o.socks_host@ == self.socks_host@,
            o.proxy_host@ == self.proxy_host@,
            o.socks_port == self.socks_port,
            o.proxy_port == self.proxy_port,
            o.protocol@ == self.protocol@,
            o.config.quic == quic_config,
            crypto_config.convert_spec(o.config.crypto),
    {
        ClientOpt {
            socks_host: self.socks_host.clone(),
            proxy_host: self.proxy_host.clone(),
            socks_port: self.socks_port,
            proxy_port: self.proxy_port,
            protocol: self.protocol.clone(),
            config: Config { quic: quic_config, crypto: converted(crypto_config) },
        }
    }
}

} // verus!
