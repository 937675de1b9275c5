//! Options of the client and the server, and the configuration of the
//! tunnel's cryptography and QUIC transport.
#![allow(non_camel_case_types)]
use vstd::prelude::*;
use vstd::slice::slice_to_vec;
use vstd::utf8::encode_utf8;
use crate::crypto::{aead_key_len, AeadAlgorithm, DigestAlgorithm};
use crate::json::{entries_view, object, push_entry, JsonValue, JsonView};
use crate::text::{decimal_string, nat_decimal};

verus! {

/// What the client needs: where to listen for SOCKS5, where the server is,
/// which transport to use, and the tunnel's configuration.
pub struct ClientOpt {
    pub socks_host: String,
    pub proxy_host: String,
    pub socks_port: i64,
    pub proxy_port: i64,
    pub protocol: String,
    pub config: Config,
}

/// What the server needs: where to listen, which transport, and the
/// tunnel's configuration.
pub struct ServerOpt {
    pub proxy_host: String,
    pub proxy_port: i64,
    pub protocol: String,
    pub config: Config,
}

/// The cryptography of the tunnel as a configuration file names it.
pub struct CryptoConfig {
    pub key: String,
    pub salt: String,
    pub crypto_method: String,
    pub digest_method: String,
    pub digest_iteration: u32,
}

/// The cryptography of the tunnel, resolved: key material as bytes and the
/// algorithms themselves.
#[derive(Clone)]
pub struct _CryptoConfig {
    pub key: Vec<u8>,
    pub salt: Vec<u8>,
    pub crypto_method: AeadAlgorithm,
    pub digest_method: DigestAlgorithm,
    pub digest_iteration: u32,
}

/// The whole configuration of the tunnel.
pub struct Config {
    pub quic: QuicConfig,
    pub crypto: _CryptoConfig,
}

/// QUIC settings that a configuration file may override; `None` keeps the
/// default. `local_cid_len` is the length of the connection ids the local
/// endpoint issues, an endpoint setting rather than a transport one.
pub struct QuicConfig {
    pub stream_window_bidi: Option<u64>,
    pub idle_timeout: Option<u64>,
    pub stream_receive_window: Option<u64>,
    pub receive_window: Option<u64>,
    pub max_tlps: Option<u32>,
    pub packet_threshold: Option<u32>,
    pub time_threshold: Option<u16>,
    pub delayed_ack_timeout: Option<u64>,
    pub initial_rtt: Option<u64>,
    pub max_datagram_size: Option<u64>,
    pub initial_window: Option<u64>,
    pub minimum_window: Option<u64>,
    pub loss_reduction_factor: Option<u16>,
    pub presistent_cognestion_threshold: Option<u32>,
    pub local_cid_len: Option<u64>,
}

/// The QUIC transport parameters that `QuicConfig` can set.
#[derive(Clone, Copy, Debug, PartialEq, Eq, Structural)]
pub struct TransportConfig {
    pub stream_window_bidi: u64,
    pub idle_timeout: u64,
    pub stream_receive_window: u64,
    pub receive_window: u64,
    pub max_tlps: u32,
    pub packet_threshold: u32,
    pub time_threshold: u16,
    pub delayed_ack_timeout: u64,
    pub initial_rtt: u64,
    pub max_datagram_size: u64,
    pub initial_window: u64,
    pub minimum_window: u64,
    pub loss_reduction_factor: u16,
    pub persistent_congestion_threshold: u32,
}

/// The cipher a configuration names.
pub open spec fn aead_named(s: Seq<char>) -> Option<AeadAlgorithm> {
    if s == "aes-256-gcm"@ {
        Some(AeadAlgorithm::Aes256Gcm)
    } else if s == "aes-128-gcm"@ {
        Some(AeadAlgorithm::Aes128Gcm)
    } else if s == "chacha20_poly1305"@ {
        Some(AeadAlgorithm::Chacha20Poly1305)
    } else {
        None
    }
}

/// The digest a configuration names.
pub open spec fn digest_named(s: Seq<char>) -> Option<DigestAlgorithm> {
    if s == "sha1"@ {
        Some(DigestAlgorithm::Sha1)
    } else if s == "sha256"@ {
        Some(DigestAlgorithm::Sha256)
    } else if s == "sha384"@ {
        Some(DigestAlgorithm::Sha384)
    } else if s == "sha512"@ {
        Some(DigestAlgorithm::Sha512)
    } else if s == "sha512_256"@ {
        Some(DigestAlgorithm::Sha512_256)
    } else {
        None
    }
}

/// Each name of a configuration selects the algorithm it names: the
/// ciphers "aes-256-gcm" (a 32-byte key), "aes-128-gcm" (a 16-byte key) and
/// "chacha20_poly1305" (a 32-byte key), and the digests "sha1", "sha256",
/// "sha384", "sha512" and "sha512_256"; different names select different
/// algorithms, and an empty name selects none.
pub proof fn lemma_algorithm_names(n1: Seq<char>, n2: Seq<char>)
    ensures
        aead_named("aes-256-gcm"@) == Some(AeadAlgorithm::Aes256Gcm) && aead_key_len(
            AeadAlgorithm::Aes256Gcm,
        ) == 32,
        aead_named("aes-128-gcm"@) == Some(AeadAlgorithm::Aes128Gcm) && aead_key_len(
            AeadAlgorithm::Aes128Gcm,
        ) == 16,
        aead_named("chacha20_poly1305"@) == Some(AeadAlgorithm::Chacha20Poly1305) && aead_key_len(
            AeadAlgorithm::Chacha20Poly1305,
        ) == 32,
        digest_named("sha1"@) == Some(DigestAlgorithm::Sha1),
        digest_named("sha256"@) == Some(DigestAlgorithm::Sha256),
        digest_named("sha384"@) == Some(DigestAlgorithm::Sha384),
        digest_named("sha512"@) == Some(DigestAlgorithm::Sha512),
        digest_named("sha512_256"@) == Some(DigestAlgorithm::Sha512_256),
        aead_named(n1) is Some && aead_named(n1) == aead_named(n2) ==> n1 == n2,
        digest_named(n1) is Some && digest_named(n1) == digest_named(n2) ==> n1 == n2,
        aead_named(Seq::empty()) is None && digest_named(Seq::empty()) is None,
{
    reveal_strlit("aes-256-gcm");
    reveal_strlit("aes-128-gcm");
    reveal_strlit("chacha20_poly1305");
    reveal_strlit("sha1");
    reveal_strlit("sha256");
    reveal_strlit("sha384");
    reveal_strlit("sha512");
    reveal_strlit("sha512_256");
    assert("aes-128-gcm"@[4] != "aes-256-gcm"@[4]);
    assert("chacha20_poly1305"@.len() != "aes-256-gcm"@.len());
    assert("chacha20_poly1305"@.len() != "aes-128-gcm"@.len());
    assert("sha256"@[3] != "sha1"@[3]);
    assert("sha384"@[3] != "sha1"@[3] && "sha384"@[3] != "sha256"@[3]);
    assert("sha512"@[3] != "sha1"@[3] && "sha512"@[3] != "sha256"@[3] && "sha512"@[3] != "sha384"@[3]);
    assert("sha512_256"@.len() != "sha1"@.len() && "sha512_256"@.len() != "sha256"@.len());
    assert("sha512_256"@.len() != "sha384"@.len() && "sha512_256"@.len() != "sha512"@.len());
    assert(Seq::<char>::empty().len() != "aes-256-gcm"@.len());
}

/// The value of an override, or the default when there is none.
pub open spec fn or_default<T>(o: Option<T>, d: T) -> T {
    match o {
        Some(x) => x,
        None => d,
    }
}

/// The value of an override, or the default when there is none.
fn override_or<T: Copy>(o: Option<T>, d: T) -> (r: T)
    ensures
        r == or_default(o, d),
{
    match o {
        Some(x) => x,
        None => d,
    }
}

/// The cipher a configuration names; see `aead_named`.
fn aead_by_name(m: &String) -> (r: Option<AeadAlgorithm>)
    ensures
        r == aead_named(m@),
{
    if *m == "aes-256-gcm".to_owned() {
        Some(AeadAlgorithm::Aes256Gcm)
    } else if *m == "aes-128-gcm".to_owned() {
        Some(AeadAlgorithm::Aes128Gcm)
    } else if *m == "chacha20_poly1305".to_owned() {
        Some(AeadAlgorithm::Chacha20Poly1305)
    } else {
        None
    }
}

/// The digest a configuration names; see `digest_named`.
fn digest_by_name(d: &String) -> (r: Option<DigestAlgorithm>)
    ensures
        r == digest_named(d@),
{
    if *d == "sha1".to_owned() {
        Some(DigestAlgorithm::Sha1)
    } else if *d == "sha256".to_owned() {
        Some(DigestAlgorithm::Sha256)
    } else if *d == "sha384".to_owned() {
        Some(DigestAlgorithm::Sha384)
    } else if *d == "sha512".to_owned() {
        Some(DigestAlgorithm::Sha512)
    } else if *d == "sha512_256".to_owned() {
        Some(DigestAlgorithm::Sha512_256)
    } else {
        None
    }
}

impl CryptoConfig {
    /// Whether conversion succeeds without failing on the iteration count:
    /// both algorithms are known and the count is nonzero.
    pub fn is_convertible(&self) -> (b: bool)
        ensures
            b == (self.names_known_algorithms() && self.digest_iteration != 0),
    {
        aead_by_name(&self.crypto_method).is_some() && digest_by_name(&self.digest_method).is_some()
            && self.digest_iteration != 0
    }

    /// Whether `c` is what converting this configuration gives: key and salt
    /// as their UTF-8 bytes, the named algorithms, the same iteration count.
    pub open spec fn convert_spec(&self, c: _CryptoConfig) -> bool {
        &&& c.key@ == encode_utf8(self.key@)
        &&& c.salt@ == encode_utf8(self.salt@)
        &&& Some(c.crypto_method) == aead_named(self.crypto_method@)
        &&& Some(c.digest_method) == digest_named(self.digest_method@)
        &&& c.digest_iteration == self.digest_iteration
    }

    /// Whether both algorithms are known; then conversion needs a nonzero
    /// iteration count.
    pub open spec fn names_known_algorithms(&self) -> bool {
        aead_named(self.crypto_method@) is Some && digest_named(self.digest_method@) is Some
    }

    /// Resolves the names of the algorithms and turns key and salt into their
    /// UTF-8 bytes. An unknown cipher is reported before an unknown digest.
    pub fn convert(self) -> (r: Result<_CryptoConfig, &'static str>)
        requires
            self.names_known_algorithms() ==> self.digest_iteration != 0,
        ensures
            aead_named(self.crypto_method@) is None ==> (r matches Err(e) && e@
                == "unsupported crypto method"@),
            aead_named(self.crypto_method@) is Some && digest_named(self.digest_method@) is None
                ==> (r matches Err(e) && e@ == "unsupported digest method"@),
            self.names_known_algorithms() ==> (r matches Ok(c) && self.convert_spec(c)),
    {
        let crypto_method = match aead_by_name(&self.crypto_method) {
            Some(a) => a,
            None => return Err("unsupported crypto method"),
        };
        let digest_method = match digest_by_name(&self.digest_method) {
            Some(d) => d,
            None => return Err("unsupported digest method"),
        };
        let key = slice_to_vec(self.key.as_str().as_bytes());
        let salt = slice_to_vec(self.salt.as_str().as_bytes());
        Ok(_CryptoConfig {
            key,
            salt,
            crypto_method,
            digest_method,
            digest_iteration: self.digest_iteration,
        })
    }
}

impl Default for CryptoConfig {
    /// Key "12312", salt "2121", AES-256-GCM, SHA-256, one iteration.
    fn default() -> (c: Self)
        ensures
            c.key@ == "12312"@,
            c.salt@ == "2121"@,
            c.crypto_method@ == "aes-256-gcm"@,
            c.digest_method@ == "sha256"@,
            c.digest_iteration == 1,
    {
        CryptoConfig {
            key: "12312".to_owned(),
            salt: "2121".to_owned(),
            crypto_method: "aes-256-gcm".to_owned(),
            digest_method: "sha256".to_owned(),
            digest_iteration: 1,
        }
    }
}

impl Default for QuicConfig {
    /// No override at all.
    fn default() -> (c: Self)
        ensures
            c.stream_window_bidi is None,
            c.idle_timeout is None,
            c.stream_receive_window is None,
            c.receive_window is None,
            c.max_tlps is None,
            c.packet_threshold is None,
            c.time_threshold is None,
            c.delayed_ack_timeout is None,
            c.initial_rtt is None,
            c.max_datagram_size is None,
            c.initial_window is None,
            c.minimum_window is None,
            c.loss_reduction_factor is None,
            c.presistent_cognestion_threshold is None,
            c.local_cid_len is None,
    {
        QuicConfig {
            stream_window_bidi: None,
            idle_timeout: None,
            stream_receive_window: None,
            receive_window: None,
            max_tlps: None,
            packet_threshold: None,
            time_threshold: None,
            delayed_ack_timeout: None,
            initial_rtt: None,
            max_datagram_size: None,
            initial_window: None,
            minimum_window: None,
            loss_reduction_factor: None,
            presistent_cognestion_threshold: None,
            local_cid_len: None,
        }
    }
}

impl QuicConfig {
    /// The transport parameters: each override that is present replaces the
    /// value of `defaults`, every other value stays.
    pub fn to_quinn_config(&self, defaults: TransportConfig) -> (config: TransportConfig)
        ensures
            config.stream_window_bidi == or_default(self.stream_window_bidi, defaults.stream_window_bidi),
            config.idle_timeout == or_default(self.idle_timeout, defaults.idle_timeout),
            config.stream_receive_window == or_default(
                self.stream_receive_window,
                defaults.stream_receive_window,
            ),
            config.receive_window == or_default(self.receive_window, defaults.receive_window),
            config.max_tlps == or_default(self.max_tlps, defaults.max_tlps),
            config.packet_threshold == or_default(self.packet_threshold, defaults.packet_threshold),
            config.time_threshold == or_default(self.time_threshold, defaults.time_threshold),
            config.delayed_ack_timeout == or_default(
                self.delayed_ack_timeout,
                defaults.delayed_ack_timeout,
            ),
            config.initial_rtt == or_default(self.initial_rtt, defaults.initial_rtt),
            config.max_datagram_size == or_default(self.max_datagram_size, defaults.max_datagram_size),
            config.initial_window == or_default(self.initial_window, defaults.initial_window),
            config.minimum_window == or_default(self.minimum_window, defaults.minimum_window),
            config.loss_reduction_factor == or_default(
                self.loss_reduction_factor,
                defaults.loss_reduction_factor,
            ),
            config.persistent_congestion_threshold == or_default(
                self.presistent_cognestion_threshold,
                defaults.persistent_congestion_threshold,
            ),
    {
        TransportConfig {
            stream_window_bidi: override_or(self.stream_window_bidi, defaults.stream_window_bidi),
            idle_timeout: override_or(self.idle_timeout, defaults.idle_timeout),
            stream_receive_window: override_or(self.stream_receive_window, defaults.stream_receive_window),
            receive_window: override_or(self.receive_window, defaults.receive_window),
            max_tlps: override_or(self.max_tlps, defaults.max_tlps),
            packet_threshold: override_or(self.packet_threshold, defaults.packet_threshold),
            time_threshold: override_or(self.time_threshold, defaults.time_threshold),
            delayed_ack_timeout: override_or(self.delayed_ack_timeout, defaults.delayed_ack_timeout),
            initial_rtt: override_or(self.initial_rtt, defaults.initial_rtt),
            max_datagram_size: override_or(self.max_datagram_size, defaults.max_datagram_size),
            initial_window: override_or(self.initial_window, defaults.initial_window),
            minimum_window: override_or(self.minimum_window, defaults.minimum_window),
            loss_reduction_factor: override_or(self.loss_reduction_factor, defaults.loss_reduction_factor),
            persistent_congestion_threshold: override_or(self.presistent_cognestion_threshold, defaults.persistent_congestion_threshold),
        }
    }
}

/// QUIC settings that override nothing.
pub open spec fn no_overrides() -> QuicConfig {
    QuicConfig {
        stream_window_bidi: None,
        idle_timeout: None,
        stream_receive_window: None,
        receive_window: None,
        max_tlps: None,
        packet_threshold: None,
        time_threshold: None,
        delayed_ack_timeout: None,
        initial_rtt: None,
        max_datagram_size: None,
        initial_window: None,
        minimum_window: None,
        loss_reduction_factor: None,
        presistent_cognestion_threshold: None,
        local_cid_len: None,
    }
}

/// A count as JSON: its decimal number, or null when there is none.
pub open spec fn count_json(o: Option<nat>) -> JsonView {
    match o {
        Some(n) => JsonView::Number(nat_decimal(n)),
        None => JsonView::Null,
    }
}

/// An optional 64-bit count as a natural number.
pub open spec fn count64(o: Option<u64>) -> Option<nat> {
    match o {
        Some(n) => Some(n as nat),
        None => None,
    }
}

/// An optional 32-bit count as a natural number.
pub open spec fn count32(o: Option<u32>) -> Option<nat> {
    match o {
        Some(n) => Some(n as nat),
        None => None,
    }
}

/// An optional 16-bit count as a natural number.
pub open spec fn count16(o: Option<u16>) -> Option<nat> {
    match o {
        Some(n) => Some(n as nat),
        None => None,
    }
}

/// The JSON object of QUIC settings: one entry per field, named as the
/// field and in its order, holding its count or null.
pub open spec fn quic_json(q: QuicConfig) -> JsonView {
    JsonView::Object(
        seq![
            ("stream_window_bidi"@, count_json(count64(q.stream_window_bidi))),
            ("idle_timeout"@, count_json(count64(q.idle_timeout))),
            ("stream_receive_window"@, count_json(count64(q.stream_receive_window))),
            ("receive_window"@, count_json(count64(q.receive_window))),
            ("max_tlps"@, count_json(count32(q.max_tlps))),
            ("packet_threshold"@, count_json(count32(q.packet_threshold))),
            ("time_threshold"@, count_json(count16(q.time_threshold))),
            ("delayed_ack_timeout"@, count_json(count64(q.delayed_ack_timeout))),
            ("initial_rtt"@, count_json(count64(q.initial_rtt))),
            ("max_datagram_size"@, count_json(count64(q.max_datagram_size))),
            ("initial_window"@, count_json(count64(q.initial_window))),
            ("minimum_window"@, count_json(count64(q.minimum_window))),
            ("loss_reduction_factor"@, count_json(count16(q.loss_reduction_factor))),
            (
                "presistent_cognestion_threshold"@,
                count_json(count32(q.presistent_cognestion_threshold)),
            ),
            ("local_cid_len"@, count_json(count64(q.local_cid_len))),
        ],
    )
}

/// The JSON object of a cryptography configuration with these fields: the
/// four names as strings and the iteration count as a number, named and
/// ordered as the fields.
pub open spec fn crypto_json(
    key: Seq<char>,
    salt: Seq<char>,
    crypto_method: Seq<char>,
    digest_method: Seq<char>,
    digest_iteration: nat,
) -> JsonView {
    JsonView::Object(
        seq![
            ("key"@, JsonView::Str(key)),
            ("salt"@, JsonView::Str(salt)),
            ("crypto_method"@, JsonView::Str(crypto_method)),
            ("digest_method"@, JsonView::Str(digest_method)),
            ("digest_iteration"@, JsonView::Number(nat_decimal(digest_iteration))),
        ],
    )
}

/// A count as JSON; see `count_json`.
fn count_value(o: Option<u64>) -> (j: JsonValue)
    ensures
        j@ == count_json(count64(o)),
{
    match o {
        Some(n) => JsonValue::Number(decimal_string(n)),
        None => JsonValue::Null,
    }
}

/// A 32-bit count widened.
fn widen32(o: Option<u32>) -> (r: Option<u64>)
    ensures
        count64(r) == count32(o),
{
    match o {
        Some(n) => Some(n as u64),
        None => None,
    }
}

/// A 16-bit count widened.
fn widen16(o: Option<u16>) -> (r: Option<u64>)
    ensures
        count64(r) == count16(o),
{
    match o {
        Some(n) => Some(n as u64),
        None => None,
    }
}

impl QuicConfig {
    /// These settings as a JSON object; see `quic_json`.
    pub fn to_json(&self) -> (j: JsonValue)
        ensures
            j@ == quic_json(*self),
    {
        let mut e: Vec<(String, JsonValue)> = Vec::new();
        push_entry(&mut e, "stream_window_bidi".to_owned(), count_value(self.stream_window_bidi));
        push_entry(&mut e, "idle_timeout".to_owned(), count_value(self.idle_timeout));
        push_entry(&mut e, "stream_receive_window".to_owned(), count_value(self.stream_receive_window));
        push_entry(&mut e, "receive_window".to_owned(), count_value(self.receive_window));
        push_entry(&mut e, "max_tlps".to_owned(), count_value(widen32(self.max_tlps)));
        push_entry(&mut e, "packet_threshold".to_owned(), count_value(widen32(self.packet_threshold)));
        push_entry(&mut e, "time_threshold".to_owned(), count_value(widen16(self.time_threshold)));
        push_entry(&mut e, "delayed_ack_timeout".to_owned(), count_value(self.delayed_ack_timeout));
        push_entry(&mut e, "initial_rtt".to_owned(), count_value(self.initial_rtt));
        push_entry(&mut e, "max_datagram_size".to_owned(), count_value(self.max_datagram_size));
        push_entry(&mut e, "initial_window".to_owned(), count_value(self.initial_window));
        push_entry(&mut e, "minimum_window".to_owned(), count_value(self.minimum_window));
        push_entry(
            &mut e,
            "loss_reduction_factor".to_owned(),
            count_value(widen16(self.loss_reduction_factor)),
        );
        push_entry(
            &mut e,
            "presistent_cognestion_threshold".to_owned(),
            count_value(widen32(self.presistent_cognestion_threshold)),
        );
        push_entry(&mut e, "local_cid_len".to_owned(), count_value(self.local_cid_len));
        proof {
            if let JsonView::Object(y) = quic_json(*self) {
                assert(entries_view(e@) =~= y);
            }
        }
        object(e)
    }
}

impl CryptoConfig {
    /// This configuration as a JSON object; see `crypto_json`.
    pub fn to_json(&self) -> (j: JsonValue)
        ensures
            j@ == crypto_json(
                self.key@,
                self.salt@,
                self.crypto_method@,
                self.digest_method@,
                self.digest_iteration as nat,
            ),
    {
        let mut e: Vec<(String, JsonValue)> = Vec::new();
        push_entry(&mut e, "key".to_owned(), JsonValue::Str(self.key.clone()));
        push_entry(&mut e, "salt".to_owned(), JsonValue::Str(self.salt.clone()));
        push_entry(&mut e, "crypto_method".to_owned(), JsonValue::Str(self.crypto_method.clone()));
        push_entry(&mut e, "digest_method".to_owned(), JsonValue::Str(self.digest_method.clone()));
        push_entry(
            &mut e,
            "digest_iteration".to_owned(),
            JsonValue::Number(decimal_string(self.digest_iteration as u64)),
        );
        proof {
            let expected = crypto_json(
                self.key@,
                self.salt@,
                self.crypto_method@,
                self.digest_method@,
                self.digest_iteration as nat,
            );
            if let JsonView::Object(y) = expected {
                assert(entries_view(e@) =~= y);
            }
        }
        object(e)
    }
}

} // verus!
