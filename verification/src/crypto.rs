//! The cryptography of the tunnel from `ring`: PBKDF2, the SHA-512/256
//! digest, authenticated encryption and random bytes.
use ring::aead;
use ring::pbkdf2;
use ring::rand::SecureRandom;
use vstd::prelude::*;

verus! {

/// The AEAD ciphers a tunnel may use.
#[derive(Debug, Clone, Copy, PartialEq, Eq, Structural)]
pub enum AeadAlgorithm {
    Aes256Gcm,
    Aes128Gcm,
    Chacha20Poly1305,
}

/// The digests that key derivation may use.
#[allow(non_camel_case_types)]
#[derive(Debug, Clone, Copy, PartialEq, Eq, Structural)]
pub enum DigestAlgorithm {
    Sha1,
    Sha256,
    Sha384,
    Sha512,
    Sha512_256,
}

/// The digests whose PBKDF2 `ring` provides.
#[derive(Debug, Clone, Copy, PartialEq, Eq, Structural)]
pub enum Pbkdf2Digest {
    Sha1,
    Sha256,
    Sha384,
    Sha512,
}

/// The length of the keys of a cipher.
pub open spec fn aead_key_len(alg: AeadAlgorithm) -> nat {
    match alg {
        AeadAlgorithm::Aes128Gcm => 16,
        _ => 32,
    }
}

/// The length of the tag every cipher appends.
pub const TAG_LEN: usize = 16;

/// The length of a derived key.
pub const KEY_LEN: usize = 32;

/// The key that PBKDF2 derives, as `ring::pbkdf2::derive` computes it into a
/// 32-byte buffer.
pub uninterp spec fn pbkdf2_key(
    digest: Pbkdf2Digest,
    iterations: u32,
    salt: Seq<u8>,
    secret: Seq<u8>,
) -> Seq<u8>;

/// The ciphertext followed by the tag that sealing `plaintext` gives.
pub uninterp spec fn aead_sealed(
    alg: AeadAlgorithm,
    key: Seq<u8>,
    nonce: Seq<u8>,
    aad: Seq<u8>,
    plaintext: Seq<u8>,
) -> Seq<u8>;

/// The plaintext that opening `sealed` gives, if it authenticates.
pub uninterp spec fn aead_opened(
    alg: AeadAlgorithm,
    key: Seq<u8>,
    nonce: Seq<u8>,
    aad: Seq<u8>,
    sealed: Seq<u8>,
) -> Option<Seq<u8>>;

/// `ring::pbkdf2::derive` with the HMAC of `digest`, into a 32-byte key.
/// The contract claims only that the key is the derived key of these
/// arguments; the guard keeps the inputs far below the digest's input limit,
/// past which ring panics.
#[verifier::external_body]
pub(crate) fn pbkdf2_derive(
    digest: Pbkdf2Digest,
    iterations: u32,
    salt: &[u8],
    secret: &[u8],
) -> (key: [u8; 32])
    requires
        iterations > 0,
        salt@.len() < 0x1000_0000_0000_0000,
        secret@.len() < 0x1000_0000_0000_0000,
    ensures
        key@ == pbkdf2_key(digest, iterations, salt@, secret@),
{
    let d = match digest {
        Pbkdf2Digest::Sha1 => pbkdf2::PBKDF2_HMAC_SHA1,
        Pbkdf2Digest::Sha256 => pbkdf2::PBKDF2_HMAC_SHA256,
        Pbkdf2Digest::Sha384 => pbkdf2::PBKDF2_HMAC_SHA384,
        Pbkdf2Digest::Sha512 => pbkdf2::PBKDF2_HMAC_SHA512,
    };
    let mut out = [0u8; 32];
    pbkdf2::derive(d, core::num::NonZeroU32::new(iterations).unwrap(), salt, secret, &mut out);
    out
}

/// The SHA-512/256 digest of `data`.
pub uninterp spec fn sha512_256(data: Seq<u8>) -> Seq<u8>;

/// `ring::digest::digest` with `SHA512_256`. The contract claims that the
/// 32 bytes are the digest of `data`; the guard keeps the input's length in
/// bits within 64 bits, past which ring panics.
#[verifier::external_body]
pub(crate) fn sha512_256_digest(data: &[u8]) -> (d: [u8; 32])
    requires
        data@.len() < 0x2000_0000_0000_0000,
    ensures
        d@ == sha512_256(data@),
{
    let mut out = [0u8; 32];
    out.copy_from_slice(ring::digest::digest(&ring::digest::SHA512_256, data).as_ref());
    out
}

/// `ring::aead::Algorithm::tag_len`: every cipher of ring appends a 16-byte
/// tag.
#[verifier::external_body]
pub(crate) fn aead_tag_len(alg: AeadAlgorithm) -> (n: usize)
    ensures
        n == TAG_LEN,
{
    match alg {
        AeadAlgorithm::Aes256Gcm => aead::AES_256_GCM.tag_len(),
        AeadAlgorithm::Aes128Gcm => aead::AES_128_GCM.tag_len(),
        AeadAlgorithm::Chacha20Poly1305 => aead::CHACHA20_POLY1305.tag_len(),
    }
}

/// `ring::aead::LessSafeKey::seal_in_place_append_tag` with a key made from
/// `key`. The contract claims: the output is the sealing of these arguments,
/// 16 bytes longer than the plaintext, and opening it with the same key,
/// nonce and additional data gives the plaintext back; sealing succeeds
/// whenever the key fits the cipher (32 bytes: every cipher but AES-128-GCM)
/// and the plaintext is within 2^32 - 1 bytes, which is below the limits ring
/// checks.
#[verifier::external_body]
pub(crate) fn aead_seal(
    alg: AeadAlgorithm,
    key: &[u8; 32],
    nonce: &[u8; 12],
    aad: &[u8],
    plaintext: &[u8],
) -> (sealed: Option<Vec<u8>>)
    ensures
        alg != AeadAlgorithm::Aes128Gcm && plaintext@.len() <= 0xffff_ffff ==> sealed is Some,
        sealed matches Some(c) ==> c@ == aead_sealed(alg, key@, nonce@, aad@, plaintext@),
        sealed matches Some(c) ==> c@.len() == plaintext@.len() + TAG_LEN,
        sealed matches Some(c) ==> aead_opened(alg, key@, nonce@, aad@, c@) == Some(plaintext@),
{
    let a = match alg {
        AeadAlgorithm::Aes256Gcm => &aead::AES_256_GCM,
        AeadAlgorithm::Aes128Gcm => &aead::AES_128_GCM,
        AeadAlgorithm::Chacha20Poly1305 => &aead::CHACHA20_POLY1305,
    };
    let key = aead::LessSafeKey::new(aead::UnboundKey::new(a, key).ok()?);
    let mut buf = plaintext.to_vec();
    let n = aead::Nonce::assume_unique_for_key(*nonce);
    key.seal_in_place_append_tag(n, aead::Aad::from(aad), &mut buf).ok()?;
    Some(buf)
}

/// `ring::aead::LessSafeKey::open_in_place` with a key made from `key`. The
/// contract claims: the output is the opening of these arguments, and a
/// plaintext is 16 bytes shorter than what was opened.
#[verifier::external_body]
pub(crate) fn aead_open(
    alg: AeadAlgorithm,
    key: &[u8; 32],
    nonce: &[u8; 12],
    aad: &[u8],
    sealed: &[u8],
) -> (opened: Option<Vec<u8>>)
    ensures
        opened is Some == aead_opened(alg, key@, nonce@, aad@, sealed@) is Some,
        opened matches Some(p) ==> aead_opened(alg, key@, nonce@, aad@, sealed@) == Some(p@),
        opened matches Some(p) ==> p@.len() + TAG_LEN == sealed@.len(),
{
    let a = match alg {
        AeadAlgorithm::Aes256Gcm => &aead::AES_256_GCM,
        AeadAlgorithm::Aes128Gcm => &aead::AES_128_GCM,
        AeadAlgorithm::Chacha20Poly1305 => &aead::CHACHA20_POLY1305,
    };
    let key = aead::LessSafeKey::new(aead::UnboundKey::new(a, key).ok()?);
    let mut buf = sealed.to_vec();
    let n = aead::Nonce::assume_unique_for_key(*nonce);
    let len = key.open_in_place(n, aead::Aad::from(aad), &mut buf).ok()?.len();
    buf.truncate(len);
    Some(buf)
}

/// `ring::rand::SystemRandom::fill`: four bytes from the operating system's
/// generator, or nothing when the generator fails. Nothing is claimed of the
/// bytes: they are random.
#[verifier::external_body]
pub(crate) fn random_bytes() -> (r: Option<[u8; 4]>)
{
    let mut r = [0u8; 4];
    ring::rand::SystemRandom::new().fill(&mut r).ok()?;
    Some(r)
}

} // verus!
