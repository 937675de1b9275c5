//! Deriving the tunnel's key from a configuration: PBKDF2 from `ring` for the
//! digests it offers it for, and PBKDF2 over HMAC-SHA-512/256 (RFC 8018 over
//! RFC 2104) built here on `ring`'s SHA-512/256 digest.
use vstd::prelude::*;
use crate::crypto::{
    pbkdf2_derive, pbkdf2_key, sha512_256, sha512_256_digest, DigestAlgorithm, Pbkdf2Digest,
};
use crate::wire::{be32, write_u32};
use crate::opt::digest_named;

verus! {

/// The block length of SHA-512/256, in bytes.
pub const SHA512_256_BLOCK_LEN: usize = 128;

/// Every byte of `s` combined with `b` by exclusive or.
pub open spec fn xor_each(s: Seq<u8>, b: u8) -> Seq<u8> {
    Seq::new(s.len(), |i: int| s[i] ^ b)
}

/// The bytes of `a` and `b` combined pairwise by exclusive or.
pub open spec fn xor_seqs(a: Seq<u8>, b: Seq<u8>) -> Seq<u8> {
    Seq::new(a.len(), |i: int| a[i] ^ b[i])
}

/// The HMAC key block: a key longer than a block is replaced by its digest,
/// and the key is padded with zeros to a block.
pub open spec fn hmac_key_block(key: Seq<u8>) -> Seq<u8> {
    let k = if key.len() > 128 { sha512_256(key) } else { key };
    k + Seq::new((128 - k.len()) as nat, |i: int| 0u8)
}

/// HMAC-SHA-512/256 of `msg` under `key`.
pub open spec fn hmac_sha512_256(key: Seq<u8>, msg: Seq<u8>) -> Seq<u8> {
    let k = hmac_key_block(key);
    sha512_256(xor_each(k, 0x5c) + sha512_256(xor_each(k, 0x36) + msg))
}

/// The `j`-th chained HMAC of the first PBKDF2 block (`j` from 1).
pub open spec fn pbkdf2_u(secret: Seq<u8>, salt: Seq<u8>, j: nat) -> Seq<u8>
    decreases j,
{
    if j <= 1 {
        hmac_sha512_256(secret, salt + be32(1))
    } else {
        hmac_sha512_256(secret, pbkdf2_u(secret, salt, (j - 1) as nat))
    }
}

/// The first PBKDF2 block after `c` iterations: the exclusive or of the
/// first `c` chained HMACs.
pub open spec fn pbkdf2_block(secret: Seq<u8>, salt: Seq<u8>, c: nat) -> Seq<u8>
    decreases c,
{
    if c <= 1 {
        pbkdf2_u(secret, salt, 1)
    } else {
        xor_seqs(pbkdf2_block(secret, salt, (c - 1) as nat), pbkdf2_u(secret, salt, c))
    }
}

/// Each digest a configuration names keys the tunnel by PBKDF2 whose PRF
/// is the HMAC of that same digest: "sha1", "sha256", "sha384" and "sha512"
/// give `ring`'s PBKDF2 with SHA-1, SHA-256, SHA-384 and SHA-512, and
/// "sha512_256" gives PBKDF2 (RFC 8018) over HMAC-SHA-512/256: one iteration
/// is the HMAC of the salt followed by the block index 1, and each further
/// iteration combines by exclusive or the HMAC of the previous one.
pub proof fn lemma_key_uses_named_digest(iterations: u32, salt: Seq<u8>, secret: Seq<u8>)
    ensures
        digest_named("sha1"@) matches Some(d) && derived_key(d, iterations, salt, secret)
            == pbkdf2_key(Pbkdf2Digest::Sha1, iterations, salt, secret),
        digest_named("sha256"@) matches Some(d) && derived_key(d, iterations, salt, secret)
            == pbkdf2_key(Pbkdf2Digest::Sha256, iterations, salt, secret),
        digest_named("sha384"@) matches Some(d) && derived_key(d, iterations, salt, secret)
            == pbkdf2_key(Pbkdf2Digest::Sha384, iterations, salt, secret),
        digest_named("sha512"@) matches Some(d) && derived_key(d, iterations, salt, secret)
            == pbkdf2_key(Pbkdf2Digest::Sha512, iterations, salt, secret),
        digest_named("sha512_256"@) matches Some(d) && (iterations == 1 ==> derived_key(
            d,
            iterations,
            salt,
            secret,
        ) == hmac_sha512_256(secret, salt + seq![0u8, 0u8, 0u8, 1u8])),
        iterations >= 1 && iterations < u32::MAX ==> derived_key(
            DigestAlgorithm::Sha512_256,
            (iterations + 1) as u32,
            salt,
            secret,
        ) == xor_seqs(
            derived_key(DigestAlgorithm::Sha512_256, iterations, salt, secret),
            hmac_sha512_256(secret, pbkdf2_u(secret, salt, iterations as nat)),
        ),
{
    reveal_strlit("sha1");
    reveal_strlit("sha256");
    reveal_strlit("sha384");
    reveal_strlit("sha512");
    reveal_strlit("sha512_256");
    assert("sha256"@[3] != "sha1"@[3]);
    assert("sha384"@[3] != "sha1"@[3] && "sha384"@[3] != "sha256"@[3]);
    assert("sha512_256"@.len() != "sha1"@.len() && "sha512_256"@.len() != "sha256"@.len());
    assert("sha512_256"@.len() != "sha384"@.len() && "sha512_256"@.len() != "sha512"@.len());
    assert(digest_named("sha512_256"@) == Some(DigestAlgorithm::Sha512_256));
    assert(be32(1) =~= seq![0u8, 0u8, 0u8, 1u8]) by {
        assert((1u32 >> 24u32) as u8 == 0 && ((1u32 >> 16u32) & 0xffu32) as u8 == 0 && ((1u32
            >> 8u32) & 0xffu32) as u8 == 0 && (1u32 & 0xffu32) as u8 == 1) by (bit_vector);
    }
}

/// The 32-byte key PBKDF2-HMAC-SHA-512/256 derives: one block, as long as
/// the digest.
pub open spec fn pbkdf2_sha512_256(iterations: u32, salt: Seq<u8>, secret: Seq<u8>) -> Seq<u8> {
    pbkdf2_block(secret, salt, iterations as nat)
}

/// The key a configuration's digest, iteration count, salt and secret give.
pub open spec fn derived_key(
    digest: DigestAlgorithm,
    iterations: u32,
    salt: Seq<u8>,
    secret: Seq<u8>,
) -> Seq<u8> {
    match digest {
        DigestAlgorithm::Sha1 => pbkdf2_key(Pbkdf2Digest::Sha1, iterations, salt, secret),
        DigestAlgorithm::Sha256 => pbkdf2_key(Pbkdf2Digest::Sha256, iterations, salt, secret),
        DigestAlgorithm::Sha384 => pbkdf2_key(Pbkdf2Digest::Sha384, iterations, salt, secret),
        DigestAlgorithm::Sha512 => pbkdf2_key(Pbkdf2Digest::Sha512, iterations, salt, secret),
        DigestAlgorithm::Sha512_256 => pbkdf2_sha512_256(iterations, salt, secret),
    }
}

/// The HMAC key block of `key`; see `hmac_key_block`.
fn hmac_key_pad(key: &[u8]) -> (k: Vec<u8>)
    requires
        key@.len() < 0x2000_0000_0000_0000,
    ensures
        k@ == hmac_key_block(key@),
        k@.len() == 128,
{
    let mut k: Vec<u8> = if key.len() > SHA512_256_BLOCK_LEN {
        let d = sha512_256_digest(key);
        let v = vstd::slice::slice_to_vec(d.as_slice());
        v
    } else {
        vstd::slice::slice_to_vec(key)
    };
    let ghost start = k@;
    while k.len() < SHA512_256_BLOCK_LEN
        invariant
            start.len() <= k@.len() <= 128,
            k@.subrange(0, start.len() as int) == start,
            forall|i: int| start.len() <= i < k@.len() ==> k@[i] == 0u8,
        decreases 128 - k@.len(),
    {
        k.push(0u8);
    }
    assert(k@ =~= hmac_key_block(key@));
    k
}

/// `k` with every byte combined with `b`.
fn xor_block(k: &Vec<u8>, b: u8) -> (r: Vec<u8>)
    ensures
        r@ == xor_each(k@, b),
{
    let mut r: Vec<u8> = Vec::new();
    let mut i: usize = 0;
    while i < k.len()
        invariant
            i <= k@.len(),
            r@.len() == i,
            forall|j: int| 0 <= j < i ==> r@[j] == k@[j] ^ b,
        decreases k@.len() - i,
    {
        r.push(k[i] ^ b);
        i = i + 1;
    }
    assert(r@ =~= xor_each(k@, b));
    r
}

/// HMAC-SHA-512/256 of `msg` under the key whose key block is `k`.
fn hmac_with_block(k: &Vec<u8>, key: Ghost<Seq<u8>>, msg: &[u8]) -> (d: [u8; 32])
    requires
        k@ == hmac_key_block(key@),
        k@.len() == 128,
        msg@.len() < 0x1800_0000_0000_0000,
    ensures
        d@ == hmac_sha512_256(key@, msg@),
{
    let mut inner = xor_block(k, 0x36);
    let ghost inner_pad = inner@;
    inner.extend_from_slice(msg);
    assert(inner@ =~= inner_pad + msg@);
    let h = sha512_256_digest(inner.as_slice());
    let mut outer = xor_block(k, 0x5c);
    let ghost outer_pad = outer@;
    outer.extend_from_slice(h.as_slice());
    assert(outer@ =~= outer_pad + h@);
    sha512_256_digest(outer.as_slice())
}

/// `a` and `b` combined pairwise by exclusive or.
fn xor32(a: [u8; 32], b: &[u8; 32]) -> (r: [u8; 32])
    ensures
        r@ == xor_seqs(a@, b@),
{
    let mut r = a;
    let mut i: usize = 0;
    while i < 32
        invariant
            i <= 32,
            forall|k: int| 0 <= k < i ==> r@[k] == a@[k] ^ b@[k],
            forall|k: int| i <= k < 32 ==> r@[k] == a@[k],
        decreases 32 - i,
    {
        r[i] = r[i] ^ b[i];
        i = i + 1;
    }
    assert(r@ =~= xor_seqs(a@, b@));
    r
}

/// PBKDF2-HMAC-SHA-512/256 of `secret` and `salt`, into a 32-byte key.
pub fn pbkdf2_hmac_sha512_256(iterations: u32, salt: &[u8], secret: &[u8]) -> (key: [u8; 32])
    requires
        iterations > 0,
        salt@.len() < 0x1000_0000_0000_0000,
        secret@.len() < 0x1000_0000_0000_0000,
    ensures
        key@ == pbkdf2_sha512_256(iterations, salt@, secret@),
{
    let k = hmac_key_pad(secret);
    let mut first = vstd::slice::slice_to_vec(salt);
    let index = write_u32(1);
    first.extend_from_slice(index.as_slice());
    assert(first@ =~= salt@ + be32(1));
    let mut u = hmac_with_block(&k, Ghost(secret@), first.as_slice());
    let mut t = u;
    let mut j: u32 = 1;
    while j < iterations
        invariant
            1 <= j <= iterations,
            k@ == hmac_key_block(secret@),
            k@.len() == 128,
            u@ == pbkdf2_u(secret@, salt@, j as nat),
            t@ == pbkdf2_block(secret@, salt@, j as nat),
        decreases iterations - j,
    {
        u = hmac_with_block(&k, Ghost(secret@), u.as_slice());
        j = j + 1;
        t = xor32(t, &u);
    }
    t
}

/// The key of a configuration: PBKDF2 with its digest, iteration count,
/// salt and secret; see `derived_key`.
pub fn derive_key(digest: DigestAlgorithm, iterations: u32, salt: &[u8], secret: &[u8]) -> (key: [u8; 32])
    requires
        iterations > 0,
        salt@.len() < 0x1000_0000_0000_0000,
        secret@.len() < 0x1000_0000_0000_0000,
    ensures
        key@ == derived_key(digest, iterations, salt@, secret@),
{
    match digest {
        DigestAlgorithm::Sha1 => pbkdf2_derive(Pbkdf2Digest::Sha1, iterations, salt, secret),
        DigestAlgorithm::Sha256 => pbkdf2_derive(Pbkdf2Digest::Sha256, iterations, salt, secret),
        DigestAlgorithm::Sha384 => pbkdf2_derive(Pbkdf2Digest::Sha384, iterations, salt, secret),
        DigestAlgorithm::Sha512 => pbkdf2_derive(Pbkdf2Digest::Sha512, iterations, salt, secret),
        DigestAlgorithm::Sha512_256 => pbkdf2_hmac_sha512_256(iterations, salt, secret),
    }
}

} // verus!
