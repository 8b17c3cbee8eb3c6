//! Crypto primitives adapter: Ed25519 signing and verification, and the
//! ChaCha20 keystream cipher used on the opaque segment of a token.
//!
//! Each function here wraps one operation of an outside crate. What the
//! operations return is named by uninterpreted spec functions: the crate's
//! own proofs rely only on the contracts stated here.

use vstd::prelude::*;

use chacha20::cipher::{KeyIvInit, StreamCipher};
use ring::signature::KeyPair;

verus! {

/// Whether a byte string is a PKCS#8 v2 document holding an Ed25519 key
/// pair, as `ring::signature::Ed25519KeyPair::from_pkcs8` accepts it.
pub uninterp spec fn is_signing_key(pkcs8: Seq<u8>) -> bool;

/// The 32-byte public key of the Ed25519 key pair held by a PKCS#8 document.
pub uninterp spec fn public_key_of(pkcs8: Seq<u8>) -> Seq<u8>;

/// The Ed25519 signature over `msg` by the key pair held by `pkcs8`.
/// Ed25519 signing is deterministic, so the signature is a function of the
/// key and the message alone.
pub uninterp spec fn signature_of(pkcs8: Seq<u8>, msg: Seq<u8>) -> Seq<u8>;

/// Whether Ed25519 verification of `sig` over `msg` accepts under the
/// public key `public_key`.
pub uninterp spec fn ed25519_verifies(public_key: Seq<u8>, msg: Seq<u8>, sig: Seq<u8>) -> bool;

/// Byte `i` of the ChaCha20 keystream for a 32-byte key and 12-byte nonce.
pub uninterp spec fn keystream_byte(key: Seq<u8>, nonce: Seq<u8>, i: int) -> u8;

/// `data` XORed byte for byte with the ChaCha20 keystream of `key` and
/// `nonce`. Applying it twice restores `data`: see
/// [`lemma_xor_keystream_self_inverse`].
pub open spec fn xor_keystream(key: Seq<u8>, nonce: Seq<u8>, data: Seq<u8>) -> Seq<u8> {
    Seq::new(data.len(), |i: int| data[i] ^ keystream_byte(key, nonce, i))
}

/// The keystream cipher is self-inverse: XORing with the same keystream
/// twice gives the original bytes back.
pub proof fn lemma_xor_keystream_self_inverse(key: Seq<u8>, nonce: Seq<u8>, data: Seq<u8>)
    ensures
        xor_keystream(key, nonce, xor_keystream(key, nonce, data)) == data,
{
    let once = xor_keystream(key, nonce, data);
    let twice = xor_keystream(key, nonce, once);
    assert forall|i: int| 0 <= i < data.len() implies twice[i] == data[i] by {
        let d = data[i];
        let k = keystream_byte(key, nonce, i);
        assert((d ^ k) ^ k == d) by (bit_vector);
    }
    assert(twice =~= data);
}

/// Relies on `ring::signature::Ed25519KeyPair::from_pkcs8`: it accepts a
/// byte string exactly when it is a PKCS#8 v2 document holding an Ed25519
/// key pair.
#[verifier::external_body]
pub(crate) fn signing_key_ok(pkcs8: &[u8]) -> (r: bool)
    ensures
        r <==> is_signing_key(pkcs8@),
{
    ring::signature::Ed25519KeyPair::from_pkcs8(pkcs8).is_ok()
}

/// Relies on `ring::signature::Ed25519KeyPair::generate_pkcs8`: on success
/// it returns a PKCS#8 v2 document holding a freshly generated Ed25519 key
/// pair. The key depends on the system's randomness, so nothing more is
/// stated of its value.
#[verifier::external_body]
pub fn generate_signing_key() -> (r: Option<Vec<u8>>)
    ensures
        r matches Some(k) ==> is_signing_key(k@),
{
    let rng = ring::rand::SystemRandom::new();
    let doc = ring::signature::Ed25519KeyPair::generate_pkcs8(&rng).ok()?;
    Some(doc.as_ref().to_vec())
}

/// Relies on `ring::signature::Ed25519KeyPair::public_key`: the public half
/// of the key pair held by the document, 32 bytes for Ed25519.
#[verifier::external_body]
pub(crate) fn public_key_bytes(pkcs8: &[u8]) -> (r: Vec<u8>)
    requires
        is_signing_key(pkcs8@),
    ensures
        r@ == public_key_of(pkcs8@),
        r@.len() == 32,
{
    let key_pair = ring::signature::Ed25519KeyPair::from_pkcs8(pkcs8).unwrap();
    key_pair.public_key().as_ref().to_vec()
}

/// Relies on `ring::signature::Ed25519KeyPair::sign`: a deterministic
/// 64-byte Ed25519 signature (RFC 8032) over `msg`, which verification
/// under the pair's public key accepts.
#[verifier::external_body]
pub(crate) fn sign(pkcs8: &[u8], msg: &[u8]) -> (r: Vec<u8>)
    requires
        is_signing_key(pkcs8@),
    ensures
        r@ == signature_of(pkcs8@, msg@),
        r@.len() == 64,
        ed25519_verifies(public_key_of(pkcs8@), msg@, r@),
{
    let key_pair = ring::signature::Ed25519KeyPair::from_pkcs8(pkcs8).unwrap();
    key_pair.sign(msg).as_ref().to_vec()
}

/// Relies on `ring::signature::UnparsedPublicKey::verify` with the
/// `ED25519` algorithm: constant-time Ed25519 verification of `sig` over
/// `msg`, a deterministic function of its three arguments.
#[verifier::external_body]
pub(crate) fn verify(public_key: &[u8], msg: &[u8], sig: &[u8]) -> (r: bool)
    ensures
        r <==> ed25519_verifies(public_key@, msg@, sig@),
{
    let key = ring::signature::UnparsedPublicKey::new(&ring::signature::ED25519, public_key);
    key.verify(msg, sig).is_ok()
}

/// Relies on `chacha20::ChaCha20` with `cipher::StreamCipher::
/// apply_keystream`: a fresh cipher for `key` and `nonce` XORs the buffer
/// byte for byte with the keystream, leaving its length unchanged. The
/// cipher's 32-bit block counter covers 2^38 bytes of keystream; the
/// length bound keeps the call inside it, so it cannot panic.
#[verifier::external_body]
pub(crate) fn apply_keystream(key: &[u8], nonce: &[u8], data: &[u8]) -> (r: Vec<u8>)
    requires
        key@.len() == 32,
        nonce@.len() == 12,
        data@.len() < 0x4000000000,
    ensures
        r@ == xor_keystream(key@, nonce@, data@),
        r@.len() == data@.len(),
        forall|i: int|
            0 <= i < data@.len() ==> r@[i] == (data@[i] ^ keystream_byte(key@, nonce@, i)),
{
    let mut cipher = chacha20::ChaCha20::new_from_slices(key, nonce).unwrap();
    let mut buf = data.to_vec();
    cipher.apply_keystream(&mut buf);
    buf
}

} // verus!
