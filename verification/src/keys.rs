//! Key material, constructed once at process start and passed by reference
//! to every component that signs or verifies.
//!
//! The issuer holds the Ed25519 private key document and the symmetric
//! key and nonce for the opaque-segment cipher; a verifier holds the
//! public key and the same symmetric material. Nothing here is hardcoded:
//! callers supply every byte.

use vstd::prelude::*;

use crate::crypto;

verus! {

/// Key material of the token issuer: the PKCS#8 document of the Ed25519
/// key pair, and the 32-byte key and 12-byte nonce of the opaque-segment
/// cipher.
pub struct IssuerKey {
    pub pkcs8: Vec<u8>,
    pub cipher_key: Vec<u8>,
    pub nonce: Vec<u8>,
}

/// Key material of a token verifier: the 32-byte Ed25519 public key, and
/// the symmetric key and nonce shared with the issuer.
pub struct VerifierKey {
    pub public_key: Vec<u8>,
    pub cipher_key: Vec<u8>,
    pub nonce: Vec<u8>,
}

impl IssuerKey {
    /// The key material is usable: the document holds an Ed25519 key pair
    /// and the symmetric material has the sizes ChaCha20 takes.
    pub open spec fn wf(&self) -> bool {
        &&& crypto::is_signing_key(self.pkcs8@)
        &&& self.cipher_key@.len() == 32
        &&& self.nonce@.len() == 12
    }

    /// Builds issuer key material, rejecting a private-key document that
    /// ring does not accept, a symmetric key that is not 32 bytes, or a
    /// nonce that is not 12 bytes.
    pub fn new(pkcs8: Vec<u8>, cipher_key: Vec<u8>, nonce: Vec<u8>) -> (r: Option<IssuerKey>)
        ensures
            r matches Some(k) ==> k.wf() && k.pkcs8@ == pkcs8@ && k.cipher_key@ == cipher_key@
                && k.nonce@ == nonce@,
            r is Some <==> crypto::is_signing_key(pkcs8@) && cipher_key@.len() == 32
                && nonce@.len() == 12,
    {
        if cipher_key.len() != 32 || nonce.len() != 12 {
            return None;
        }
        if !crypto::signing_key_ok(pkcs8.as_slice()) {
            return None;
        }
        Some(IssuerKey { pkcs8, cipher_key, nonce })
    }

    /// Fresh issuer key material: a newly generated signing key together
    /// with the given symmetric material.
    pub fn generate(cipher_key: Vec<u8>, nonce: Vec<u8>) -> (r: Option<IssuerKey>)
        ensures
            r matches Some(k) ==> k.wf() && k.cipher_key@ == cipher_key@ && k.nonce@ == nonce@,
            cipher_key@.len() != 32 || nonce@.len() != 12 ==> r is None,
    {
        if cipher_key.len() != 32 || nonce.len() != 12 {
            return None;
        }
        match crypto::generate_signing_key() {
            Some(pkcs8) => Some(IssuerKey { pkcs8, cipher_key, nonce }),
            None => None,
        }
    }

    /// The verifier-side counterpart: the pair's public key with the same
    /// symmetric material.
    pub fn verifier_key(&self) -> (r: VerifierKey)
        requires
            self.wf(),
        ensures
            r.wf(),
            r.public_key@ == crypto::public_key_of(self.pkcs8@),
            r.cipher_key@ == self.cipher_key@,
            r.nonce@ == self.nonce@,
    {
        let public_key = crypto::public_key_bytes(self.pkcs8.as_slice());
        VerifierKey {
            public_key,
            cipher_key: clone_bytes(self.cipher_key.as_slice()),
            nonce: clone_bytes(self.nonce.as_slice()),
        }
    }
}

impl VerifierKey {
    /// The symmetric material has the sizes ChaCha20 takes.
    pub open spec fn wf(&self) -> bool {
        &&& self.cipher_key@.len() == 32
        &&& self.nonce@.len() == 12
    }

    /// Builds verifier key material, rejecting a symmetric key that is not
    /// 32 bytes or a nonce that is not 12 bytes.
    pub fn new(public_key: Vec<u8>, cipher_key: Vec<u8>, nonce: Vec<u8>) -> (r: Option<VerifierKey>)
        ensures
            r matches Some(k) ==> k.wf() && k.public_key@ == public_key@
                && k.cipher_key@ == cipher_key@ && k.nonce@ == nonce@,
            r is Some <==> cipher_key@.len() == 32 && nonce@.len() == 12,
    {
        if cipher_key.len() != 32 || nonce.len() != 12 {
            return None;
        }
        Some(VerifierKey { public_key, cipher_key, nonce })
    }
}

/// A byte-for-byte copy of a slice.
pub fn clone_bytes(bytes: &[u8]) -> (r: Vec<u8>)
    ensures
        r@ == bytes@,
{
    let mut out: Vec<u8> = Vec::new();
    let mut i: usize = 0;
    while i < bytes.len()
        invariant
            i <= bytes@.len(),
            out@ == bytes@.subrange(0, i as int),
        decreases bytes@.len() - i,
    {
        out.push(bytes[i]);
        i = i + 1;
        proof {
            assert(bytes@.subrange(0, i as int) =~= bytes@.subrange(0, i - 1)
                + seq![bytes@[i - 1]]);
        }
    }
    proof {
        assert(bytes@.subrange(0, bytes@.len() as int) =~= bytes@);
    }
    out
}

} // verus!
