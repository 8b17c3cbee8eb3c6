//! The token codec: the length-prefixed wire format, the
//! sign-after-encrypt composition, and the decode-time validation
//! pipeline.
//!
//! Wire format, before transport encoding:
//! `[u16 LE visible_len][u16 LE opaque_len][visible][opaque ciphertext][signature]`.
//! The signature covers exactly the transmitted visible and opaque
//! ciphertext bytes. The Ed25519 signature length is fixed, so it is not
//! carried in the header.

use vstd::prelude::*;

use crate::b64::{b64_decode, b64_encode, b64url_of, is_b64url_char};
use crate::crypto;
use crate::crypto::{ed25519_verifies, public_key_of, signature_of, xor_keystream};
use crate::keys::{IssuerKey, VerifierKey};
use crate::{TokenReader, TokenWriter};

verus! {

use vstd::string::StrSliceExecFns;

/// The byte length of an Ed25519 signature.
pub const SIGNATURE_LEN: usize = 64;

/// The byte length of the wire header: two little-endian `u16` lengths.
pub const HEADER_LEN: usize = 4;

/// The largest visible or opaque segment the header can describe.
pub const MAX_SEGMENT_LEN: usize = 65535;

/// A decode failure, ordered by the pipeline stage that raises it:
/// transport faults first, then integrity, then the application schema.
#[derive(Debug, Clone)]
pub enum DecodeTokenError<E> {
    /// The transport string is not valid padded base64url.
    InvalidEncoding,
    /// The decoded buffer is shorter than its header requires.
    Truncated,
    /// Signature verification rejected the buffer.
    InvalidSignature,
    /// The token's own schema rejected the decoded segments.
    BadToken(E),
}

/// An encode failure.
#[derive(Debug, Clone)]
pub enum EncodeTokenError<E> {
    /// A visible or opaque segment does not fit a 16-bit length.
    FieldTooLarge,
    /// The writer could not extract the token's segments.
    Other(E),
}

/// The value of a little-endian `u16` stored as two bytes.
pub open spec fn le16_val(lo: u8, hi: u8) -> nat {
    (lo as nat) + 256 * (hi as nat)
}

/// A value below 65536 stored as two little-endian bytes.
pub open spec fn le16_bytes(n: nat) -> Seq<u8> {
    seq![(n % 256) as u8, ((n / 256) % 256) as u8]
}

/// The 4-byte wire header for the two segment lengths.
pub open spec fn header_of(visible_len: nat, opaque_len: nat) -> Seq<u8> {
    le16_bytes(visible_len) + le16_bytes(opaque_len)
}

/// The bytes the signature covers: the visible segment in clear followed
/// by the opaque segment under the keystream cipher.
pub open spec fn signed_message_of(
    visible: Seq<u8>,
    opaque: Seq<u8>,
    cipher_key: Seq<u8>,
    nonce: Seq<u8>,
) -> Seq<u8> {
    visible + xor_keystream(cipher_key, nonce, opaque)
}

/// The full wire token: header, signed message, signature.
pub open spec fn wire_of(
    visible: Seq<u8>,
    opaque: Seq<u8>,
    pkcs8: Seq<u8>,
    cipher_key: Seq<u8>,
    nonce: Seq<u8>,
) -> Seq<u8> {
    let msg = signed_message_of(visible, opaque, cipher_key, nonce);
    header_of(visible.len(), opaque.len()) + msg + signature_of(pkcs8, msg)
}

/// What the signing key guarantees about one signed message: the
/// signature is 64 bytes and verifies under the pair's public key. This
/// is what "the verifying key is the public counterpart of the signing
/// key" means at this level; `to_str` establishes it for the message it
/// signs.
pub open spec fn signing_valid_for(pkcs8: Seq<u8>, msg: Seq<u8>) -> bool {
    &&& signature_of(pkcs8, msg).len() == 64
    &&& ed25519_verifies(public_key_of(pkcs8), msg, signature_of(pkcs8, msg))
}

/// How a decode outcome relates to a decoded wire buffer: the validation
/// pipeline of `from_str` after transport decoding. Signature
/// verification comes before any look inside the message.
pub open spec fn decode_rel<R: TokenReader>(
    reader: R,
    bytes: Seq<u8>,
    public_key: Seq<u8>,
    cipher_key: Seq<u8>,
    nonce: Seq<u8>,
    r: Result<R::Token, DecodeTokenError<R::Error>>,
) -> bool {
    if bytes.len() < 4 {
        r matches Err(DecodeTokenError::Truncated)
    } else {
        let vlen = le16_val(bytes[0], bytes[1]) as int;
        let olen = le16_val(bytes[2], bytes[3]) as int;
        let total = vlen + olen;
        if bytes.len() < 4 + total + 64 {
            r matches Err(DecodeTokenError::Truncated)
        } else {
            let message = bytes.subrange(4, 4 + total);
            let signature = bytes.subrange(4 + total, bytes.len() as int);
            if !ed25519_verifies(public_key, message, signature) {
                r matches Err(DecodeTokenError::InvalidSignature)
            } else {
                let visible = bytes.subrange(4, 4 + vlen);
                let opaque = xor_keystream(
                    cipher_key,
                    nonce,
                    bytes.subrange(4 + vlen, 4 + total),
                );
                match r {
                    Ok(t) => reader.builds(visible, opaque) && reader.build_ok(
                        visible,
                        opaque,
                        Ok(t),
                    ),
                    Err(DecodeTokenError::BadToken(e)) => !reader.builds(visible, opaque)
                        && reader.build_ok(visible, opaque, Err(e)),
                    Err(_) => false,
                }
            }
        }
    }
}

/// Encodes a token as a transport string: extract, encrypt the opaque
/// segment, sign the transmitted bytes, prepend the length header, and
/// base64url-encode. Fails with `FieldTooLarge` exactly when a segment
/// does not fit a 16-bit length, and passes the writer's own error
/// through.
pub fn to_str<T, W: TokenWriter<T>>(writer: &W, token: &T, key: &IssuerKey) -> (r: Result<
    String,
    EncodeTokenError<W::Error>,
>)
    requires
        key.wf(),
    ensures
        r is Ok <==> writer.bytes_ok(token) && writer.visible_spec(token).len() <= 65535
            && writer.opaque_spec(token).len() <= 65535,
        r matches Ok(s) ==> ({
            let visible = writer.visible_spec(token);
            let opaque = writer.opaque_spec(token);
            let msg = signed_message_of(visible, opaque, key.cipher_key@, key.nonce@);
            &&& s@ == b64url_of(wire_of(visible, opaque, key.pkcs8@, key.cipher_key@, key.nonce@))
            &&& signing_valid_for(key.pkcs8@, msg)
            &&& forall|i: int| 0 <= i < s@.len() ==> is_b64url_char(s@[i])
        }),
        r matches Err(EncodeTokenError::FieldTooLarge) <==> writer.bytes_ok(token) && !(
        writer.visible_spec(token).len() <= 65535 && writer.opaque_spec(token).len() <= 65535),
        r matches Err(EncodeTokenError::Other(e)) ==> !writer.bytes_ok(token),
{
    let (visible, opaque) = match writer.bytes(token) {
        Ok(p) => p,
        Err(e) => {
            return Err(EncodeTokenError::Other(e));
        },
    };
    if visible.len() > MAX_SEGMENT_LEN || opaque.len() > MAX_SEGMENT_LEN {
        return Err(EncodeTokenError::FieldTooLarge);
    }
    let cipher = crypto::apply_keystream(
        key.cipher_key.as_slice(),
        key.nonce.as_slice(),
        opaque.as_slice(),
    );
    let message = concat_bytes(visible.as_slice(), cipher.as_slice());
    let signature = crypto::sign(key.pkcs8.as_slice(), message.as_slice());

    let mut wire: Vec<u8> = Vec::new();
    wire.push((visible.len() % 256) as u8);
    wire.push(((visible.len() / 256) % 256) as u8);
    wire.push((opaque.len() % 256) as u8);
    wire.push(((opaque.len() / 256) % 256) as u8);
    let with_message = concat_bytes(wire.as_slice(), message.as_slice());
    let full = concat_bytes(with_message.as_slice(), signature.as_slice());
    proof {
        let vis = writer.visible_spec(token);
        let opq = writer.opaque_spec(token);
        let msg = signed_message_of(vis, opq, key.cipher_key@, key.nonce@);
        assert(wire@ =~= header_of(vis.len(), opq.len()));
        assert(message@ =~= msg);
        assert(full@ =~= wire_of(vis, opq, key.pkcs8@, key.cipher_key@, key.nonce@));
    }
    Ok(b64_encode(full.as_slice()))
}

/// Decodes a transport string: base64url-decode, parse the header, check
/// the buffer is long enough, verify the signature over the transmitted
/// bytes, decrypt the opaque segment, and hand both segments to the
/// reader. The outcome relates to every decoding of `s` by
/// [`decode_rel`]; `InvalidEncoding` comes exactly when `s` is not valid
/// base64url.
pub fn from_str<R: TokenReader>(reader: &R, s: &str, key: &VerifierKey) -> (r: Result<
    R::Token,
    DecodeTokenError<R::Error>,
>)
    requires
        key.wf(),
    ensures
        forall|bs: Seq<u8>|
            s@ == b64url_of(bs) ==> decode_rel(
                *reader,
                bs,
                key.public_key@,
                key.cipher_key@,
                key.nonce@,
                r,
            ),
        r matches Err(DecodeTokenError::InvalidEncoding) <==> (forall|bs: Seq<u8>|
            s@ != b64url_of(bs)),
        forall|b2: Seq<u8>|
            #![trigger b64url_of(b2)]
            s@.len() < b64url_of(b2).len() && s@ == b64url_of(b2).subrange(0, s@.len() as int)
                ==> (r matches Err(DecodeTokenError::InvalidEncoding) || (exists|bs: Seq<u8>|
                bs.len() < b2.len() && bs == b2.subrange(0, bs.len() as int) && decode_rel(
                    *reader,
                    bs,
                    key.public_key@,
                    key.cipher_key@,
                    key.nonce@,
                    r,
                ))),
{
    match b64_decode(s) {
        Some(bytes) => {
            let r = decode_wire_bytes(reader, &bytes, key);
            proof {
                assert forall|b2: Seq<u8>|
                    #![trigger b64url_of(b2)]
                    s@.len() < b64url_of(b2).len() && s@ == b64url_of(b2).subrange(
                        0,
                        s@.len() as int,
                    ) implies (r matches Err(DecodeTokenError::InvalidEncoding) || (exists|
                    bs: Seq<u8>,
                |
                    bs.len() < b2.len() && bs == b2.subrange(0, bs.len() as int) && decode_rel(
                        *reader,
                        bs,
                        key.public_key@,
                        key.cipher_key@,
                        key.nonce@,
                        r,
                    ))) by {
                    assert(bytes@.len() < b2.len() && bytes@ == b2.subrange(
                        0,
                        bytes@.len() as int,
                    ) && decode_rel(
                        *reader,
                        bytes@,
                        key.public_key@,
                        key.cipher_key@,
                        key.nonce@,
                        r,
                    ));
                }
            }
            r
        },
        None => Err(DecodeTokenError::InvalidEncoding),
    }
}

/// The validation pipeline after transport decoding: header, truncation
/// check, signature verification, decryption, reader. Never returns
/// `InvalidEncoding`; that belongs to the transport layer above.
fn decode_wire_bytes<R: TokenReader>(reader: &R, bytes: &Vec<u8>, key: &VerifierKey) -> (r: Result<
    R::Token,
    DecodeTokenError<R::Error>,
>)
    requires
        key.wf(),
    ensures
        decode_rel(*reader, bytes@, key.public_key@, key.cipher_key@, key.nonce@, r),
        !(r matches Err(DecodeTokenError::InvalidEncoding)),
{
    let buf = bytes.as_slice();
    if buf.len() < HEADER_LEN {
        return Err(DecodeTokenError::Truncated);
    }
    let visible_len: usize = (buf[0] as usize) + 256 * (buf[1] as usize);
    let opaque_len: usize = (buf[2] as usize) + 256 * (buf[3] as usize);
    let total: usize = visible_len + opaque_len;
    if buf.len() < HEADER_LEN + total + SIGNATURE_LEN {
        return Err(DecodeTokenError::Truncated);
    }
    let message: &[u8] = &buf[4..4 + total];
    let signature: &[u8] = &buf[4 + total..buf.len()];
    if !crypto::verify(key.public_key.as_slice(), message, signature) {
        return Err(DecodeTokenError::InvalidSignature);
    }
    let visible: &[u8] = &buf[4..4 + visible_len];
    let opaque_cipher: &[u8] = &buf[4 + visible_len..4 + total];
    let opaque = crypto::apply_keystream(
        key.cipher_key.as_slice(),
        key.nonce.as_slice(),
        opaque_cipher,
    );
    proof {
        assert(visible@ =~= bytes@.subrange(4, 4 + le16_val(bytes@[0], bytes@[1]) as int));
    }
    match reader.build_token(visible, opaque.as_slice()) {
        Ok(t) => Ok(t),
        Err(e) => Err(DecodeTokenError::BadToken(e)),
    }
}

/// Round-trip law at the wire level: decoding an encoded wire token with
/// the public counterpart of the issuing key, and the issuer's symmetric
/// material, reaches the reader with exactly the segments the token was
/// encoded from, and so returns the reader's own verdict on them. With
/// `from_str`'s contract this gives `decode(encode(t)) == Ok(t')` for
/// every token whose segments fit the header and whose reader accepts
/// what its writer extracts.
pub proof fn lemma_round_trip<R: TokenReader>(
    reader: R,
    visible: Seq<u8>,
    opaque: Seq<u8>,
    pkcs8: Seq<u8>,
    cipher_key: Seq<u8>,
    nonce: Seq<u8>,
    r: Result<R::Token, DecodeTokenError<R::Error>>,
)
    requires
        visible.len() <= 65535,
        opaque.len() <= 65535,
        signing_valid_for(pkcs8, signed_message_of(visible, opaque, cipher_key, nonce)),
        decode_rel(
            reader,
            wire_of(visible, opaque, pkcs8, cipher_key, nonce),
            public_key_of(pkcs8),
            cipher_key,
            nonce,
            r,
        ),
    ensures
        reader.builds(visible, opaque) ==> (r matches Ok(t) && reader.build_ok(
            visible,
            opaque,
            Ok(t),
        )),
        !reader.builds(visible, opaque) ==> (r matches Err(DecodeTokenError::BadToken(e))
            && reader.build_ok(visible, opaque, Err(e))),
{
    let msg = signed_message_of(visible, opaque, cipher_key, nonce);
    let sig = signature_of(pkcs8, msg);
    let wire = wire_of(visible, opaque, pkcs8, cipher_key, nonce);
    let vlen = visible.len() as int;
    let olen = opaque.len() as int;
    lemma_le16_round_trip(visible.len());
    lemma_le16_round_trip(opaque.len());
    assert(wire.len() == 4 + vlen + olen + 64);
    assert(wire[0] == le16_bytes(visible.len())[0]);
    assert(wire[1] == le16_bytes(visible.len())[1]);
    assert(wire[2] == le16_bytes(opaque.len())[0]);
    assert(wire[3] == le16_bytes(opaque.len())[1]);
    assert(le16_val(wire[0], wire[1]) == visible.len());
    assert(le16_val(wire[2], wire[3]) == opaque.len());
    assert(wire.subrange(4, 4 + vlen + olen) =~= msg);
    assert(wire.subrange(4 + vlen + olen, wire.len() as int) =~= sig);
    assert(wire.subrange(4, 4 + vlen) =~= visible);
    assert(wire.subrange(4 + vlen, 4 + vlen + olen) =~= xor_keystream(
        cipher_key,
        nonce,
        opaque,
    ));
    crypto::lemma_xor_keystream_self_inverse(cipher_key, nonce, opaque);
}

/// Storing a value below 65536 as two little-endian bytes and reading
/// them back yields the value.
pub proof fn lemma_le16_round_trip(n: nat)
    requires
        n <= 65535,
    ensures
        le16_val(le16_bytes(n)[0], le16_bytes(n)[1]) == n,
{
    assert(n % 256 < 256);
    assert(n / 256 < 256);
    assert((n / 256) % 256 == n / 256);
    assert(n == 256 * (n / 256) + n % 256);
}

/// What any successful decode certifies about its wire buffer: the
/// buffer is long enough for its header, its signature section verifies
/// over exactly its transmitted message section under the verifying key,
/// and the reader accepted the decrypted segments. A change to any
/// transmitted byte therefore leaves only outcomes whose (message,
/// signature) pair still verifies; it can never smuggle in segments the
/// reader's verdict was not computed on.
pub proof fn lemma_decode_authenticates<R: TokenReader>(
    reader: R,
    bytes: Seq<u8>,
    public_key: Seq<u8>,
    cipher_key: Seq<u8>,
    nonce: Seq<u8>,
    r: Result<R::Token, DecodeTokenError<R::Error>>,
)
    requires
        decode_rel(reader, bytes, public_key, cipher_key, nonce, r),
        r is Ok,
    ensures
        bytes.len() >= 4 + le16_val(bytes[0], bytes[1]) + le16_val(bytes[2], bytes[3]) + 64,
        ed25519_verifies(
            public_key,
            bytes.subrange(
                4,
                4 + le16_val(bytes[0], bytes[1]) as int + le16_val(bytes[2], bytes[3]) as int,
            ),
            bytes.subrange(
                4 + le16_val(bytes[0], bytes[1]) as int + le16_val(bytes[2], bytes[3]) as int,
                bytes.len() as int,
            ),
        ),
        reader.builds(
            bytes.subrange(4, 4 + le16_val(bytes[0], bytes[1]) as int),
            xor_keystream(
                cipher_key,
                nonce,
                bytes.subrange(
                    4 + le16_val(bytes[0], bytes[1]) as int,
                    4 + le16_val(bytes[0], bytes[1]) as int + le16_val(bytes[2], bytes[3]) as int,
                ),
            ),
        ),
{
}

/// Truncation rejection at the wire level: a strict prefix of a wire
/// token decodes to a `Truncated` transport error, under any key
/// material, because the header of the full token demands more bytes
/// than the prefix holds.
pub proof fn lemma_truncation_rejected<R: TokenReader>(
    reader: R,
    visible: Seq<u8>,
    opaque: Seq<u8>,
    pkcs8: Seq<u8>,
    cipher_key: Seq<u8>,
    nonce: Seq<u8>,
    n: int,
    public_key: Seq<u8>,
    decode_cipher_key: Seq<u8>,
    decode_nonce: Seq<u8>,
    r: Result<R::Token, DecodeTokenError<R::Error>>,
)
    requires
        visible.len() <= 65535,
        opaque.len() <= 65535,
        signature_of(pkcs8, signed_message_of(visible, opaque, cipher_key, nonce)).len() == 64,
        0 <= n < wire_of(visible, opaque, pkcs8, cipher_key, nonce).len(),
        decode_rel(
            reader,
            wire_of(visible, opaque, pkcs8, cipher_key, nonce).subrange(0, n),
            public_key,
            decode_cipher_key,
            decode_nonce,
            r,
        ),
    ensures
        r matches Err(DecodeTokenError::Truncated),
{
    let wire = wire_of(visible, opaque, pkcs8, cipher_key, nonce);
    let prefix = wire.subrange(0, n);
    let vlen = visible.len() as int;
    let olen = opaque.len() as int;
    assert(wire.len() == 4 + vlen + olen + 64);
    if prefix.len() >= 4 {
        lemma_le16_round_trip(visible.len());
        lemma_le16_round_trip(opaque.len());
        assert(prefix[0] == wire[0] && prefix[1] == wire[1] && prefix[2] == wire[2] && prefix[3]
            == wire[3]);
        assert(le16_val(prefix[0], prefix[1]) == visible.len());
        assert(le16_val(prefix[2], prefix[3]) == opaque.len());
        assert(prefix.len() < 4 + vlen + olen + 64);
    }
}

/// Truncation rejection at the transport level: cutting a transport
/// string to any strict prefix leaves `from_str` with either a string
/// that is not valid base64url (`InvalidEncoding`) or one that decodes
/// to a strict byte-prefix of the wire token, which the header then
/// rejects as `Truncated`. The last two hypotheses are exactly what
/// `from_str`'s contract gives for the prefix.
pub proof fn lemma_transport_truncation_rejected<R: TokenReader>(
    reader: R,
    visible: Seq<u8>,
    opaque: Seq<u8>,
    pkcs8: Seq<u8>,
    cipher_key: Seq<u8>,
    nonce: Seq<u8>,
    p: Seq<char>,
    public_key: Seq<u8>,
    decode_cipher_key: Seq<u8>,
    decode_nonce: Seq<u8>,
    r: Result<R::Token, DecodeTokenError<R::Error>>,
)
    requires
        visible.len() <= 65535,
        opaque.len() <= 65535,
        signature_of(pkcs8, signed_message_of(visible, opaque, cipher_key, nonce)).len() == 64,
        p.len() < b64url_of(wire_of(visible, opaque, pkcs8, cipher_key, nonce)).len(),
        p == b64url_of(wire_of(visible, opaque, pkcs8, cipher_key, nonce)).subrange(
            0,
            p.len() as int,
        ),
        forall|b2: Seq<u8>|
            #![trigger b64url_of(b2)]
            p.len() < b64url_of(b2).len() && p == b64url_of(b2).subrange(0, p.len() as int)
                ==> (r matches Err(DecodeTokenError::InvalidEncoding) || (exists|bs: Seq<u8>|
                bs.len() < b2.len() && bs == b2.subrange(0, bs.len() as int) && decode_rel(
                    reader,
                    bs,
                    public_key,
                    decode_cipher_key,
                    decode_nonce,
                    r,
                ))),
    ensures
        r matches Err(DecodeTokenError::InvalidEncoding) || r matches Err(
            DecodeTokenError::Truncated,
        ),
{
    let wire = wire_of(visible, opaque, pkcs8, cipher_key, nonce);
    if !(r matches Err(DecodeTokenError::InvalidEncoding)) {
        let bs = choose|bs: Seq<u8>|
            bs.len() < wire.len() && bs == wire.subrange(0, bs.len() as int) && decode_rel(
                reader,
                bs,
                public_key,
                decode_cipher_key,
                decode_nonce,
                r,
            );
        lemma_truncation_rejected(
            reader,
            visible,
            opaque,
            pkcs8,
            cipher_key,
            nonce,
            bs.len() as int,
            public_key,
            decode_cipher_key,
            decode_nonce,
            r,
        );
    }
}

/// A request-level authentication failure.
#[derive(Debug, Clone)]
pub enum AuthRequestError<E> {
    /// Neither an authorization header nor a session cookie was given.
    NoSession,
    /// The authorization header does not carry the bearer scheme.
    InvalidHeaderFormat,
    /// The authorization scheme is recognized but not supported.
    UnsupportedAuthScheme,
    /// The transport string did not decode to a token.
    BadToken(DecodeTokenError<E>),
}

/// A decoded, verified session token pulled out of a request.
pub struct Auth<R: TokenReader> {
    token: R::Token,
}

impl<R: TokenReader> Auth<R> {
    /// The token this authentication carries.
    pub closed spec fn spec_token(&self) -> R::Token {
        self.token
    }

    pub(crate) fn new(token: R::Token) -> (r: Self)
        ensures
            r.spec_token() == token,
    {
        Auth { token }
    }

    /// The decoded token.
    pub fn token(&self) -> (r: &R::Token)
        ensures
            *r == self.spec_token(),
    {
        &self.token
    }
}

/// ASCII whitespace, as trimmed between the bearer scheme and the token.
pub open spec fn is_space(c: char) -> bool {
    c == ' ' || c == '\t' || c == '\r' || c == '\n'
}

/// The literal scheme that an authorization header value must open with.
pub open spec fn bearer_scheme() -> Seq<char> {
    seq!['B', 'e', 'a', 'r', 'e', 'r']
}

/// Whether a header value opens with the bearer scheme.
pub open spec fn has_bearer_scheme(h: Seq<char>) -> bool {
    h.len() >= 6 && h.subrange(0, 6) == bearer_scheme()
}

/// The first position at or after `i` holding a non-space character.
pub open spec fn skip_spaces_from(h: Seq<char>, i: int) -> int
    decreases h.len() - i,
{
    if i < 0 || i >= h.len() {
        i
    } else if is_space(h[i]) {
        skip_spaces_from(h, i + 1)
    } else {
        i
    }
}

/// The position after the last non-space character strictly before `j`.
pub open spec fn skip_spaces_back(h: Seq<char>, j: int) -> int
    decreases j,
{
    if j <= 0 || j > h.len() {
        j
    } else if is_space(h[j - 1]) {
        skip_spaces_back(h, j - 1)
    } else {
        j
    }
}

/// The candidate transport string of a header value that opens with the
/// bearer scheme: everything after the scheme, with the whitespace
/// around it trimmed.
pub open spec fn bearer_token_of(h: Seq<char>) -> Seq<char> {
    let start = skip_spaces_from(h, 6);
    let stop = skip_spaces_back(h, h.len() as int);
    h.subrange(
        start,
        if stop < start {
            start
        } else {
            stop
        },
    )
}

proof fn lemma_skip_spaces_bounds(h: Seq<char>, i: int)
    requires
        0 <= i <= h.len(),
    ensures
        i <= skip_spaces_from(h, i) <= h.len(),
    decreases h.len() - i,
{
    if i < h.len() && is_space(h[i]) {
        lemma_skip_spaces_bounds(h, i + 1);
    }
}

proof fn lemma_skip_spaces_back_bounds(h: Seq<char>, j: int)
    requires
        0 <= j <= h.len(),
    ensures
        0 <= skip_spaces_back(h, j) <= j,
    decreases j,
{
    if 0 < j && is_space(h[j - 1]) {
        lemma_skip_spaces_back_bounds(h, j - 1);
    }
}

/// Whether `c` is ASCII whitespace.
fn is_space_exec(c: char) -> (r: bool)
    ensures
        r == is_space(c),
{
    c == ' ' || c == '\t' || c == '\r' || c == '\n'
}

/// Strips the bearer scheme and the whitespace after it from an
/// authorization header value; `None` when the value does not open with
/// the scheme.
fn bearer_token<'a>(h: &'a str) -> (r: Option<&'a str>)
    ensures
        r is Some <==> has_bearer_scheme(h@),
        r matches Some(t) ==> t@ == bearer_token_of(h@),
{
    let n = h.unicode_len();
    if n < 6 {
        return None;
    }
    let ok = h.get_char(0) == 'B' && h.get_char(1) == 'e' && h.get_char(2) == 'a' && h.get_char(3)
        == 'r' && h.get_char(4) == 'e' && h.get_char(5) == 'r';
    if !ok {
        proof {
            if has_bearer_scheme(h@) {
                assert(h@.subrange(0, 6)[0] == h@[0]);
                assert(h@.subrange(0, 6)[1] == h@[1]);
                assert(h@.subrange(0, 6)[2] == h@[2]);
                assert(h@.subrange(0, 6)[3] == h@[3]);
                assert(h@.subrange(0, 6)[4] == h@[4]);
                assert(h@.subrange(0, 6)[5] == h@[5]);
            }
        }
        return None;
    }
    proof {
        assert(h@.subrange(0, 6) =~= bearer_scheme());
    }
    let mut i: usize = 6;
    proof {
        lemma_skip_spaces_bounds(h@, 6);
    }
    while i < n && is_space_exec(h.get_char(i))
        invariant
            6 <= i <= n,
            n == h@.len(),
            skip_spaces_from(h@, 6) == skip_spaces_from(h@, i as int),
        decreases n - i,
    {
        i = i + 1;
    }
    proof {
        assert(skip_spaces_from(h@, 6) == i);
        lemma_skip_spaces_back_bounds(h@, n as int);
    }
    let mut j: usize = n;
    while j > i && is_space_exec(h.get_char(j - 1))
        invariant
            i <= j <= n,
            n == h@.len(),
            skip_spaces_back(h@, n as int) == skip_spaces_back(h@, j as int),
        decreases j,
    {
        j = j - 1;
    }
    proof {
        if j > i {
            assert(skip_spaces_back(h@, n as int) == j);
        } else {
            lemma_skip_spaces_back_bounds(h@, j as int);
        }
        assert(h@.subrange(i as int, j as int) =~= bearer_token_of(h@));
    }
    Some(h.substring_char(i, j))
}

/// What a decoded authentication outcome looks like at the token level:
/// success carries the token, and a decode failure comes through as
/// `BadToken`.
pub open spec fn unlift<R: TokenReader>(r: Result<Auth<R>, AuthRequestError<R::Error>>) -> Result<
    R::Token,
    DecodeTokenError<R::Error>,
> {
    match r {
        Ok(a) => Ok(a.spec_token()),
        Err(AuthRequestError::BadToken(e)) => Err(e),
        Err(_) => Err(DecodeTokenError::InvalidEncoding),
    }
}

/// How an authentication outcome relates to the candidate transport
/// string `t` that was pulled out of the request.
pub open spec fn auth_rel<R: TokenReader>(
    reader: R,
    t: Seq<char>,
    public_key: Seq<u8>,
    cipher_key: Seq<u8>,
    nonce: Seq<u8>,
    r: Result<Auth<R>, AuthRequestError<R::Error>>,
) -> bool {
    &&& (r matches Err(AuthRequestError::BadToken(DecodeTokenError::InvalidEncoding)) <==> (
    forall|bs: Seq<u8>| t != b64url_of(bs)))
    &&& (r is Ok || r matches Err(AuthRequestError::BadToken(_)))
    &&& (forall|bs: Seq<u8>|
        t == b64url_of(bs) ==> decode_rel(reader, bs, public_key, cipher_key, nonce, unlift(r)))
}

/// Locates a candidate transport string — an authorization header value
/// opening with the bearer scheme, else a session cookie value — and
/// decodes it. A request with neither yields `NoSession`, not a parse
/// error; a header without the bearer scheme yields
/// `InvalidHeaderFormat`.
pub fn authenticate<R: TokenReader>(
    reader: &R,
    header: Option<&str>,
    cookie: Option<&str>,
    key: &VerifierKey,
) -> (r: Result<Auth<R>, AuthRequestError<R::Error>>)
    requires
        key.wf(),
    ensures
        r matches Err(AuthRequestError::NoSession) <==> header is None && cookie is None,
        r matches Err(AuthRequestError::InvalidHeaderFormat) <==> (header matches Some(h)
            && !has_bearer_scheme(h@)),
        header matches Some(h) ==> (has_bearer_scheme(h@) ==> auth_rel(
            *reader,
            bearer_token_of(h@),
            key.public_key@,
            key.cipher_key@,
            key.nonce@,
            r,
        )),
        cookie matches Some(c) ==> (header is None ==> auth_rel(
            *reader,
            c@,
            key.public_key@,
            key.cipher_key@,
            key.nonce@,
            r,
        )),
{
    let token_str: &str = match header {
        Some(h) => {
            match bearer_token(h) {
                Some(t) => t,
                None => {
                    return Err(AuthRequestError::InvalidHeaderFormat);
                },
            }
        },
        None => {
            match cookie {
                Some(c) => c,
                None => {
                    return Err(AuthRequestError::NoSession);
                },
            }
        },
    };
    match from_str(reader, token_str, key) {
        Ok(t) => Ok(Auth::new(t)),
        Err(e) => Err(AuthRequestError::BadToken(e)),
    }
}

/// The bytes of `a` followed by the bytes of `b`.
pub fn concat_bytes(a: &[u8], b: &[u8]) -> (r: Vec<u8>)
    ensures
        r@ == a@ + b@,
{
    let mut out: Vec<u8> = Vec::new();
    let mut i: usize = 0;
    while i < a.len()
        invariant
            i <= a@.len(),
            out@ == a@.subrange(0, i as int),
        decreases a@.len() - i,
    {
        out.push(a[i]);
        i = i + 1;
        proof {
            assert(a@.subrange(0, i as int) =~= a@.subrange(0, i - 1) + seq![a@[i - 1]]);
        }
    }
    let mut j: usize = 0;
    while j < b.len()
        invariant
            j <= b@.len(),
            out@ == a@.subrange(0, a@.len() as int) + b@.subrange(0, j as int),
        decreases b@.len() - j,
    {
        out.push(b[j]);
        j = j + 1;
        proof {
            assert(b@.subrange(0, j as int) =~= b@.subrange(0, j - 1) + seq![b@[j - 1]]);
        }
    }
    proof {
        assert(a@.subrange(0, a@.len() as int) =~= a@);
        assert(b@.subrange(0, b@.len() as int) =~= b@);
        assert(out@ =~= a@ + b@);
    }
    out
}

} // verus!
