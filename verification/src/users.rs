//! The application token of the reference deployment: a username with a
//! 16-bit permission bitmask. The username travels as the visible
//! segment; the bitmask, little-endian, as the two-byte opaque segment.

use vstd::prelude::*;
use vstd::utf8::{decode_utf8, encode_utf8, encode_utf8_decode_utf8, encode_utf8_valid_utf8,
    valid_utf8};

use crate::crypto::public_key_of;
use crate::web::{decode_rel, le16_val, lemma_le16_round_trip, lemma_round_trip,
    signed_message_of, signing_valid_for, wire_of, DecodeTokenError};
use crate::{TokenReader, TokenWriter};

verus! {

/// A 16-bit permission bitmask. Only bit 0, the administrator flag, is
/// assigned.
#[derive(Debug, Clone, Copy, PartialEq, Eq, Hash, Structural)]
pub struct Scope(pub u16);

/// The mask of the assigned flag bits.
pub const SCOPE_MASK: u16 = 1;

impl Scope {
    /// Only assigned flag bits are set.
    pub open spec fn wf(self) -> bool {
        self.0 & SCOPE_MASK == self.0
    }

    /// No flag set.
    pub fn empty() -> (r: Self)
        ensures
            r.0 == 0,
            r.wf(),
    {
        let r = Scope(0);
        proof {
            assert(0u16 & SCOPE_MASK == 0u16) by (bit_vector);
        }
        r
    }

    /// The administrator flag.
    pub fn admin() -> (r: Self)
        ensures
            r.0 == 1,
            r.wf(),
    {
        let r = Scope(1);
        proof {
            assert(1u16 & SCOPE_MASK == 1u16) by (bit_vector);
        }
        r
    }

    /// The scope with the given bits, unassigned bits dropped.
    pub fn from_bits_truncate(bits: u16) -> (r: Self)
        ensures
            r.0 == bits & SCOPE_MASK,
            r.wf(),
            bits & SCOPE_MASK == bits ==> r.0 == bits,
    {
        let r = Scope(bits & SCOPE_MASK);
        proof {
            assert((bits & 1u16) & 1u16 == bits & 1u16) by (bit_vector);
        }
        r
    }

    /// The raw bitmask.
    pub fn bits(self) -> (r: u16)
        ensures
            r == self.0,
    {
        self.0
    }
}

/// A signed-in user: the domain token of the reference deployment.
#[derive(Debug)]
pub struct User {
    pub username: String,
    pub scope: Scope,
}

impl User {
    /// The user's name.
    pub fn username(&self) -> (r: &str)
        ensures
            r@ == self.username@,
    {
        self.username.as_str()
    }

    /// The user's permission bitmask.
    pub fn scope(&self) -> (r: Scope)
        ensures
            r == self.scope,
    {
        self.scope
    }
}

/// Why a decoded pair of segments does not form a `User`.
#[derive(Debug, Clone, Copy, PartialEq, Eq, Structural)]
pub enum BuildTokenError {
    /// The opaque segment is not exactly the two bytes of the bitmask.
    MalformedField,
}

/// What `String::from_utf8_lossy` makes of a byte string. A function of
/// the bytes alone; on valid UTF-8 it is `decode_utf8`.
pub uninterp spec fn utf8_lossy_of(bytes: Seq<u8>) -> Seq<char>;

/// Relies on `String::from_utf8_lossy`: a function of the bytes alone
/// that, on valid UTF-8, returns the decoded characters unchanged.
#[verifier::external_body]
fn utf8_lossy(bytes: &[u8]) -> (r: String)
    ensures
        r@ == utf8_lossy_of(bytes@),
        valid_utf8(bytes@) ==> r@ == decode_utf8(bytes@),
{
    String::from_utf8_lossy(bytes).into_owned()
}

/// Reconstructs a `User` from decoded segments.
#[derive(Default)]
pub struct Reader;

/// Splits a `User` into its visible and opaque segments.
#[derive(Default)]
pub struct Writer;

/// The bitmask carried by a two-byte opaque segment, unassigned bits
/// dropped.
pub open spec fn scope_of_opaque(opaque: Seq<u8>) -> Scope {
    Scope((le16_val(opaque[0], opaque[1]) as u16) & SCOPE_MASK)
}

impl TokenReader for Reader {
    type Error = BuildTokenError;

    type Token = User;

    open spec fn builds(&self, visible: Seq<u8>, opaque: Seq<u8>) -> bool {
        opaque.len() == 2
    }

    open spec fn build_ok(
        &self,
        visible: Seq<u8>,
        opaque: Seq<u8>,
        r: Result<User, BuildTokenError>,
    ) -> bool {
        match r {
            Ok(u) => {
                &&& opaque.len() == 2
                &&& u.username@ == utf8_lossy_of(visible)
                &&& (valid_utf8(visible) ==> u.username@ == decode_utf8(visible))
                &&& u.scope == scope_of_opaque(opaque)
                &&& u.scope.wf()
            },
            Err(e) => opaque.len() != 2 && e == BuildTokenError::MalformedField,
        }
    }

    fn build_token(&self, visible: &[u8], opaque: &[u8]) -> (r: Result<User, BuildTokenError>) {
        if opaque.len() != 2 {
            return Err(BuildTokenError::MalformedField);
        }
        let username = utf8_lossy(visible);
        let bits: u16 = (opaque[0] as u16) + 256 * (opaque[1] as u16);
        let scope = Scope::from_bits_truncate(bits);
        Ok(User { username, scope })
    }
}

impl TokenWriter<User> for Writer {
    type Error = BuildTokenError;

    open spec fn visible_spec(&self, token: &User) -> Seq<u8> {
        encode_utf8(token.username@)
    }

    open spec fn opaque_spec(&self, token: &User) -> Seq<u8> {
        seq![(token.scope.0 % 256) as u8, ((token.scope.0 / 256) % 256) as u8]
    }

    open spec fn bytes_ok(&self, token: &User) -> bool {
        true
    }

    fn bytes(&self, token: &User) -> (r: Result<(Vec<u8>, Vec<u8>), BuildTokenError>) {
        let visible = crate::keys::clone_bytes(token.username.as_str().as_bytes());
        let bits = token.scope.0;
        let mut opaque: Vec<u8> = Vec::new();
        opaque.push((bits % 256) as u8);
        opaque.push(((bits / 256) % 256) as u8);
        proof {
            assert(opaque@ =~= self.opaque_spec(token));
        }
        Ok((visible, opaque))
    }
}

/// Round-trip law at the capability layer: rebuilding a well-formed user
/// from the segments its writer extracts gives back a user with the same
/// name and the same scope.
pub proof fn lemma_user_round_trip(
    reader: Reader,
    writer: Writer,
    u: User,
    r: Result<User, BuildTokenError>,
)
    requires
        u.scope.wf(),
        reader.build_ok(writer.visible_spec(&u), writer.opaque_spec(&u), r),
        r is Ok <==> reader.builds(writer.visible_spec(&u), writer.opaque_spec(&u)),
    ensures
        r matches Ok(u2) && u2.username@ == u.username@ && u2.scope == u.scope,
{
    let visible = writer.visible_spec(&u);
    let opaque = writer.opaque_spec(&u);
    encode_utf8_valid_utf8(u.username@);
    encode_utf8_decode_utf8(u.username@);
    lemma_le16_round_trip(u.scope.0 as nat);
    assert(opaque[0] == (u.scope.0 % 256) as u8 && opaque[1] == ((u.scope.0 / 256) % 256) as u8);
    assert(le16_val(opaque[0], opaque[1]) == u.scope.0);
    assert(scope_of_opaque(opaque) == u.scope);
}

/// Round-trip law for the whole pipeline on `User` tokens: decoding the
/// wire form of a well-formed user, under the public counterpart of the
/// issuing key and the issuer's symmetric material, succeeds and returns
/// a user with the same name and the same scope. Together with `to_str`'s
/// and `from_str`'s contracts this is `decode(encode(u, sk), vk) ==
/// Ok(u')` with `u'` value-equal to `u`.
pub proof fn lemma_user_token_round_trip(
    reader: Reader,
    writer: Writer,
    u: User,
    pkcs8: Seq<u8>,
    cipher_key: Seq<u8>,
    nonce: Seq<u8>,
    r: Result<User, DecodeTokenError<BuildTokenError>>,
)
    requires
        u.scope.wf(),
        writer.visible_spec(&u).len() <= 65535,
        signing_valid_for(
            pkcs8,
            signed_message_of(
                writer.visible_spec(&u),
                writer.opaque_spec(&u),
                cipher_key,
                nonce,
            ),
        ),
        decode_rel(
            reader,
            wire_of(writer.visible_spec(&u), writer.opaque_spec(&u), pkcs8, cipher_key, nonce),
            public_key_of(pkcs8),
            cipher_key,
            nonce,
            r,
        ),
    ensures
        r matches Ok(u2) && u2.username@ == u.username@ && u2.scope == u.scope,
{
    let visible = writer.visible_spec(&u);
    let opaque = writer.opaque_spec(&u);
    lemma_round_trip(reader, visible, opaque, pkcs8, cipher_key, nonce, r);
    assert(reader.builds(visible, opaque));
    let u2 = r->Ok_0;
    lemma_user_round_trip(reader, writer, u, Ok(u2));
}

} // verus!
