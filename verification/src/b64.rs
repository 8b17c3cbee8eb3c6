//! base64url transport encoding of the wire token.
//!
//! The transport string is the padded, URL-safe base64 form of the wire
//! bytes; it is the only form that crosses the network boundary.

use vstd::prelude::*;

use base64::prelude::{Engine, BASE64_URL_SAFE};

verus! {

/// The padded base64url encoding of a byte string, as base64's
/// `BASE64_URL_SAFE` engine emits it. The encoding is canonical: distinct
/// byte strings have distinct encodings, and the engine's decoder accepts
/// exactly the strings this function produces.
pub uninterp spec fn b64url_of(bytes: Seq<u8>) -> Seq<char>;

/// A character of the URL-safe base64 alphabet, or the padding
/// character.
pub open spec fn is_b64url_char(c: char) -> bool {
    ||| 'A' as int <= c as int <= 'Z' as int
    ||| 'a' as int <= c as int <= 'z' as int
    ||| '0' as int <= c as int <= '9' as int
    ||| c == '-'
    ||| c == '_'
    ||| c == '='
}

/// Relies on base64's `Engine::encode` with `BASE64_URL_SAFE` (URL-safe
/// alphabet, padded): the encoding is a function of the bytes alone, and
/// every character of it is drawn from the URL-safe alphabet or is the
/// padding character.
#[verifier::external_body]
pub(crate) fn b64_encode(bytes: &[u8]) -> (r: String)
    ensures
        r@ == b64url_of(bytes@),
        forall|i: int| 0 <= i < r@.len() ==> is_b64url_char(r@[i]),
{
    BASE64_URL_SAFE.encode(bytes)
}

/// Relies on base64's `Engine::decode` with `BASE64_URL_SAFE`: the engine
/// requires canonical padding and rejects set trailing bits, so it accepts
/// a string exactly when it is the encoding of some byte string, and then
/// returns those bytes. A decodable string that is also a strict prefix
/// of some encoding consists of whole four-character groups before that
/// encoding's final group, so its bytes are a strict prefix of the other
/// string's bytes.
#[verifier::external_body]
pub(crate) fn b64_decode(s: &str) -> (r: Option<Vec<u8>>)
    ensures
        r matches Some(v) ==> s@ == b64url_of(v@),
        r matches Some(v) ==> forall|bs: Seq<u8>| s@ == b64url_of(bs) ==> v@ == bs,
        r is None ==> forall|bs: Seq<u8>| s@ != b64url_of(bs),
        r matches Some(v) ==> forall|b2: Seq<u8>|
            #![trigger b64url_of(b2)]
            s@.len() < b64url_of(b2).len() && s@ == b64url_of(b2).subrange(0, s@.len() as int)
                ==> v@.len() < b2.len() && v@ == b2.subrange(0, v@.len() as int),
{
    BASE64_URL_SAFE.decode(s).ok()
}

} // verus!
