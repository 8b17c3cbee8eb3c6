//! The PEM container that key material is persisted in: a tagged block
//! holding the DER bytes of the private-key document.

use vstd::prelude::*;

verus! {

/// The PEM text for a tag and DER contents, as pem's encoder emits it:
/// a function of tag and contents alone.
pub uninterp spec fn pem_text_of(tag: Seq<char>, der: Seq<u8>) -> Seq<char>;

/// The tag that key files are written under.
pub open spec fn private_key_tag() -> Seq<char> {
    "PRIVATE KEY"@
}

/// Relies on `pem::encode` over `pem::Pem::new`: the emitted text is a
/// function of the tag and the contents.
#[verifier::external_body]
fn pem_encode(tag: &str, der: &[u8]) -> (r: String)
    ensures
        r@ == pem_text_of(tag@, der@),
{
    pem::encode(&pem::Pem::new(tag, der))
}

/// Relies on `pem::parse`: parsing text that `pem::encode` emitted for
/// the `PRIVATE KEY` tag gives back that tag and the contents it was
/// built from. Nothing is claimed of other tags: the parser's framing
/// rejects some encodable tags (an empty one, or one holding a dash
/// run), so the round trip is stated only for the tag this crate
/// writes.
#[verifier::external_body]
fn pem_parse(text: &str) -> (r: Option<(String, Vec<u8>)>)
    ensures
        r is None ==> forall|der: Seq<u8>| text@ != pem_text_of(private_key_tag(), der),
        r matches Some(p) ==> forall|der: Seq<u8>|
            text@ == pem_text_of(private_key_tag(), der) ==> p.0@ == private_key_tag() && p.1@
                == der,
{
    let parsed = pem::parse(text).ok()?;
    Some((parsed.tag().to_string(), parsed.contents().to_vec()))
}

/// The key-file form of a private-key document: a PEM block tagged
/// `PRIVATE KEY`.
pub fn key_file_text(pkcs8: &[u8]) -> (r: String)
    ensures
        r@ == pem_text_of(private_key_tag(), pkcs8@),
{
    pem_encode("PRIVATE KEY", pkcs8)
}

/// The DER contents of a PEM key file; `None` when the text is not a PEM
/// block. Reading back a file written by [`key_file_text`] yields the
/// document it was written from.
pub fn key_file_contents(text: &str) -> (r: Option<Vec<u8>>)
    ensures
        r is None ==> forall|der: Seq<u8>| text@ != pem_text_of(private_key_tag(), der),
        r matches Some(v) ==> forall|der: Seq<u8>|
            text@ == pem_text_of(private_key_tag(), der) ==> v@ == der,
{
    match pem_parse(text) {
        Some(p) => Some(p.1),
        None => None,
    }
}

} // verus!
