//! Compact, self-contained session tokens: a signed, partially encrypted
//! blob that a client stores and replays to prove identity without any
//! server-side session state.
//!
//! The core is the token codec: a length-prefixed wire format, Ed25519
//! signing over the transmitted bytes, ChaCha20 encryption of the opaque
//! segment, and base64url transport encoding.

use vstd::prelude::*;

pub mod b64;
pub mod crypto;
pub mod keys;
pub mod pemfile;
pub mod scopes;
pub mod sessions;
pub mod tokens;
pub mod users;
pub mod web;

pub use web::{from_str, to_str, DecodeTokenError, EncodeTokenError};

verus! {

/// Splits an application token into its visible byte segment (sent in
/// clear, authenticated but readable) and its opaque byte segment
/// (encrypted and authenticated).
pub trait TokenWriter<T>: Sized {
    type Error;

    /// The visible segment the writer extracts from `token`.
    spec fn visible_spec(&self, token: &T) -> Seq<u8>;

    /// The opaque segment the writer extracts from `token`.
    spec fn opaque_spec(&self, token: &T) -> Seq<u8>;

    /// Whether extraction succeeds on `token`.
    spec fn bytes_ok(&self, token: &T) -> bool;

    /// Extracts the (visible, opaque) byte segments of `token`.
    fn bytes(&self, token: &T) -> (r: Result<(Vec<u8>, Vec<u8>), Self::Error>)
        ensures
            r matches Ok(p) ==> p.0@ == self.visible_spec(token)
                && p.1@ == self.opaque_spec(token),
            r is Ok <==> self.bytes_ok(token),
    ;
}

/// Reconstructs an application token from decoded visible and opaque byte
/// segments; fallible, and must consume the whole opaque segment.
pub trait TokenReader: Sized {
    type Error;

    type Token;

    /// Whether reconstruction succeeds on these segments.
    spec fn builds(&self, visible: Seq<u8>, opaque: Seq<u8>) -> bool;

    /// How a reconstruction outcome relates to the segments it was built
    /// from.
    spec fn build_ok(
        &self,
        visible: Seq<u8>,
        opaque: Seq<u8>,
        r: Result<Self::Token, Self::Error>,
    ) -> bool;

    /// Reconstructs a token from the two segments.
    fn build_token(&self, visible: &[u8], opaque: &[u8]) -> (r: Result<
        Self::Token,
        Self::Error,
    >)
        ensures
            r is Ok <==> self.builds(visible@, opaque@),
            self.build_ok(visible@, opaque@, r),
    ;
}

/// Ties an application token type to its reader and writer.
pub trait Token: Sized {
    type Reader: TokenReader;

    type Writer: TokenWriter<Self>;
}

} // verus!
