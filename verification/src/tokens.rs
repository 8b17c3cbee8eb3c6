//! A compact serialized-token container: a payload, an opaque section,
//! and the checksummed transport form of an encoded payload.

use vstd::prelude::*;

verus! {

/// Marks the part of a token that the client cannot read.
#[derive(Debug, Clone, Copy, Hash, PartialEq, Eq, PartialOrd, Ord, Default)]
pub struct Opaque<T>(pub T);

/// A token: an application payload together with an opaque section.
#[derive(Debug)]
pub struct Token<P, O> {
    payload: P,
    opaque: Opaque<O>,
}

impl<P, O> Token<P, O> {
    /// The payload this token carries.
    pub closed spec fn spec_payload(&self) -> &P {
        &self.payload
    }

    /// The opaque section this token carries.
    pub closed spec fn spec_opaque(&self) -> &O {
        &self.opaque.0
    }

    /// A token from its payload and opaque section.
    pub fn new(payload: P, opaque: O) -> (r: Self)
        ensures
            r.spec_payload() == &payload,
            r.spec_opaque() == &opaque,
    {
        Token { payload, opaque: Opaque(opaque) }
    }

    /// The payload this token carries.
    pub fn payload(&self) -> (r: &P)
        ensures
            r == self.spec_payload(),
    {
        &self.payload
    }

    /// The opaque section this token carries.
    pub fn opaque(&self) -> (r: &O)
        ensures
            r == self.spec_opaque(),
    {
        &self.opaque.0
    }
}

/// The CRC-32 (IEEE) checksum of a byte string, as crc32fast computes
/// it: a function of the bytes alone.
pub uninterp spec fn crc32_of(bytes: Seq<u8>) -> u32;

/// Relies on `crc32fast::hash`: the CRC-32 (IEEE) checksum of the bytes.
#[verifier::external_body]
fn crc32(bytes: &[u8]) -> (r: u32)
    ensures
        r == crc32_of(bytes@),
{
    crc32fast::hash(bytes)
}

/// An encoded token: the transport bytes of the payload and their
/// checksum.
pub struct EncodedToken<'buf> {
    pub payload: &'buf [u8],
    pub checksum: u32,
}

impl<'buf> EncodedToken<'buf> {
    /// Wraps encoded payload bytes together with their CRC-32 checksum.
    pub fn new(payload: &'buf [u8]) -> (r: Self)
        ensures
            r.payload@ == payload@,
            r.checksum == crc32_of(payload@),
    {
        let checksum = crc32(payload);
        EncodedToken { payload, checksum }
    }

    /// The encoded payload bytes.
    pub fn payload(&self) -> (r: &'buf [u8])
        ensures
            r@ == self.payload@,
    {
        self.payload
    }

    /// The payload's CRC-32 checksum.
    pub fn checksum(&self) -> (r: u32)
        ensures
            r == self.checksum,
    {
        self.checksum
    }
}

} // verus!
