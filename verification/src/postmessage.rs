//! Message serialization using the postcard wire format. Raw bytes
//! produced by this can be converted back with `postcard::from_bytes`.

use vstd::prelude::*;

verus! {

use crate::net::ToBytes;

/// The error reported when encoding fails. The allocating encoder never
/// reports one for strings; it exists because the conversion interface is
/// fallible for transports that can run out of buffer space.
#[derive(Debug, Clone, Copy, PartialEq, Eq, Structural)]
pub struct EncodeError;

/// The postcard encoding of a string: a byte sequence determined by the
/// string's characters alone.
pub uninterp spec fn postcard_encoding(s: Seq<char>) -> Seq<u8>;

/// Relies on `postcard::to_allocvec`: the encoding of a string is a
/// function of its characters alone, and serialization into a growable
/// vector never fails.
#[verifier::external_body]
fn postcard_string_bytes(message: &String) -> (r: Result<Vec<u8>, EncodeError>)
    ensures
        r is Ok,
        r matches Ok(bytes) ==> bytes@ == postcard_encoding(message@),
{
    postcard::to_allocvec(message).map_err(|_| EncodeError)
}

/// Serializer of messages into postcard bytes.
pub struct PostMessage;

impl ToBytes<String> for PostMessage {
    type Bytes = Vec<u8>;

    type Error = EncodeError;

    /// Encode the string; the bytes are a function of the string alone, so
    /// equal strings serialize equally, and decoding with postcard gives
    /// the string back.
    fn to_bytes(&self, message: &String) -> (r: Result<Vec<u8>, EncodeError>)
        ensures
            r is Ok,
            r matches Ok(bytes) ==> bytes@ == postcard_encoding(message@),
    {
        postcard_string_bytes(message)
    }
}

} // verus!
