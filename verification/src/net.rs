//! The byte-serialization interface and the error kind used by network
//! transports. The transports themselves (such as delivery over UDP
//! sockets) live outside the library and plug in through these types.

use vstd::prelude::*;

verus! {

/// A converter of messages (of type `M`) to raw bytes that can be sent over
/// a network.
pub trait ToBytes<M> {
    /// The concrete type of the raw bytes (e.g. `Vec<u8>`).
    type Bytes;

    /// The type of error that can happen while converting.
    type Error;

    /// Convert the message to raw bytes.
    fn to_bytes(&self, message: &M) -> Result<Self::Bytes, Self::Error>;
}

/// The standard I/O error, carried opaquely inside a delivery error.
#[verifier::external_type_specification]
#[verifier::external_body]
pub struct ExIoError(std::io::Error);

/// Error while delivering a message over the network.
#[derive(Debug)]
pub enum Error<E> {
    /// A serialization error while converting the message to raw bytes.
    Serialization(E),
    /// A send error while sending the message over the network.
    Send(std::io::Error),
}

} // verus!
