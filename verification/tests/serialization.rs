//! Tests of the postcard byte serializer.

use pheromessage::net::ToBytes;
use pheromessage::postmessage::PostMessage;

#[test]
fn roundtrip() {
    let message = "Hello".to_owned();
    let bytes = PostMessage.to_bytes(&message).unwrap();
    let back: String = postcard::from_bytes(&bytes).unwrap();
    assert_eq!(&message, &back);
}

/// The empty string encodes to a single zero byte: its length as a varint
/// and nothing more.
#[test]
fn empty_string_encoding() {
    let message = String::new();
    let bytes = PostMessage.to_bytes(&message).unwrap();
    assert_eq!(vec![0u8], bytes);
}

/// The encoding is a function of the string alone: equal strings give
/// equal bytes, different strings different bytes.
#[test]
fn encoding_is_deterministic() {
    let first = PostMessage.to_bytes(&"goose".to_owned()).unwrap();
    let second = PostMessage.to_bytes(&"goose".to_owned()).unwrap();
    assert_eq!(first, second);
    let other = PostMessage.to_bytes(&"swan".to_owned()).unwrap();
    assert_ne!(first, other);
}
