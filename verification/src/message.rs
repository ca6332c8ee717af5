//! The wire unit of the gossip network: an envelope carrying a type tag, a
//! creation timestamp, an opaque serialized payload, and a fingerprint hash
//! of the three — the key the dedup buffer tracks.

use crate::hashing::{sha256_hex, sha256_hex_of};
use crate::text::{dec_of, u128_to_dec};
use vstd::prelude::*;

verus! {

#[derive(Debug, Clone, Copy, PartialEq, Eq, Structural)]
pub enum MessageType {
    Transaction,
    Block,
    Status,
    Connect,
}

/// The tag under which a message type enters the fingerprint preimage.
pub open spec fn type_tag_chars(t: MessageType) -> Seq<char> {
    match t {
        MessageType::Transaction => "Transaction"@,
        MessageType::Block => "Block"@,
        MessageType::Status => "Status"@,
        MessageType::Connect => "Connect"@,
    }
}

/// The fingerprint preimage of an envelope: type tag, payload, timestamp.
pub open spec fn message_preimage(t: MessageType, data: Seq<char>, timestamp: int) -> Seq<char> {
    type_tag_chars(t) + data + dec_of(timestamp)
}

/// The fingerprint of an envelope with the given parts.
pub open spec fn message_hash_chars(t: MessageType, data: Seq<char>, timestamp: int) -> Seq<
    char,
> {
    sha256_hex_of(message_preimage(t, data, timestamp))
}

#[derive(Debug, Clone)]
pub struct Message {
    pub message_type: MessageType,
    pub timestamp: u128,
    pub data: String,
    pub hash: String,
}

impl Message {
    /// The fingerprint its parts determine.
    pub open spec fn content_hash(self) -> Seq<char> {
        message_hash_chars(self.message_type, self.data@, self.timestamp as int)
    }

    /// The stored fingerprint is the one the parts determine.
    pub open spec fn well_formed(self) -> bool {
        self.hash@ == self.content_hash()
    }

    fn type_tag(t: MessageType) -> (r: &'static str)
        ensures
            r@ == type_tag_chars(t),
    {
        match t {
            MessageType::Transaction => "Transaction",
            MessageType::Block => "Block",
            MessageType::Status => "Status",
            MessageType::Connect => "Connect",
        }
    }

    pub fn calculate_hash(message_type: MessageType, data: &str, timestamp: u128) -> (r: String)
        ensures
            r@ == message_hash_chars(message_type, data@, timestamp as int),
            r@.len() == 64,
    {
        let mut input = Self::type_tag(message_type).to_owned();
        input.append(data);
        let timestamp_dec = u128_to_dec(timestamp);
        input.append(timestamp_dec.as_str());
        proof {
            assert(input@ =~= message_preimage(message_type, data@, timestamp as int));
        }
        sha256_hex(input.as_str())
    }

    /// Wraps a serialized payload in an envelope created at the given
    /// moment.
    pub fn new(message_type: MessageType, content: String, timestamp: u128) -> (m: Message)
        ensures
            m.message_type == message_type,
            m.timestamp == timestamp,
            m.data == content,
            m.well_formed(),
    {
        let hash = Self::calculate_hash(message_type, content.as_str(), timestamp);
        Message { message_type, timestamp, data: content, hash }
    }
}

/// The projection of an envelope that the dedup buffer stores: fingerprint
/// and creation time, with no reference back to the payload.
#[derive(Debug, Clone, PartialEq, Eq)]
pub struct BufMessage {
    pub timestamp: u128,
    pub hash: String,
}

impl BufMessage {
    /// A copy equal to the original, usable where contracts must track it.
    pub fn duplicate(&self) -> (b: BufMessage)
        ensures
            b == *self,
    {
        BufMessage { timestamp: self.timestamp, hash: self.hash.clone() }
    }

    pub fn new(message: &Message) -> (b: BufMessage)
        ensures
            b.timestamp == message.timestamp,
            b.hash == message.hash,
    {
        BufMessage { timestamp: message.timestamp, hash: message.hash.clone() }
    }
}

} // verus!
