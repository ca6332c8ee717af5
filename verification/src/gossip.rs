//! The acceptance rule of the gossip transport. Every envelope read from a
//! peer passes through `handle_inbound`: a fingerprint already tracked is
//! dropped before anything else happens — the check that terminates
//! re-broadcast storms — and a new one is tracked, routed by its type, and
//! marked for relay and for the status acknowledgement.

use crate::buffer::{buf_contains_hash, BufferMessage};
use crate::message::{BufMessage, Message, MessageType};
use vstd::prelude::*;

verus! {

/// Where an accepted envelope's payload is handed.
#[derive(Debug, Clone, Copy, PartialEq, Eq, Structural)]
pub enum Route {
    ToMempool,
    ToLedger,
    Nowhere,
}

/// What a connection task does with one inbound envelope.
#[derive(Debug, Clone, Copy, PartialEq, Eq, Structural)]
pub struct Disposition {
    /// The envelope was new; false means it was dropped as a duplicate.
    pub accepted: bool,
    /// Where the payload goes: transactions to the mempool, blocks to the
    /// ledger, pings and connection requests nowhere.
    pub route: Route,
    /// Whether the envelope is re-published to every connected peer.
    pub relay: bool,
    /// Whether the peer is acknowledged with a status envelope.
    pub reply_status: bool,
}

/// The routing rule by envelope type.
pub open spec fn route_of(t: MessageType) -> Route {
    match t {
        MessageType::Transaction => Route::ToMempool,
        MessageType::Block => Route::ToLedger,
        MessageType::Status => Route::Nowhere,
        MessageType::Connect => Route::Nowhere,
    }
}

/// Only payload-bearing envelopes are relayed onward.
pub open spec fn relays(t: MessageType) -> bool {
    t == MessageType::Transaction || t == MessageType::Block
}

/// Every envelope but a status ping is acknowledged.
pub open spec fn replies_status(t: MessageType) -> bool {
    t != MessageType::Status
}

/// Decides the fate of one inbound envelope and tracks its fingerprint.
/// A duplicate is dropped whole: not routed, not relayed, not acknowledged,
/// and the buffer is left as it was.
pub fn handle_inbound(buffer: &mut BufferMessage, message: &Message) -> (d: Disposition)
    requires
        old(buffer).inv(),
    ensures
        final(buffer).inv(),
        d.accepted == !buf_contains_hash(old(buffer)@, message.hash@),
        !d.accepted ==> final(buffer)@ == old(buffer)@ && d.route == Route::Nowhere && !d.relay
            && !d.reply_status,
        d.accepted ==> final(buffer)@ == old(buffer)@.push(
            (BufMessage { timestamp: message.timestamp, hash: message.hash }),
        ),
        d.accepted ==> d.route == route_of(message.message_type) && d.relay == relays(
            message.message_type,
        ) && d.reply_status == replies_status(message.message_type),
{
    if buffer.seen(&message.hash) {
        return Disposition { accepted: false, route: Route::Nowhere, relay: false, reply_status: false };
    }
    buffer.record(message);
    let route = match message.message_type {
        MessageType::Transaction => Route::ToMempool,
        MessageType::Block => Route::ToLedger,
        MessageType::Status => Route::Nowhere,
        MessageType::Connect => Route::Nowhere,
    };
    let relay = match message.message_type {
        MessageType::Transaction => true,
        MessageType::Block => true,
        MessageType::Status => false,
        MessageType::Connect => false,
    };
    let reply_status = match message.message_type {
        MessageType::Status => false,
        _ => true,
    };
    Disposition { accepted: true, route, relay, reply_status }
}

} // verus!
