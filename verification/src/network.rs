//! Plain-value model of the messages exchanged between peer nodes.
//!
//! The HTTP fan-out that carries these messages is an external
//! collaborator; this module holds only the data and the one decision
//! the node makes when a message arrives.

use vstd::prelude::*;
use crate::clock::clock_now;
use crate::currency::Currency;
use crate::ids::fresh_u128;

verus! {

/// What part a node plays in the network.
#[derive(Clone, Copy, Debug, PartialEq, Eq, Structural)]
pub enum NodeRole {
    Issuer,
    Acquirer,
    Network,
}

/// A peer node.
#[derive(Clone, Debug)]
pub struct NetworkNode {
    /// Identity of the node.
    pub id: u128,
    /// Address the node is reached at.
    pub address: String,
    /// The part the node plays.
    pub role: NodeRole,
}

impl NetworkNode {
    /// A node record under a fresh random identity.
    pub fn new(address: String, role: NodeRole) -> (r: NetworkNode)
        ensures
            r.address@ == address@,
            r.role == role,
    {
        NetworkNode { id: fresh_u128(), address, role }
    }
}

/// A request to authorize a transaction on a peer node.
#[derive(Clone, Copy, Debug, PartialEq)]
pub struct TransactionRequest {
    pub transaction_id: u128,
    pub card_id: u128,
    pub merchant_id: u128,
    pub amount: u64,
    pub currency: Currency,
    pub timestamp: u64,
}

/// A peer's answer to a transaction request.
#[derive(Clone, Debug, PartialEq)]
pub struct TransactionResponse {
    pub transaction_id: u128,
    pub approved: bool,
    pub response_code: String,
    pub timestamp: u64,
}

/// A request to settle a batch with a peer node.
#[derive(Clone, Debug, PartialEq)]
pub struct SettlementRequest {
    pub batch_id: u128,
    pub transactions: Vec<u128>,
    pub total_amount: u64,
    pub currency: Currency,
    pub timestamp: u64,
}

/// A peer's answer to a settlement request.
#[derive(Clone, Copy, Debug, PartialEq)]
pub struct SettlementResponse {
    pub batch_id: u128,
    pub success: bool,
    pub timestamp: u64,
}

/// A liveness signal.
#[derive(Clone, Copy, Debug, PartialEq)]
pub struct Heartbeat {
    pub node_id: u128,
    pub timestamp: u64,
}

/// A message between peer nodes.
#[derive(Clone, Debug, PartialEq)]
pub enum NetworkMessage {
    TransactionRequest(TransactionRequest),
    TransactionResponse(TransactionResponse),
    SettlementRequest(SettlementRequest),
    SettlementResponse(SettlementResponse),
    Heartbeat(Heartbeat),
}

/// What a node answers to an incoming message: a heartbeat is answered
/// with a heartbeat of our own identity and timestamp, and every other
/// message is echoed back unchanged.
pub open spec fn spec_respond(
    message: NetworkMessage,
    node_id: u128,
    now_secs: u64,
) -> NetworkMessage {
    match message {
        NetworkMessage::Heartbeat(_) => NetworkMessage::Heartbeat(
            Heartbeat { node_id, timestamp: now_secs },
        ),
        _ => message,
    }
}

/// Answers an incoming message on behalf of node `node_id`, stamping a
/// heartbeat answer with the wall clock.
pub fn respond_to_message(message: NetworkMessage, node_id: u128) -> (r: NetworkMessage)
    ensures
        exists|now_secs: u64| r == spec_respond(message, node_id, now_secs),
{
    let now = clock_now();
    let ghost msg0 = message;
    let r = match message {
        NetworkMessage::Heartbeat(_) => NetworkMessage::Heartbeat(
            Heartbeat { node_id, timestamp: now.secs },
        ),
        other => other,
    };
    proof {
        assert(r == spec_respond(msg0, node_id, now.secs));
    }
    r
}

} // verus!
