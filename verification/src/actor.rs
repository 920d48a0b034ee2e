//! The answer of a peer to a request that reaches it.

use vstd::prelude::*;

verus! {

/// What a peer can be asked.
#[derive(Clone, Copy, Debug, PartialEq, Eq, Structural)]
pub enum Request {
    Ping,
}

/// What a peer can answer.
#[derive(Clone, Copy, Debug, PartialEq, Eq, Structural)]
pub enum Response {
    Pong,
}

/// A message that came in from the swarm.
#[derive(Debug, PartialEq, Eq)]
pub enum Inbound {
    /// A request of a peer. Only a request with an identifier can be
    /// answered.
    Req { peer_id: String, request_id: Option<u64>, request: Request },
    /// Anything else.
    Other,
}

/// A message to hand to the swarm.
#[derive(Debug, PartialEq, Eq)]
pub struct Outbound {
    pub peer_id: String,
    pub request_id: u64,
    pub response: Response,
}

/// What a message that may be there says, mathematically.
pub open spec fn spec_outbound(out: Option<Outbound>) -> Option<(Seq<char>, u64, Response)> {
    match out {
        Some(o) => Some((o.peer_id@, o.request_id, o.response)),
        None => None,
    }
}

/// The answer owed to a message: `Pong`, to the peer and under the
/// identifier of the request, for a `Ping` that has an identifier; nothing
/// for anything else.
pub open spec fn spec_respond(msg: Inbound) -> Option<(Seq<char>, u64, Response)> {
    match msg {
        Inbound::Req { peer_id, request_id: Some(id), request: Request::Ping } => Some(
            (peer_id@, id, Response::Pong),
        ),
        _ => None,
    }
}

/// The answer owed to a message that came in.
pub fn respond(msg: Inbound) -> (out: Option<Outbound>)
    ensures
        spec_outbound(out) == spec_respond(msg),
{
    match msg {
        Inbound::Req { peer_id, request_id: Some(id), request: Request::Ping } => Some(
            Outbound { peer_id, request_id: id, response: Response::Pong },
        ),
        _ => None,
    }
}

} // verus!
