//! The diagnostic ping protocol: the messages and the reply decision. The
//! surrounding process owns the sockets and the byte encoding.

use vstd::prelude::*;

verus! {

/// What a diagnostic client sends.
#[derive(Clone, Copy, PartialEq, Eq, Structural, Debug)]
pub enum FromClientMessage {
    Ping,
}

/// What the server answers.
#[derive(Clone, Copy, PartialEq, Eq, Structural, Debug)]
pub enum FromServerMessage {
    /// The ping count so far, for connection-oriented transports.
    Pong(usize),
    /// For transports that keep no per-connection state.
    UnknownPong,
}

/// Answer one client message: a known connection's ping bumps its count
/// and is answered with it; an unknown connection gets the stateless
/// reply. Returns the reply and the new count, where one is tracked.
pub fn handle_client_message(msg: FromClientMessage, count: Option<usize>) -> (r: (FromServerMessage, Option<usize>))
    ensures
        match count {
            Some(c) => {
                &&& r.0 == FromServerMessage::Pong(if c < usize::MAX { (c + 1) as usize } else { c })
                &&& r.1 == Some(if c < usize::MAX { (c + 1) as usize } else { c })
            },
            None => r.0 == FromServerMessage::UnknownPong && r.1 is None,
        },
{
    match msg {
        FromClientMessage::Ping => match count {
            Some(c) => {
                let nc = if c < usize::MAX { c + 1 } else { c };
                (FromServerMessage::Pong(nc), Some(nc))
            }
            None => (FromServerMessage::UnknownPong, None),
        },
    }
}

} // verus!
