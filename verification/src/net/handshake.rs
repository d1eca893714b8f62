//! What a server keeps of a client's handshake.

use crate::net::version::ProtocolVersion;
use crate::protocol::handshake::Handshake;
use vstd::prelude::*;

verus! {

/// The protocol version, server address and port that a client announced in
/// its handshake.
#[derive(Clone, Debug)]
pub struct ClientInfo {
    /// The client's protocol version.
    pub version: ProtocolVersion,
    /// The server address that the client used to connect.
    pub server_address: String,
    /// The server port that the client used to connect.
    pub server_port: u16,
}

impl From<Handshake> for ClientInfo {
    fn from(handshake: Handshake) -> (info: Self) {
        ClientInfo {
            version: ProtocolVersion(handshake.protocol_version),
            server_address: handshake.server_address,
            server_port: handshake.server_port,
        }
    }
}

impl vstd::std_specs::convert::FromSpecImpl<Handshake> for ClientInfo {
    open spec fn obeys_from_spec() -> bool {
        true
    }

    open spec fn from_spec(handshake: Handshake) -> ClientInfo {
        ClientInfo {
            version: ProtocolVersion(handshake.protocol_version),
            server_address: handshake.server_address,
            server_port: handshake.server_port,
        }
    }
}

/// The flow a client asks for in its handshake.
#[derive(Clone, Copy, PartialEq, Eq, Structural, Debug, Hash)]
pub enum NextState {
    /// The client just wants server information.
    Status,
    /// The client wants to log in and play.
    Login,
}

impl NextState {
    /// The flow a handshake's number stands for.
    pub open spec fn from_id_spec(id: i32) -> Option<NextState> {
        if id == 1 {
            Some(NextState::Status)
        } else if id == 2 {
            Some(NextState::Login)
        } else {
            None
        }
    }

    /// The flow a handshake's number stands for: `1` for status, `2` for
    /// login; no other number is one.
    pub fn from_id(id: i32) -> (r: Option<NextState>)
        ensures
            r == NextState::from_id_spec(id),
    {
        if id == 1 {
            Some(NextState::Status)
        } else if id == 2 {
            Some(NextState::Login)
        } else {
            None
        }
    }
}

/// How a handshake ends.
pub enum HandshakeOutcome {
    /// The client enters the flow it asked for, with what it announced.
    Enter(NextState, ClientInfo),
    /// There are no packets for that flow at the client's version: an
    /// internal server error.
    MissingRegistry(NextState),
    /// The handshake asks for no known flow.
    InvalidNextState,
}

/// Decides where a client goes after its handshake: into the status or
/// login flow it asked for, when there are packets for that flow at its
/// version (`has_status_registry`, `has_login_registry`).
pub fn handshake_step(handshake: Handshake, has_status_registry: bool, has_login_registry: bool) -> (r: HandshakeOutcome)
    ensures
        match NextState::from_id_spec(handshake.next_state) {
            None => r is InvalidNextState,
            Some(next) => if (next == NextState::Status && has_status_registry) || (next == NextState::Login
                && has_login_registry) {
                r matches HandshakeOutcome::Enter(n, info) && n == next && info.version == ProtocolVersion(
                    handshake.protocol_version,
                ) && info.server_address@ == handshake.server_address@ && info.server_port
                    == handshake.server_port
            } else {
                r matches HandshakeOutcome::MissingRegistry(n) && n == next
            },
        },
{
    match NextState::from_id(handshake.next_state) {
        None => HandshakeOutcome::InvalidNextState,
        Some(next) => {
            let present = match next {
                NextState::Status => has_status_registry,
                NextState::Login => has_login_registry,
            };
            if present {
                HandshakeOutcome::Enter(next, ClientInfo::from(handshake))
            } else {
                HandshakeOutcome::MissingRegistry(next)
            }
        },
    }
}

} // verus!
