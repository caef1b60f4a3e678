//! The phases of a connection: what the client asks for, and what follows.
use vstd::prelude::*;

pub mod login;
pub mod play;
pub mod status;

verus! {

/// An address that a connection comes from or goes to.
#[allow(inconsistent_fields)]
#[derive(Clone, Copy, Debug, PartialEq, Eq, Structural)]
pub enum SocketAddr {
    V4 { ip: u32, port: u16 },
    V6 { ip: u128, port: u16, flowinfo: u32, scope_id: u32 },
}

/// The compression threshold that a connection starts with.
pub const DEFAULT_COMPRESSION_THRESHOLD: i32 = 32767;

/// What is known of a connection before the login.
#[derive(Debug, PartialEq)]
pub struct ConnectionInformation {
    pub protocol_version: i32,
    pub address: SocketAddr,
    pub virtual_host: String,
    pub virtual_port: u16,
    pub compression_threshold: Option<i32>,
}

impl Clone for ConnectionInformation {
    fn clone(&self) -> (copy: ConnectionInformation)
        ensures
            copy == *self,
    {
        ConnectionInformation {
            protocol_version: self.protocol_version,
            address: self.address,
            virtual_host: self.virtual_host.clone(),
            virtual_port: self.virtual_port,
            compression_threshold: self.compression_threshold,
        }
    }
}

/// What a client asks for in its first packet.
#[derive(Clone, Copy, Debug, PartialEq, Eq, Structural)]
pub enum ConnectionProtocol {
    Play,
    Status,
    Login,
}

/// The first packet of a client.
#[derive(Debug, PartialEq)]
pub enum HandshakingRegistry {
    ClientIntention {
        protocol_version: i32,
        host_name: String,
        port: u16,
        intention: ConnectionProtocol,
    },
}

/// The phase that follows the first packet.
#[derive(Debug, PartialEq)]
pub enum NextPhase {
    /// The client asks for the status of the server.
    Status,
    /// The client logs in.
    Login { connection_info: ConnectionInformation },
}

/// Why a first packet is refused.
#[derive(Clone, Copy, Debug, PartialEq, Eq, Structural)]
pub enum HandshakeError {
    /// The client asks to play without a login.
    PlayViaHandshake,
}

/// The phase that follows a first packet from an address.
pub open spec fn next_phase(
    intention_packet: HandshakingRegistry,
    client_addr: SocketAddr,
) -> Result<NextPhase, HandshakeError> {
    let HandshakingRegistry::ClientIntention { protocol_version, host_name, port, intention } =
        intention_packet;
    match intention {
        ConnectionProtocol::Play => Err(HandshakeError::PlayViaHandshake),
        ConnectionProtocol::Status => Ok(NextPhase::Status),
        ConnectionProtocol::Login => Ok(
            NextPhase::Login {
                connection_info: ConnectionInformation {
                    protocol_version,
                    address: client_addr,
                    virtual_host: host_name,
                    virtual_port: port,
                    compression_threshold: Some(DEFAULT_COMPRESSION_THRESHOLD),
                },
            },
        ),
    }
}

/// A client gets the phase that it asks for, except that nobody plays without a login. What
/// is known of one that logs in is what it said, where it comes from, and the compression
/// threshold that every connection starts with.
pub proof fn clients_get_the_phase_they_ask_for(
    intention_packet: HandshakingRegistry,
    client_addr: SocketAddr,
)
    ensures
        next_phase(intention_packet, client_addr) is Err <==> intention_packet->intention is Play,
        next_phase(intention_packet, client_addr) matches Ok(NextPhase::Status)
            <==> intention_packet->intention is Status,
        intention_packet->intention is Login ==> (next_phase(
            intention_packet,
            client_addr,
        ) matches Ok(NextPhase::Login { connection_info }) && {
            &&& connection_info.protocol_version == intention_packet->protocol_version
            &&& connection_info.virtual_host == intention_packet->host_name
            &&& connection_info.virtual_port == intention_packet->port
            &&& connection_info.address == client_addr
            &&& connection_info.compression_threshold == Some(32767i32)
        }),
{
}

/// Reads off the first packet what the client asks for.
pub fn process_handshake(intention_packet: HandshakingRegistry, client_addr: SocketAddr) -> (r:
    Result<NextPhase, HandshakeError>)
    ensures
        match intention_packet {
            HandshakingRegistry::ClientIntention {
                protocol_version,
                host_name,
                port,
                intention,
            } => match intention {
                ConnectionProtocol::Play => r == Err::<NextPhase, HandshakeError>(
                    HandshakeError::PlayViaHandshake,
                ),
                ConnectionProtocol::Status => r == Ok::<NextPhase, HandshakeError>(
                    NextPhase::Status,
                ),
                ConnectionProtocol::Login => r == Ok::<NextPhase, HandshakeError>(
                    NextPhase::Login {
                        connection_info: ConnectionInformation {
                            protocol_version,
                            address: client_addr,
                            virtual_host: host_name,
                            virtual_port: port,
                            compression_threshold: Some(DEFAULT_COMPRESSION_THRESHOLD),
                        },
                    },
                ),
            },
        },
        r == next_phase(intention_packet, client_addr),
        r matches Ok(NextPhase::Login { connection_info })
            ==> connection_info.compression_threshold == Some(32767i32),
{
    let HandshakingRegistry::ClientIntention { protocol_version, host_name, port, intention } =
        intention_packet;
    match intention {
        ConnectionProtocol::Play => Err(HandshakeError::PlayViaHandshake),
        ConnectionProtocol::Status => Ok(NextPhase::Status),
        ConnectionProtocol::Login => Ok(
            NextPhase::Login {
                connection_info: ConnectionInformation {
                    protocol_version,
                    address: client_addr,
                    virtual_host: host_name,
                    virtual_port: port,
                    compression_threshold: Some(DEFAULT_COMPRESSION_THRESHOLD),
                },
            },
        ),
    }
}

} // verus!
