//! The phase in which a client asks for the status of the server.
use crate::protocol::{Chat, Uuid};
use vstd::prelude::*;

verus! {

/// A player who is shown in the status.
#[derive(Debug, PartialEq)]
pub struct StatusSample {
    pub name: String,
    pub id: Uuid,
}

/// The players of a server.
#[derive(Debug, PartialEq)]
pub struct StatusPlayers {
    pub max: isize,
    pub online: isize,
    pub sample: Vec<StatusSample>,
}

/// The version of a server.
#[derive(Debug, PartialEq)]
pub struct StatusVersion {
    pub name: String,
    pub protocol: i32,
}

/// The status of a server.
#[derive(Debug, PartialEq)]
pub struct StatusResponse {
    pub description: Chat,
    pub players: StatusPlayers,
    pub version: StatusVersion,
    pub favicon: Option<String>,
    pub enforces_secure_chat: bool,
}

/// Why a client that asks for the status is not served.
#[derive(Clone, Copy, Debug, PartialEq, Eq, Structural)]
pub enum StatusError {
    /// The first packet is a ping.
    PingBeforeRequest,
    /// The second packet is a request.
    SecondRequest,
    /// The status cannot be had.
    NotBuilt,
}

/// Something that tells the status of a server with the given number of clients.
pub trait StatusBuilder {
    /// Whether the status can be asked for.
    spec fn ready(&self, client_count: usize) -> bool;

    /// Whether asking for the status can have the result.
    spec fn builds(&self, client_count: usize, r: Result<StatusResponse, StatusError>) -> bool;

    fn build(&self, client_count: usize) -> (r: Result<StatusResponse, StatusError>)
        requires
            self.ready(client_count),
        ensures
            self.builds(client_count, r),
    ;
}

/// Packets that a client sends when it asks for the status.
#[derive(Clone, Copy, Debug, PartialEq, Eq, Structural)]
pub enum ServerboundStatusRegistry {
    Request,
    Ping { payload: u64 },
}

/// Packets that the server sends to a client that asks for the status.
#[derive(Debug, PartialEq)]
pub enum ClientboundStatusRegistry {
    Response { response: StatusResponse },
    Pong { payload: u64 },
}

/// How far the exchange has come.
#[derive(Clone, Copy, Debug, PartialEq, Eq, Structural)]
pub enum StatusState {
    ExpectingRequest,
    ExpectingPing,
    Done,
}

/// Whether a packet of a client that asks for the status can have the answer.
pub open spec fn answers<F: StatusBuilder>(
    status_builder: F,
    client_count: usize,
    state: StatusState,
    packet: ServerboundStatusRegistry,
    r: Result<(ClientboundStatusRegistry, StatusState), StatusError>,
) -> bool {
    match (state, packet) {
        (StatusState::ExpectingRequest, ServerboundStatusRegistry::Request) => match r {
            Ok((ClientboundStatusRegistry::Response { response }, after)) => {
                &&& status_builder.builds(client_count, Ok(response))
                &&& after == StatusState::ExpectingPing
            },
            Ok(_) => false,
            Err(error) => status_builder.builds(client_count, Err(error)),
        },
        (StatusState::ExpectingRequest, ServerboundStatusRegistry::Ping { .. }) => {
            r == Err::<(ClientboundStatusRegistry, StatusState), StatusError>(
                StatusError::PingBeforeRequest,
            )
        },
        (_, ServerboundStatusRegistry::Request) => {
            r == Err::<(ClientboundStatusRegistry, StatusState), StatusError>(
                StatusError::SecondRequest,
            )
        },
        (_, ServerboundStatusRegistry::Ping { payload }) => {
            r == Ok::<(ClientboundStatusRegistry, StatusState), StatusError>(
                (ClientboundStatusRegistry::Pong { payload }, StatusState::Done),
            )
        },
    }
}

/// A client that asks for the status and then pings is told the status as it was built, and
/// then its own payload, which ends the exchange. Any other order is refused.
pub proof fn requests_come_before_pings<F: StatusBuilder>(
    status_builder: F,
    client_count: usize,
    payload: u64,
    first: Result<(ClientboundStatusRegistry, StatusState), StatusError>,
    packet: ServerboundStatusRegistry,
    second: Result<(ClientboundStatusRegistry, StatusState), StatusError>,
    early: Result<(ClientboundStatusRegistry, StatusState), StatusError>,
)
    requires
        answers(
            status_builder,
            client_count,
            StatusState::ExpectingRequest,
            ServerboundStatusRegistry::Request,
            first,
        ),
        first matches Ok((_, after)) ==> answers(
            status_builder,
            client_count,
            after,
            packet,
            second,
        ),
        answers(
            status_builder,
            client_count,
            StatusState::ExpectingRequest,
            ServerboundStatusRegistry::Ping { payload },
            early,
        ),
    ensures
        match first {
            Ok((answer, _)) => {
                &&& answer matches ClientboundStatusRegistry::Response { response }
                    && status_builder.builds(client_count, Ok(response))
                &&& match packet {
                    ServerboundStatusRegistry::Request => second matches Err(
                        StatusError::SecondRequest,
                    ),
                    ServerboundStatusRegistry::Ping { payload: sent } => second matches Ok(
                        (ClientboundStatusRegistry::Pong { payload: back }, StatusState::Done),
                    ) && back == sent,
                }
            },
            Err(error) => status_builder.builds(client_count, Err(error)),
        },
        early matches Err(StatusError::PingBeforeRequest),
{
}

/// Answers a packet of a client that asks for the status: first the request, then the ping.
pub fn accept_status_client<F: StatusBuilder>(
    status_builder: &F,
    client_count: usize,
    state: StatusState,
    packet: ServerboundStatusRegistry,
) -> (r: Result<(ClientboundStatusRegistry, StatusState), StatusError>)
    requires
        state != StatusState::Done,
        state == StatusState::ExpectingRequest && packet == ServerboundStatusRegistry::Request
            ==> status_builder.ready(client_count),
    ensures
        answers(*status_builder, client_count, state, packet, r),
        match (state, packet) {
            (StatusState::ExpectingRequest, ServerboundStatusRegistry::Request) => match r {
                Ok((ClientboundStatusRegistry::Response { response }, after)) => {
                    &&& status_builder.builds(client_count, Ok(response))
                    &&& after == StatusState::ExpectingPing
                },
                Ok(_) => false,
                Err(error) => status_builder.builds(client_count, Err(error)),
            },
            (StatusState::ExpectingRequest, ServerboundStatusRegistry::Ping { .. }) => {
                r == Err::<(ClientboundStatusRegistry, StatusState), StatusError>(
                    StatusError::PingBeforeRequest,
                )
            },
            (_, ServerboundStatusRegistry::Request) => {
                r == Err::<(ClientboundStatusRegistry, StatusState), StatusError>(
                    StatusError::SecondRequest,
                )
            },
            (_, ServerboundStatusRegistry::Ping { payload }) => {
                r == Ok::<(ClientboundStatusRegistry, StatusState), StatusError>(
                    (ClientboundStatusRegistry::Pong { payload }, StatusState::Done),
                )
            },
        },
{
    match state {
        StatusState::ExpectingRequest => match packet {
            ServerboundStatusRegistry::Request => match status_builder.build(client_count) {
                Ok(response) => Ok(
                    (
                        ClientboundStatusRegistry::Response { response },
                        StatusState::ExpectingPing,
                    ),
                ),
                Err(error) => Err(error),
            },
            ServerboundStatusRegistry::Ping { .. } => Err(StatusError::PingBeforeRequest),
        },
        _ => match packet {
            ServerboundStatusRegistry::Request => Err(StatusError::SecondRequest),
            ServerboundStatusRegistry::Ping { payload } => Ok(
                (ClientboundStatusRegistry::Pong { payload }, StatusState::Done),
            ),
        },
    }
}

} // verus!
