use shovel::client::MCConnection;
use shovel::crypto::MCPrivateKey;
use shovel::phase::status::{
    accept_status_client, ClientboundStatusRegistry, ServerboundStatusRegistry, StatusBuilder,
    StatusError, StatusResponse, StatusState,
};
use shovel::phase::{ConnectionInformation, SocketAddr};
use shovel::protocol::{
    Angle, Chat, ClientboundLoginRegistry, GameProfile, Location, SimpleLocation,
};
use shovel::server::{
    status_builder, BasicStatusResponse, MCServer, MCServerStatusBuilder, ServerError,
    StatusBuilderWrapper, Welcome,
};
use shovel::system::TickResult;

fn chat(text: &str) -> Chat {
    Chat { json: format!("{{\"text\":\"{text}\"}}") }
}

fn basic() -> BasicStatusResponse {
    BasicStatusResponse { description: chat("Sample Motd") }
}

fn key() -> MCPrivateKey {
    MCPrivateKey { n: vec![15], e: vec![3], d: vec![3], primes: vec![vec![3], vec![5]] }
}

struct Broken;

impl StatusBuilder for Broken {
    fn ready(&self, _: usize) -> bool {
        unreachable!()
    }

    fn builds(&self, _: usize, _: Result<StatusResponse, StatusError>) -> bool {
        unreachable!()
    }

    fn build(&self, _: usize) -> Result<StatusResponse, StatusError> {
        Err(StatusError::NotBuilt)
    }
}

#[test]
fn status_is_told_then_pings_are_answered() {
    let builder = StatusBuilderWrapper { builder: basic() };
    let (packet, state) = accept_status_client(
        &builder,
        3,
        StatusState::ExpectingRequest,
        ServerboundStatusRegistry::Request,
    )
    .unwrap();
    assert_eq!(state, StatusState::ExpectingPing);
    match packet {
        ClientboundStatusRegistry::Response { response } => {
            assert_eq!(response.description, chat("Sample Motd"));
            assert_eq!(response.players.max, 200);
            assert_eq!(response.players.online, 3);
            assert!(response.players.sample.is_empty());
            assert_eq!(response.version.name, "1.19.3");
            assert_eq!(response.version.protocol, 761);
            assert_eq!(response.favicon, None);
            assert!(!response.enforces_secure_chat);
        }
        other => panic!("{other:?}"),
    }
    assert_eq!(
        accept_status_client(&builder, 3, state, ServerboundStatusRegistry::Ping { payload: 99 }),
        Ok((ClientboundStatusRegistry::Pong { payload: 99 }, StatusState::Done))
    );
}

#[test]
fn status_packets_out_of_turn_are_refused() {
    let builder = StatusBuilderWrapper { builder: basic() };
    assert_eq!(
        accept_status_client(
            &builder,
            0,
            StatusState::ExpectingRequest,
            ServerboundStatusRegistry::Ping { payload: 1 }
        ),
        Err(StatusError::PingBeforeRequest)
    );
    assert_eq!(
        accept_status_client(
            &builder,
            0,
            StatusState::ExpectingPing,
            ServerboundStatusRegistry::Request
        ),
        Err(StatusError::SecondRequest)
    );
}

#[test]
fn status_that_cannot_be_had_is_not_told() {
    assert_eq!(
        accept_status_client(
            &Broken,
            0,
            StatusState::ExpectingRequest,
            ServerboundStatusRegistry::Request
        ),
        Err(StatusError::NotBuilt)
    );
}

#[test]
fn status_can_be_told_by_a_function() {
    let function = |online: isize| {
        status_builder(chat("f"), 5, online, vec![], Some("icon".to_string()), true)
    };
    let response = function.build_status(4).unwrap();
    assert_eq!(response.players.online, 4);
    assert_eq!(response.players.max, 5);
    assert_eq!(response.favicon, Some("icon".to_string()));
    assert!(response.enforces_secure_chat);
}

#[test]
fn new_servers_have_their_defaults() {
    assert!(MCServer::new().key != MCServer::new().key);
    let server = MCServer::default();
    assert_eq!(server.key.n.len(), 128);
    assert!(server.key.n[0] >= 0x80);
    assert_eq!(server.key.e, vec![1, 0, 1]);
    assert!(server.key.is_valid());
    assert!(server.status_builder.is_none());
    assert_eq!((server.client_count, server.entity_count), (0, 0));
    assert_eq!(server.bind, "0.0.0.0:25565");
    assert_eq!(server.chunk_radius, 8);
    assert_eq!(server.compression_threshold, None);
    assert_eq!(server.initial_location.inner_loc, SimpleLocation { x: 0, y: 0, z: 0 });
    assert_eq!(f64::from_bits(server.initial_location.inner_loc.x), 0.0);
}

#[test]
fn servers_are_built() {
    let loc = Location {
        inner_loc: SimpleLocation { x: 1, y: 2, z: 3 },
        yaw: Angle { bits: 4, steps: 5 },
        pitch: Angle { bits: 6, steps: 7 },
    };
    let server = MCServer::with_key(key())
        .bind("127.0.0.1:1".to_string())
        .chunk_radius(4)
        .compression_threshold(Some(64))
        .initial_location(loc);
    assert_eq!(server.required_status_builder().err(), Some(ServerError::NoStatusBuilder));
    let server = server.build_mc_status(basic());
    assert!(server.required_status_builder().is_ok());
    assert_eq!(server.bind, "127.0.0.1:1");
    assert_eq!(server.chunk_radius, 4);
    assert_eq!(server.compression_threshold, Some(64));
    assert_eq!(server.initial_location, loc);
    assert_eq!(server.key, key());
    let server = server.build_status(Broken);
    assert!(server.required_status_builder().is_ok());
}

#[test]
fn clients_are_counted() {
    let mut server = MCServer::with_key(key());
    assert_eq!(server.admit_client(), 0);
    assert_eq!(server.admit_client(), 1);
    assert_eq!(server.client_count, 2);
    server.release_client();
    assert_eq!(server.client_count, 1);
    assert_eq!(server.admit_client(), 2);
    server.entity_count = i32::MAX;
    assert_eq!(server.admit_client(), i32::MAX);
    assert_eq!(server.entity_count, i32::MIN);
}

#[test]
fn systems_stop_when_they_say_so() {
    assert!(TickResult::Stop.stops());
    assert!(!TickResult::Continue.stops());
    assert!(TickResult::Continue < TickResult::Stop);
}

fn connection(name: &str) -> MCConnection<(), (), ()> {
    MCConnection::new(
        None,
        |_: &[u8]| (),
        (),
        (),
        ConnectionInformation {
            protocol_version: 761,
            address: SocketAddr::V4 { ip: 0x7f00_0001, port: 50000 },
            virtual_host: "localhost".to_string(),
            virtual_port: 25565,
            compression_threshold: None,
        },
        GameProfile { id: 1, name: name.to_string(), properties: vec![] },
    )
}

#[test]
fn clients_that_join_are_given_ids_in_turn() {
    let mut server = MCServer::with_key(key()).chunk_radius(3);
    let mut ids = Vec::new();
    for visit in ["a", "", "b", "", "", "c"] {
        let connection = (!visit.is_empty()).then_some(visit).map(connection);
        match server.welcome(connection) {
            Welcome::Passed => assert!(visit.is_empty()),
            Welcome::Dropped | Welcome::Compressing { .. } => panic!("not joined"),
            Welcome::Joined { packet, player } => {
                assert_eq!(
                    packet,
                    ClientboundLoginRegistry::LoginGameProfile {
                        game_profile: GameProfile {
                            id: 1,
                            name: visit.to_string(),
                            properties: vec![],
                        },
                    }
                );
                assert!(player.server_player.logged_in);
                assert_eq!(player.current_player_position, server.initial_location);
                assert_eq!(
                    player.pending_position.pending_teleport,
                    Some((server.initial_location, 0))
                );
                ids.push(player.entity_id);
            }
        }
    }
    assert_eq!(ids, vec![0, 1, 2]);
    assert_eq!((server.client_count, server.entity_count), (3, 3));
    server.release_client();
    assert_eq!((server.client_count, server.entity_count), (2, 3));
}

#[test]
fn clients_that_have_logged_in_already_are_dropped() {
    let mut server = MCServer::with_key(key());
    let mut joined = connection("a");
    joined.set_logged_in();
    assert!(matches!(server.welcome(Some(joined)), Welcome::Dropped));
    assert_eq!((server.client_count, server.entity_count), (1, 1));
}

#[test]
fn compression_is_turned_on_before_a_login_is_complete() {
    let mut server = MCServer::with_key(key()).compression_threshold(Some(64));
    match server.welcome(Some(connection("a"))) {
        Welcome::Compressing { packet, connection } => {
            assert_eq!(packet, ClientboundLoginRegistry::LoginCompression { threshold: 64 });
            assert_eq!(connection.compression_threshold, Some(64));
            assert!(!connection.logged_in);
        }
        _ => panic!("not compressing"),
    }
    assert_eq!((server.client_count, server.entity_count), (1, 1));
    let mut joined = connection("b");
    joined.set_logged_in();
    assert!(matches!(server.welcome(Some(joined)), Welcome::Dropped));
}
