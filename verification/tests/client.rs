use shovel::client::{
    Condition, ConditionalPacket, ConnectionError, MCConnection, PacketReader, PendingPosition,
    ProcessedPlayer, ReadAction, Recipient, ServerboundPlayRegistry, WrappedPacketWriter,
};
use shovel::codec::CodecError;
use shovel::phase::play::ClientLoginProperties;
use shovel::phase::{ConnectionInformation, SocketAddr};
use shovel::protocol::{
    Angle, BlockPos, ClientboundLoginRegistry, ClientboundPlayRegistry, GameProfile, Location,
    PacketSend, SimpleLocation,
};

fn angle(degrees: f32) -> Angle {
    Angle { bits: degrees.to_bits(), steps: f32::floor((degrees * 256.0) / 360.0) as i32 }
}

fn at(x: f64, y: f64, z: f64) -> Location {
    Location {
        inner_loc: SimpleLocation { x: x.to_bits(), y: y.to_bits(), z: z.to_bits() },
        yaw: angle(0.0),
        pitch: angle(0.0),
    }
}

fn info() -> ConnectionInformation {
    ConnectionInformation {
        protocol_version: 761,
        address: SocketAddr::V4 { ip: 0x7f00_0001, port: 50000 },
        virtual_host: "localhost".to_string(),
        virtual_port: 25565,
        compression_threshold: Some(32767),
    }
}

fn profile() -> GameProfile {
    GameProfile { id: 42, name: "Notch".to_string(), properties: vec![] }
}

fn connection() -> MCConnection<&'static str, &'static str, u8> {
    MCConnection::new(Some(&[7, 8]), |key: &[u8]| key[0], "reader", "writer", info(), profile())
}

fn properties() -> ClientLoginProperties {
    ClientLoginProperties {
        hardcore: false,
        game_type: 1,
        previous_game_type: 255,
        seed: 9,
        max_players: 20,
        chunk_radius: 8,
        simulation_distance: 6,
        reduced_debug_info: false,
        show_death_screen: true,
        is_debug: false,
        is_flat: true,
        last_death_location: None,
    }
}

fn pending() -> PendingPosition {
    PendingPosition {
        location: at(0.0, 64.0, 0.0),
        pending_teleport: None,
        on_ground: false,
        is_loaded: false,
    }
}

#[test]
fn ciphers_are_attached_to_writers() {
    let mut writer: WrappedPacketWriter<i32, u8> = WrappedPacketWriter::new(5);
    assert_eq!(writer.cipher, None);
    writer.attach_cipher(7);
    {
        let (inner, cipher) = writer.write_and_cipher();
        *inner = 6;
        *cipher.unwrap() = 8;
    }
    assert_eq!(writer.cipher, Some(8));
    assert_eq!(writer.into_inner(), 6);
}

#[test]
fn connections_start_before_the_end_of_the_login() {
    let connection = connection();
    assert_eq!(connection.compression_threshold, None);
    assert!(!connection.logged_in);
}

#[test]
fn logins_complete_once() {
    let (packet, processed) =
        ProcessedPlayer::bootstrap_client(None, connection(), at(1.0, 2.0, 3.0), 11)
            .ok()
            .unwrap();
    assert_eq!(
        packet,
        ClientboundLoginRegistry::LoginGameProfile { game_profile: profile() }
    );
    assert_eq!(processed.entity_id, 11);
    assert_eq!(processed.pending_position.pending_teleport, Some((at(1.0, 2.0, 3.0), 0)));
    assert!(!processed.pending_position.is_loaded);
    assert_eq!(
        processed.server_player.complete_login(),
        Err(ConnectionError::AlreadyLoggedIn)
    );
    let again =
        ProcessedPlayer::bootstrap_client(None, processed.server_player, at(1.0, 2.0, 3.0), 12);
    assert_eq!(again.err(), Some(ConnectionError::AlreadyLoggedIn));
}

#[test]
fn compression_is_announced() {
    let mut connection = connection();
    assert_eq!(
        connection.compress_and_complete_login(256),
        Ok(ClientboundLoginRegistry::LoginCompression { threshold: 256 })
    );
    assert_eq!(connection.compression_threshold, Some(256));
    connection.set_logged_in();
    assert_eq!(
        connection.compress_and_complete_login(512),
        Err(ConnectionError::AlreadyLoggedIn)
    );
    assert_eq!(connection.compression_threshold, Some(256));
}

#[test]
fn clients_are_moved_into_the_game() {
    let (_, processed) =
        ProcessedPlayer::bootstrap_client(None, connection(), at(-1.9, 64.7, 3.0), 11)
            .ok()
            .unwrap();
    let (packets, result) = processed.send_client_login("shovel", properties(), None);
    assert_eq!(result, Ok(()));
    assert_eq!(packets.len(), 4);
    match &packets[0] {
        ClientboundPlayRegistry::ClientLogin { player_id, levels, dimension, seed, .. } => {
            assert_eq!(*player_id, 11);
            assert_eq!(
                *levels,
                vec!["minecraft:overworld", "minecraft:the_end", "minecraft:the_nether"]
            );
            assert_eq!(dimension, "minecraft:overworld");
            assert_eq!(*seed, 9);
        }
        other => panic!("{other:?}"),
    }
    assert_eq!(packets[1], ClientboundPlayRegistry::KeepAlive { id: 0 });
    assert_eq!(
        packets[2],
        ClientboundPlayRegistry::CustomPayload {
            identifier: "minecraft:brand".to_string(),
            data: vec![6, b's', b'h', b'o', b'v', b'e', b'l'],
        }
    );
    assert_eq!(
        packets[3],
        ClientboundPlayRegistry::SetDefaultSpawnPosition {
            pos: BlockPos { x: -1, y: 64, z: 3 },
            angle: 0,
        }
    );
}

#[test]
fn brands_that_are_too_long_end_the_login() {
    let (_, processed) =
        ProcessedPlayer::bootstrap_client(None, connection(), at(0.0, 0.0, 0.0), 11).ok().unwrap();
    let brand = "b".repeat(131069);
    let (packets, result) = processed.send_client_login(&brand, properties(), None);
    assert_eq!(result, Err(CodecError::LimitExceeded));
    assert_eq!(packets.len(), 2);
}

#[test]
fn clients_start_to_play_with_nothing() {
    let (_, processed) =
        ProcessedPlayer::bootstrap_client(None, connection(), at(1.0, 2.0, 3.0), 11)
            .ok()
            .unwrap();
    let session = processed.keep_alive(PacketSend { channel: 3 });
    assert_eq!(session.packet_reader, PacketReader::new());
    assert_eq!(session.reader, "reader");
    assert_eq!(session.writer.writer, "writer");
    assert_eq!(session.cipher, Some(7));
    assert!(session.player.packets.active);
    assert_eq!(session.player.packets.clone_writer(), PacketSend { channel: 3 });
    assert_eq!(session.player.position, at(1.0, 2.0, 3.0));
    assert_eq!(session.player.username(), "Notch");
    assert!(!session.player.is_loaded());
    assert!(!session.player.knows_chunk(0, 0));
}

#[test]
fn signs_of_life_are_asked_for_in_turn() {
    let mut reader = PacketReader::new();
    let mut position = pending();
    for id in 0..5 {
        assert_eq!(
            reader.receive(&mut position, ServerboundPlayRegistry::KeepAlive { keep_alive_id: id }),
            ReadAction::ScheduleKeepAlive { id: id + 1 }
        );
    }
    assert_eq!(
        reader.receive(&mut position, ServerboundPlayRegistry::KeepAlive { keep_alive_id: 4 }),
        ReadAction::Stop
    );
    assert_eq!(position, pending());
}

#[test]
fn moves_are_taken_over() {
    let mut reader = PacketReader::new();
    let mut position = pending();
    let action = reader.receive(
        &mut position,
        ServerboundPlayRegistry::MovePlayerPosRot {
            x: 1.5f64.to_bits(),
            y: 65.0f64.to_bits(),
            z: (-2.5f64).to_bits(),
            x_rot: angle(10.0),
            y_rot: angle(90.0),
            on_ground: true,
        },
    );
    assert_eq!(action, ReadAction::Continue);
    assert_eq!(position.location.inner_loc, at(1.5, 65.0, -2.5).inner_loc);
    assert_eq!(position.location.yaw, angle(90.0));
    assert_eq!(position.location.pitch, angle(10.0));
    assert!(position.on_ground && position.is_loaded);

    reader.receive(
        &mut position,
        ServerboundPlayRegistry::MovePlayerRot {
            x_rot: angle(-10.0),
            y_rot: angle(-90.0),
            on_ground: false,
        },
    );
    assert_eq!(position.location.yaw, angle(-90.0));
    assert_eq!(position.location.pitch, angle(-10.0));
    assert_eq!(position.location.inner_loc, at(1.5, 65.0, -2.5).inner_loc);
    assert!(!position.on_ground);

    reader.receive(&mut position, ServerboundPlayRegistry::MovePlayerStatusOnly { status: 2 });
    assert!(position.on_ground);
    reader.receive(&mut position, ServerboundPlayRegistry::MovePlayerStatusOnly { status: 0 });
    assert!(!position.on_ground);
}

#[test]
fn moves_stay_in_the_world() {
    let mut reader = PacketReader::new();
    let mut position = pending();
    reader.receive(
        &mut position,
        ServerboundPlayRegistry::MovePlayerPos {
            x: 1e9f64.to_bits(),
            y: (-1e9f64).to_bits(),
            z: (-3.1e7f64).to_bits(),
            on_ground: true,
        },
    );
    assert_eq!(position.location.inner_loc, at(3.0e7, -2.0e7, -3.0e7).inner_loc);
}

#[test]
fn pending_teleports_hold_clients() {
    let mut reader = PacketReader::new();
    let target = at(100.0, 70.0, 100.0);
    let mut position = PendingPosition { pending_teleport: Some((target, 5)), ..pending() };
    let held = position;
    let away = || ServerboundPlayRegistry::MovePlayerPos {
        x: 1.0f64.to_bits(),
        y: 1.0f64.to_bits(),
        z: 1.0f64.to_bits(),
        on_ground: true,
    };
    reader.receive(&mut position, away());
    assert_eq!(position, held);
    reader.receive(
        &mut position,
        ServerboundPlayRegistry::AcceptTeleportation { teleportation_id: 4 },
    );
    assert_eq!(position, held);
    reader.receive(
        &mut position,
        ServerboundPlayRegistry::AcceptTeleportation { teleportation_id: 5 },
    );
    assert_eq!(position.location, target);
    assert_eq!(position.pending_teleport, None);
    assert!(!position.is_loaded);
    reader.receive(&mut position, away());
    assert_eq!(position.location.inner_loc, at(1.0, 1.0, 1.0).inner_loc);
    assert!(position.is_loaded);
}

#[test]
fn other_packets_are_handed_on() {
    let mut reader = PacketReader::new();
    let mut position = pending();
    let packet = || ServerboundPlayRegistry::Other { body: vec![1, 2] };
    assert_eq!(
        reader.receive(&mut position, packet()),
        ReadAction::Forward { packet: packet() }
    );
    assert_eq!(reader.forwarded(true), ReadAction::Continue);
    assert_eq!(reader.forwarded(false), ReadAction::Stop);
}

struct Client {
    number: u64,
    online: bool,
}

impl Recipient for Client {
    fn connection(&self) -> Option<PacketSend> {
        unreachable!()
    }

    fn packet_sender(&self) -> Option<PacketSend> {
        if self.online {
            Some(PacketSend { channel: self.number })
        } else {
            None
        }
    }
}

struct Even;

impl Condition<Client> for Even {
    fn admits(&self, _: Client) -> bool {
        unreachable!()
    }

    fn check(&self, client: &Client) -> bool {
        client.number % 2 == 0
    }
}

#[test]
fn conditional_packets_go_to_the_chosen() {
    let clients: Vec<Client> =
        (0..6).map(|number| Client { number, online: number != 2 }).collect();
    let everyone: ConditionalPacket<Even> =
        ConditionalPacket::Unconditional(ClientboundPlayRegistry::KeepAlive { id: 1 });
    let channels = |numbers: &[u64]| -> Vec<PacketSend> {
        numbers.iter().map(|n| PacketSend { channel: *n }).collect()
    };
    let delivery = everyone.send_to_clients(&clients);
    assert_eq!(delivery.packet, ClientboundPlayRegistry::KeepAlive { id: 1 });
    assert_eq!(delivery.recipients, channels(&[0, 1, 3, 4, 5]));
    let some = ConditionalPacket::Conditional(ClientboundPlayRegistry::KeepAlive { id: 2 }, Even);
    assert_eq!(some.send_to_clients(&clients).recipients, channels(&[0, 4]));
}

#[test]
fn both_halves_have_a_cipher_of_the_key() {
    let connection = connection();
    assert_eq!(connection.cipher, Some(7));
    assert_eq!(connection.writer.cipher, Some(7));
    let plain: MCConnection<(), (), u8> =
        MCConnection::new(None, |key: &[u8]| key[0], (), (), info(), profile());
    assert_eq!(plain.cipher, None);
    assert_eq!(plain.writer.cipher, None);
    assert!(!plain.logged_in);
}
