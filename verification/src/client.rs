//! Connections to clients.
use std::collections::{HashSet, VecDeque};

use crate::codec::{encode_string, text, text_too_long, CodecError};
use crate::double::{
    clamp, clamped, clamps_keep_what_is_within, magnitude, nan, nans_count_as_zero, signed_units,
    truncate, truncation_of, truncations_lie_toward_zero, units,
};
use crate::inventory::{Inventory, PlayerInventory, SLOTS};
use crate::nbt::Tag;
use crate::phase::play::{
    ClientLoginProperties, ConnectedPlayer, Locker, PacketLocker, PacketOutbox, PacketReceiver,
    Player,
};
use crate::phase::ConnectionInformation;
use crate::protocol::{
    global_pos_view, packets_view, tag_view, texts_view, Angle, BlockPos,
    ClientboundLoginRegistry, ClientboundPlayRegistry, GameProfile, Location, LoginPacket,
    PacketSend, PlayPacket, SimpleLocation,
};
use vstd::arithmetic::power2::{lemma2_to64, lemma_pow2_adds, lemma_pow2_pos, pow2};
use vstd::prelude::*;

verus! {

/// A packet and the connections that it goes to.
pub struct Delivery {
    pub packet: ClientboundPlayRegistry,
    pub recipients: Vec<PacketSend>,
}

/// What a delivery holds.
#[verifier::ext_equal]
pub struct Sent {
    pub packet: PlayPacket,
    pub recipients: Seq<PacketSend>,
}

impl View for Delivery {
    type V = Sent;

    open spec fn view(&self) -> Sent {
        Sent { packet: self.packet@, recipients: self.recipients@ }
    }
}

/// Something that packets may be sent to.
pub trait Recipient: Sized {
    /// The connection, where there is one.
    spec fn connection(&self) -> Option<PacketSend>;

    fn packet_sender(&self) -> (sender: Option<PacketSend>)
        ensures
            sender == self.connection(),
    ;
}

/// A choice among clients.
pub trait Condition<T>: Sized {
    /// Whether the client is chosen.
    spec fn admits(&self, client: T) -> bool;

    fn check(&self, client: &T) -> (r: bool)
        ensures
            r == self.admits(*client),
    ;
}

/// A packet for every client, or for those that a condition chooses.
pub enum ConditionalPacket<C> {
    Unconditional(ClientboundPlayRegistry),
    Conditional(ClientboundPlayRegistry, C),
}

/// What a conditional packet is: the packet, and the condition where there is one.
#[verifier::ext_equal]
pub struct Broadcast<C> {
    pub packet: PlayPacket,
    pub condition: Option<C>,
}

impl<C> View for ConditionalPacket<C> {
    type V = Broadcast<C>;

    open spec fn view(&self) -> Broadcast<C> {
        match *self {
            ConditionalPacket::Unconditional(packet) => Broadcast {
                packet: packet@,
                condition: None,
            },
            ConditionalPacket::Conditional(packet, condition) => Broadcast {
                packet: packet@,
                condition: Some(condition),
            },
        }
    }
}

/// The connections of the clients that are chosen, in the order of the clients.
pub open spec fn recipients_of<T: Recipient, C: Condition<T>>(
    clients: Seq<T>,
    condition: Option<C>,
) -> Seq<PacketSend>
    decreases clients.len(),
{
    if clients.len() == 0 {
        Seq::empty()
    } else {
        let before = recipients_of(clients.drop_last(), condition);
        let client = clients.last();
        let chosen = match condition {
            Some(c) => c.admits(client),
            None => true,
        };
        match client.connection() {
            Some(sender) if chosen => before.push(sender),
            _ => before,
        }
    }
}

impl<C> ConditionalPacket<C> {
    /// Finds the connections that the packet goes to.
    pub fn send_to_clients<T: Recipient>(self, clients: &Vec<T>) -> (delivery: Delivery) where
        C: Condition<T>,

        ensures
            delivery@.packet == self@.packet,
            delivery@.recipients == recipients_of(clients@, self@.condition),
    {
        let ghost condition = self@.condition;
        let mut recipients: Vec<PacketSend> = Vec::new();
        let mut i: usize = 0;
        while i < clients.len()
            invariant
                i <= clients.len(),
                condition == self@.condition,
                recipients@ == recipients_of(clients@.take(i as int), condition),
            decreases clients.len() - i,
        {
            let client: &T = &clients[i];
            let chosen: bool = match &self {
                ConditionalPacket::Unconditional(_) => true,
                ConditionalPacket::Conditional(_, c) => c.check(client),
            };
            proof {
                assert(clients@.take(i + 1).drop_last() =~= clients@.take(i as int));
                assert(clients@.take(i + 1).last() == clients@[i as int]);
            }
            if chosen {
                match client.packet_sender() {
                    Some(sender) => {
                        recipients.push(sender);
                    },
                    None => {},
                }
            }
            i = i + 1;
        }
        proof {
            assert(clients@.take(clients@.len() as int) =~= clients@);
        }
        match self {
            ConditionalPacket::Unconditional(packet) => Delivery { packet, recipients },
            ConditionalPacket::Conditional(packet, _) => Delivery { packet, recipients },
        }
    }
}

/// A writer, and the cipher that what it writes passes through.
pub struct WrappedPacketWriter<W, C> {
    pub writer: W,
    pub cipher: Option<C>,
}

impl<W, C> WrappedPacketWriter<W, C> {
    /// A writer without a cipher.
    pub fn new(writer: W) -> (wrapped: Self)
        ensures
            wrapped == (WrappedPacketWriter { writer, cipher: None::<C> }),
    {
        Self { writer, cipher: None }
    }

    /// Sets the cipher.
    pub fn attach_cipher(&mut self, cipher: C)
        ensures
            final(self).cipher == Some(cipher),
            final(self).writer == old(self).writer,
    {
        self.cipher = Some(cipher);
    }

    /// The writer alone.
    pub fn into_inner(self) -> (writer: W)
        ensures
            writer == self.writer,
    {
        self.writer
    }

    /// The writer and the cipher, each for itself.
    pub fn write_and_cipher(&mut self) -> (parts: (&mut W, Option<&mut C>))
        ensures
            *parts.0 == old(self).writer,
            *final(parts.0) == final(self).writer,
            match parts.1 {
                Some(c) => old(self).cipher == Some(*c) && final(self).cipher == Some(*final(c)),
                None => old(self).cipher is None && final(self).cipher is None,
            },
    {
        (&mut self.writer, self.cipher.as_mut())
    }
}

/// Why a login cannot be completed.
#[derive(Clone, Copy, Debug, PartialEq, Eq, Structural)]
pub enum ConnectionError {
    /// The login is complete already.
    AlreadyLoggedIn,
}

/// A connection to a client: the two halves, a cipher for each, and who the client is.
pub struct MCConnection<R, W, C> {
    pub cipher: Option<C>,
    pub reader: R,
    pub writer: WrappedPacketWriter<W, C>,
    pub compression_threshold: Option<i32>,
    pub connection_information: ConnectionInformation,
    pub profile: GameProfile,
    pub logged_in: bool,
}

impl<R, W, C> MCConnection<R, W, C> {
    /// A connection before the end of the login. Where there is a key, `make_cipher` makes the
    /// cipher of each half from it.
    pub fn new<M: Fn(&[u8]) -> C>(
        cipher_key: Option<&[u8]>,
        make_cipher: M,
        reader: R,
        writer: W,
        connection_information: ConnectionInformation,
        profile: GameProfile,
    ) -> (connection: Self)
        requires
            cipher_key matches Some(key) ==> make_cipher.requires((key,)),
        ensures
            match cipher_key {
                Some(key) => {
                    &&& connection.cipher is Some
                    &&& make_cipher.ensures((key,), connection.cipher->0)
                    &&& connection.writer.cipher is Some
                    &&& make_cipher.ensures((key,), connection.writer.cipher->0)
                },
                None => connection.cipher is None && connection.writer.cipher is None,
            },
            connection.reader == reader,
            connection.writer.writer == writer,
            connection.compression_threshold is None,
            connection.connection_information == connection_information,
            connection.profile == profile,
            !connection.logged_in,
    {
        let (cipher, write_cipher): (Option<C>, Option<C>) = match cipher_key {
            Some(key) => (Some(make_cipher(key)), Some(make_cipher(key))),
            None => (None, None),
        };
        Self {
            cipher,
            reader,
            writer: WrappedPacketWriter { writer, cipher: write_cipher },
            compression_threshold: None,
            connection_information,
            profile,
            logged_in: false,
        }
    }

    /// The packet that completes the login. Once it is written, `set_logged_in` is due.
    pub fn complete_login(&self) -> (r: Result<ClientboundLoginRegistry, ConnectionError>)
        ensures
            self.logged_in ==> r == Err::<ClientboundLoginRegistry, ConnectionError>(
                ConnectionError::AlreadyLoggedIn,
            ),
            !self.logged_in ==> r is Ok && r->Ok_0@ == (LoginPacket::LoginGameProfile {
                game_profile: self.profile@,
            }),
    {
        if self.logged_in {
            return Err(ConnectionError::AlreadyLoggedIn);
        }
        Ok(ClientboundLoginRegistry::LoginGameProfile { game_profile: self.profile.clone() })
    }

    /// Takes note that the login is complete.
    pub fn set_logged_in(&mut self)
        ensures
            *final(self) == (MCConnection { logged_in: true, ..*old(self) }),
    {
        self.logged_in = true;
    }

    /// Turns compression on, and gives the packet that says so. The packet that completes
    /// the login follows it in compressed form.
    pub fn compress_and_complete_login(&mut self, threshold: i32) -> (r: Result<
        ClientboundLoginRegistry,
        ConnectionError,
    >)
        ensures
            old(self).logged_in ==> {
                &&& r == Err::<ClientboundLoginRegistry, ConnectionError>(
                    ConnectionError::AlreadyLoggedIn,
                )
                &&& *final(self) == *old(self)
            },
            !old(self).logged_in ==> {
                &&& r is Ok
                &&& r->Ok_0@ == (LoginPacket::LoginCompression { threshold })
                &&& *final(self) == (MCConnection {
                    compression_threshold: Some(threshold),
                    ..*old(self)
                })
            },
    {
        if self.logged_in {
            return Err(ConnectionError::AlreadyLoggedIn);
        }
        self.compression_threshold = Some(threshold);
        Ok(ClientboundLoginRegistry::LoginCompression { threshold })
    }
}

/// The bit pattern of `3.0e7`, how far from the origin a client can be along `x` and `z`.
pub const HORIZONTAL_LIMIT: u64 = 0x417C_9C38_0000_0000;

/// The bit pattern of `2.0e7`, how far from the origin a client can be along `y`.
pub const VERTICAL_LIMIT: u64 = 0x4173_12D0_0000_0000;

/// Where a client says it is, and where it has been told to be.
#[derive(Clone, Copy, Debug, PartialEq)]
pub struct PendingPosition {
    pub location: Location,
    /// A teleport that the client has not accepted yet, with its id.
    pub pending_teleport: Option<(Location, i32)>,
    pub on_ground: bool,
    /// Whether the client has said where it is since it was last paused.
    pub is_loaded: bool,
}

impl PendingPosition {
    /// The position once a teleport is pending. With `pause_position`, the client has to say
    /// where it is again.
    pub open spec fn teleported(
        &self,
        location: Location,
        id: i32,
        pause_position: bool,
    ) -> PendingPosition {
        PendingPosition {
            pending_teleport: Some((location, id)),
            is_loaded: self.is_loaded && !pause_position,
            ..*self
        }
    }
}

/// Packets that a client sends while it plays. Angles are wrapped to less than half a turn.
#[allow(inconsistent_fields)]
#[derive(Debug, PartialEq)]
pub enum ServerboundPlayRegistry {
    KeepAlive { keep_alive_id: u64 },
    AcceptTeleportation { teleportation_id: i32 },
    MovePlayerPos { x: u64, y: u64, z: u64, on_ground: bool },
    MovePlayerPosRot { x: u64, y: u64, z: u64, x_rot: Angle, y_rot: Angle, on_ground: bool },
    MovePlayerRot { x_rot: Angle, y_rot: Angle, on_ground: bool },
    MovePlayerStatusOnly { status: u8 },
    /// Any other packet, as it was received.
    Other { body: Vec<u8> },
}

/// A point moved into the world.
pub open spec fn in_world(x: u64, y: u64, z: u64) -> SimpleLocation {
    SimpleLocation {
        x: clamped(x, HORIZONTAL_LIMIT),
        y: clamped(y, VERTICAL_LIMIT),
        z: clamped(z, HORIZONTAL_LIMIT),
    }
}

fn clamp_to_world(x: u64, y: u64, z: u64) -> (point: SimpleLocation)
    ensures
        point == in_world(x, y, z),
{
    SimpleLocation {
        x: clamp(x, HORIZONTAL_LIMIT),
        y: clamp(y, VERTICAL_LIMIT),
        z: clamp(z, HORIZONTAL_LIMIT),
    }
}

/// The position after a packet from the client. A move counts only while no teleport is
/// pending; a teleport ends when the client names its id.
pub open spec fn after_packet(
    pending: PendingPosition,
    packet: ServerboundPlayRegistry,
) -> PendingPosition {
    let moved = pending.pending_teleport is None;
    match packet {
        ServerboundPlayRegistry::AcceptTeleportation { teleportation_id } => {
            match pending.pending_teleport {
                Some((location, id)) if id == teleportation_id => PendingPosition {
                    location,
                    pending_teleport: None,
                    ..pending
                },
                _ => pending,
            }
        },
        ServerboundPlayRegistry::MovePlayerPos { x, y, z, on_ground } if moved => PendingPosition {
            location: Location { inner_loc: in_world(x, y, z), ..pending.location },
            on_ground,
            is_loaded: true,
            ..pending
        },
        ServerboundPlayRegistry::MovePlayerPosRot { x, y, z, x_rot, y_rot, on_ground }
            if moved => PendingPosition {
            location: Location { inner_loc: in_world(x, y, z), yaw: y_rot, pitch: x_rot },
            on_ground,
            is_loaded: true,
            ..pending
        },
        ServerboundPlayRegistry::MovePlayerRot { x_rot, y_rot, on_ground } if moved => {
            PendingPosition {
                location: Location { yaw: y_rot, pitch: x_rot, ..pending.location },
                on_ground,
                is_loaded: true,
                ..pending
            }
        },
        ServerboundPlayRegistry::MovePlayerStatusOnly { status } if moved => PendingPosition {
            on_ground: status != 0,
            is_loaded: true,
            ..pending
        },
        _ => pending,
    }
}

/// What follows a packet from a client.
#[derive(Debug, PartialEq)]
pub enum ReadAction {
    /// The next packet is read.
    Continue,
    /// A sign of life is asked for in a second, and the next packet is read.
    ScheduleKeepAlive { id: u64 },
    /// The packet is handed on, and the next one is read.
    Forward { packet: ServerboundPlayRegistry },
    /// The connection ends.
    Stop,
}

/// The reading side of a connection: the sign of life that is awaited.
#[derive(Clone, Copy, Debug, PartialEq, Eq, Structural)]
pub struct PacketReader {
    pub seq: u64,
}

impl PacketReader {
    /// What follows a packet from the client.
    pub open spec fn reaction(&self, packet: ServerboundPlayRegistry) -> ReadAction {
        match packet {
            ServerboundPlayRegistry::KeepAlive { keep_alive_id } => if keep_alive_id == self.seq {
                ReadAction::ScheduleKeepAlive { id: (self.seq + 1) as u64 }
            } else {
                ReadAction::Stop
            },
            ServerboundPlayRegistry::Other { .. } => ReadAction::Forward { packet },
            _ => ReadAction::Continue,
        }
    }

    /// The reader at the start, when the first sign of life has been asked for.
    pub fn new() -> (reader: Self)
        ensures
            reader.seq == 0,
    {
        PacketReader { seq: 0 }
    }

    /// Handles a packet from the client.
    pub fn receive(
        &mut self,
        pending_position: &mut PendingPosition,
        packet: ServerboundPlayRegistry,
    ) -> (action: ReadAction)
        requires
            packet matches ServerboundPlayRegistry::KeepAlive { keep_alive_id } && keep_alive_id
                == old(self).seq ==> old(self).seq < u64::MAX,
        ensures
            action == old(self).reaction(packet),
            *final(pending_position) == after_packet(*old(pending_position), packet),
            final(self).seq == (if old(self).reaction(packet) is ScheduleKeepAlive {
                old(self).seq + 1
            } else {
                old(self).seq as int
            }),
    {
        match packet {
            ServerboundPlayRegistry::KeepAlive { keep_alive_id } => {
                if keep_alive_id == self.seq {
                    self.seq = self.seq + 1;
                    ReadAction::ScheduleKeepAlive { id: self.seq }
                } else {
                    ReadAction::Stop
                }
            },
            ServerboundPlayRegistry::AcceptTeleportation { teleportation_id } => {
                if let Some((location, id)) = pending_position.pending_teleport {
                    if id == teleportation_id {
                        pending_position.pending_teleport = None;
                        pending_position.location = location;
                    }
                }
                ReadAction::Continue
            },
            ServerboundPlayRegistry::MovePlayerPos { x, y, z, on_ground } => {
                if pending_position.pending_teleport.is_none() {
                    pending_position.location.inner_loc = clamp_to_world(x, y, z);
                    pending_position.on_ground = on_ground;
                    pending_position.is_loaded = true;
                }
                ReadAction::Continue
            },
            ServerboundPlayRegistry::MovePlayerPosRot { x, y, z, x_rot, y_rot, on_ground } => {
                if pending_position.pending_teleport.is_none() {
                    pending_position.location = Location {
                        inner_loc: clamp_to_world(x, y, z),
                        yaw: y_rot,
                        pitch: x_rot,
                    };
                    pending_position.on_ground = on_ground;
                    pending_position.is_loaded = true;
                }
                ReadAction::Continue
            },
            ServerboundPlayRegistry::MovePlayerRot { x_rot, y_rot, on_ground } => {
                if pending_position.pending_teleport.is_none() {
                    pending_position.location.yaw = y_rot;
                    pending_position.location.pitch = x_rot;
                    pending_position.on_ground = on_ground;
                    pending_position.is_loaded = true;
                }
                ReadAction::Continue
            },
            ServerboundPlayRegistry::MovePlayerStatusOnly { status } => {
                if pending_position.pending_teleport.is_none() {
                    pending_position.on_ground = status != 0;
                    pending_position.is_loaded = true;
                }
                ReadAction::Continue
            },
            ServerboundPlayRegistry::Other { body } => ReadAction::Forward {
                packet: ServerboundPlayRegistry::Other { body },
            },
        }
    }

    /// What follows a packet that is handed on: where nobody takes it, the connection ends.
    pub fn forwarded(&self, taken: bool) -> (action: ReadAction)
        ensures
            action == (if taken {
                ReadAction::Continue
            } else {
                ReadAction::Stop
            }),
    {
        if taken {
            ReadAction::Continue
        } else {
            ReadAction::Stop
        }
    }
}

/// A client that has logged in, at the place where it starts.
pub struct ProcessedPlayer<R, W, C> {
    pub server_player: MCConnection<R, W, C>,
    pub current_player_position: Location,
    pub pending_position: PendingPosition,
    pub entity_id: i32,
}

/// The levels that a client is told of.
pub open spec fn level_names() -> Seq<Seq<char>> {
    seq!["minecraft:overworld"@, "minecraft:the_end"@, "minecraft:the_nether"@]
}

/// A client that plays, and what its reader and its writer work with.
pub struct Session<R, W, C> {
    pub player: ConnectedPlayer,
    pub pending_position: PendingPosition,
    pub packet_reader: PacketReader,
    pub cipher: Option<C>,
    pub reader: R,
    pub writer: WrappedPacketWriter<W, C>,
    pub compression_threshold: Option<i32>,
}

impl<R, W, C> ProcessedPlayer<R, W, C> {
    /// Completes the login: the packet that says so, and the client from then on. It starts
    /// with a pending teleport to its place. A login with compression is not completed here.
    pub fn bootstrap_client(
        compression: Option<i32>,
        player: MCConnection<R, W, C>,
        initial_position: Location,
        player_id: i32,
    ) -> (r: Result<(ClientboundLoginRegistry, Self), ConnectionError>)
        requires
            compression is None || player.logged_in,
        ensures
            r is Err <==> player.logged_in,
            match r {
                Err(e) => e == ConnectionError::AlreadyLoggedIn,
                Ok((packet, processed)) => {
                    &&& packet@ == (LoginPacket::LoginGameProfile { game_profile: player.profile@ })
                    &&& processed == (ProcessedPlayer {
                        server_player: MCConnection { logged_in: true, ..player },
                        current_player_position: initial_position,
                        pending_position: PendingPosition {
                            location: initial_position,
                            pending_teleport: Some((initial_position, 0i32)),
                            on_ground: false,
                            is_loaded: false,
                        },
                        entity_id: player_id,
                    })
                },
            },
    {
        let mut player: MCConnection<R, W, C> = player;
        let packet: ClientboundLoginRegistry = match compression {
            Some(threshold) => match player.compress_and_complete_login(threshold) {
                Ok(packet) => packet,
                Err(e) => return Err(e),
            },
            None => match player.complete_login() {
                Ok(packet) => packet,
                Err(e) => return Err(e),
            },
        };
        player.set_logged_in();
        Ok(
            (
                packet,
                Self {
                    server_player: player,
                    current_player_position: initial_position,
                    pending_position: PendingPosition {
                        location: initial_position,
                        pending_teleport: Some((initial_position, 0)),
                        on_ground: false,
                        is_loaded: false,
                    },
                    entity_id: player_id,
                },
            ),
        )
    }

    /// Lets the client play: it carries nothing, knows no chunk and has not moved yet, and
    /// the first sign of life is awaited.
    pub fn keep_alive(self, send: PacketSend) -> (session: Session<R, W, C>)
        ensures
            session.player@ == (Player {
                packets: Locker {
                    send,
                    outgoing: Seq::empty(),
                    closed: false,
                    incoming: Seq::empty(),
                    disconnected: false,
                    active: true,
                    connection_information: self.server_player.connection_information,
                },
                entity_id: self.entity_id,
                profile: self.server_player.profile@,
                is_position_loaded: false,
                position: self.current_player_position,
                on_ground: false,
                teleport_id_incr: 0,
                known_chunks: Set::empty(),
                inventory: Inventory {
                    slots: Seq::new(SLOTS as nat, |number: int| None),
                    current_slot: 0,
                    state_id: 0,
                },
            }),
            session.pending_position == self.pending_position,
            session.packet_reader.seq == 0,
            session.cipher == self.server_player.cipher,
            session.reader == self.server_player.reader,
            session.writer == self.server_player.writer,
            session.compression_threshold == self.server_player.compression_threshold,
    {
        broadcast use vstd::std_specs::hash::group_hash_axioms;

        let connection: MCConnection<R, W, C> = self.server_player;
        let player: ConnectedPlayer = ConnectedPlayer {
            packets: PacketLocker {
                send,
                outbox: PacketOutbox { queue: Vec::new(), closed: false },
                packet_listener: PacketReceiver { queue: VecDeque::new(), disconnected: false },
                active: true,
                connection_information: connection.connection_information,
            },
            entity_id: self.entity_id,
            profile: connection.profile,
            is_position_loaded: false,
            position: self.current_player_position,
            on_ground: false,
            teleport_id_incr: 0,
            known_chunks: HashSet::new(),
            player_inventory: PlayerInventory::default(),
        };
        assert(player@.packets.outgoing =~= Seq::empty());
        Session {
            player,
            pending_position: self.pending_position,
            packet_reader: PacketReader::new(),
            cipher: connection.cipher,
            reader: connection.reader,
            writer: connection.writer,
            compression_threshold: connection.compression_threshold,
        }
    }

    /// The packet that moves the client into the game.
    pub open spec fn client_login(
        &self,
        properties: ClientLoginProperties,
        codec: Option<Tag>,
    ) -> PlayPacket {
        PlayPacket::ClientLogin {
            player_id: self.entity_id,
            hardcore: properties.hardcore,
            game_type: properties.game_type,
            previous_game_type: properties.previous_game_type,
            levels: level_names(),
            codec: tag_view(codec),
            dimension_type: "minecraft:overworld"@,
            dimension: "minecraft:overworld"@,
            seed: properties.seed,
            max_players: properties.max_players,
            chunk_radius: properties.chunk_radius,
            simulation_distance: properties.simulation_distance,
            reduced_debug_info: properties.reduced_debug_info,
            show_death_screen: properties.show_death_screen,
            is_debug: properties.is_debug,
            is_flat: properties.is_flat,
            last_death_location: global_pos_view(properties.last_death_location),
        }
    }

    /// The block that a compass points to.
    pub open spec fn spawn_position(&self) -> PlayPacket {
        let at = self.current_player_position.inner_loc;
        PlayPacket::SetDefaultSpawnPosition {
            pos: BlockPos {
                x: truncation_of(at.x) as i32,
                y: truncation_of(at.y) as i32,
                z: truncation_of(at.z) as i32,
            },
            angle: 0,
        }
    }

    /// The packets that move a client into the game, in the order in which they are sent.
    /// Where the brand is too long, the first two are sent and the login fails.
    pub fn send_client_login(
        &self,
        brand: &str,
        properties: ClientLoginProperties,
        codec: Option<Tag>,
    ) -> (sequence: (Vec<ClientboundPlayRegistry>, Result<(), CodecError>))
        ensures
            packets_view(sequence.0@)[0] matches PlayPacket::ClientLogin {
                player_id,
                hardcore,
                game_type,
                previous_game_type,
                seed,
                max_players,
                chunk_radius,
                simulation_distance,
                reduced_debug_info,
                show_death_screen,
                is_debug,
                is_flat,
                ..
            } && {
                &&& player_id == self.entity_id
                &&& hardcore == properties.hardcore
                &&& game_type == properties.game_type
                &&& previous_game_type == properties.previous_game_type
                &&& seed == properties.seed
                &&& max_players == properties.max_players
                &&& chunk_radius == properties.chunk_radius
                &&& simulation_distance == properties.simulation_distance
                &&& reduced_debug_info == properties.reduced_debug_info
                &&& show_death_screen == properties.show_death_screen
                &&& is_debug == properties.is_debug
                &&& is_flat == properties.is_flat
            },
            text_too_long(brand@) ==> {
                &&& packets_view(sequence.0@) == seq![
                    self.client_login(properties, codec),
                    PlayPacket::KeepAlive { id: 0 },
                ]
                &&& sequence.1 == Err::<(), CodecError>(CodecError::LimitExceeded)
            },
            !text_too_long(brand@) ==> {
                &&& packets_view(sequence.0@) == seq![
                    self.client_login(properties, codec),
                    PlayPacket::KeepAlive { id: 0 },
                    PlayPacket::CustomPayload {
                        identifier: "minecraft:brand"@,
                        data: text(brand@),
                    },
                    self.spawn_position(),
                ]
                &&& sequence.1 == Ok::<(), CodecError>(())
            },
    {
        let mut levels: Vec<String> = Vec::new();
        levels.push("minecraft:overworld".to_string());
        levels.push("minecraft:the_end".to_string());
        levels.push("minecraft:the_nether".to_string());
        assert(texts_view(levels@) =~= level_names());
        let ghost login = self.client_login(properties, codec);
        let mut packets: Vec<ClientboundPlayRegistry> = Vec::new();
        packets.push(
            ClientboundPlayRegistry::ClientLogin {
                player_id: self.entity_id,
                hardcore: properties.hardcore,
                game_type: properties.game_type,
                previous_game_type: properties.previous_game_type,
                levels,
                codec,
                dimension_type: "minecraft:overworld".to_string(),
                dimension: "minecraft:overworld".to_string(),
                seed: properties.seed,
                max_players: properties.max_players,
                chunk_radius: properties.chunk_radius,
                simulation_distance: properties.simulation_distance,
                reduced_debug_info: properties.reduced_debug_info,
                show_death_screen: properties.show_death_screen,
                is_debug: properties.is_debug,
                is_flat: properties.is_flat,
                last_death_location: properties.last_death_location,
            },
        );
        packets.push(ClientboundPlayRegistry::KeepAlive { id: 0 });
        match encode_string(brand) {
            Err(e) => {
                assert(packets_view(packets@) =~= seq![login, PlayPacket::KeepAlive { id: 0 }]);
                (packets, Err(e))
            },
            Ok(data) => {
                packets.push(
                    ClientboundPlayRegistry::CustomPayload {
                        identifier: "minecraft:brand".to_string(),
                        data,
                    },
                );
                let inner: SimpleLocation = self.current_player_position.inner_loc;
                packets.push(
                    ClientboundPlayRegistry::SetDefaultSpawnPosition {
                        pos: BlockPos {
                            x: truncate(inner.x),
                            y: truncate(inner.y),
                            z: truncate(inner.z),
                        },
                        angle: 0,
                    },
                );
                assert(packets_view(packets@) =~= seq![
                    login,
                    PlayPacket::KeepAlive { id: 0 },
                    PlayPacket::CustomPayload {
                        identifier: "minecraft:brand"@,
                        data: text(brand@),
                    },
                    self.spawn_position(),
                ]);
                (packets, Ok(()))
            },
        }
    }
}

/// The position after several packets from the client.
pub open spec fn after_packets(
    pending: PendingPosition,
    packets: Seq<ServerboundPlayRegistry>,
) -> PendingPosition
    decreases packets.len(),
{
    if packets.len() == 0 {
        pending
    } else {
        after_packet(after_packets(pending, packets.drop_last()), packets.last())
    }
}

/// Whether a packet accepts the teleport with the given id.
pub open spec fn accepts(packet: ServerboundPlayRegistry, id: i32) -> bool {
    packet == (ServerboundPlayRegistry::AcceptTeleportation { teleportation_id: id })
}

/// While a teleport is pending, no move counts: packets that do not accept the teleport leave
/// the position as it is.
pub proof fn pending_teleport_holds(
    pending: PendingPosition,
    location: Location,
    id: i32,
    packets: Seq<ServerboundPlayRegistry>,
)
    requires
        pending.pending_teleport == Some((location, id)),
        forall|i: int| 0 <= i < packets.len() ==> !accepts(#[trigger] packets[i], id),
    ensures
        after_packets(pending, packets) == pending,
    decreases packets.len(),
{
    if packets.len() > 0 {
        pending_teleport_holds(pending, location, id, packets.drop_last());
        assert(!accepts(packets[packets.len() - 1], id));
    }
}

/// A client that accepts its pending teleport is where it was teleported to, and its next
/// move counts.
pub proof fn accepted_teleport_arrives(
    pending: PendingPosition,
    location: Location,
    id: i32,
    x: u64,
    y: u64,
    z: u64,
    on_ground: bool,
)
    requires
        pending.pending_teleport == Some((location, id)),
    ensures
        ({
            let arrived = after_packet(
                pending,
                ServerboundPlayRegistry::AcceptTeleportation { teleportation_id: id },
            );
            &&& arrived.location == location
            &&& arrived.pending_teleport is None
            &&& after_packet(
                arrived,
                ServerboundPlayRegistry::MovePlayerPos { x, y, z, on_ground },
            ).location.inner_loc == in_world(x, y, z)
        }),
{
}

/// Whether a coordinate lies within a limit on either side of the origin, or is no number.
pub open spec fn within(bits: u64, limit: u64) -> bool {
    nan(bits) || magnitude(bits) <= magnitude(limit)
}

/// Whether a location lies in the world.
pub open spec fn lies_in_world(location: Location) -> bool {
    &&& within(location.inner_loc.x, HORIZONTAL_LIMIT)
    &&& within(location.inner_loc.y, VERTICAL_LIMIT)
    &&& within(location.inner_loc.z, HORIZONTAL_LIMIT)
}

/// A client that is in the world, and is teleported only within it, stays in it whatever it
/// says.
pub proof fn clients_stay_in_world(
    pending: PendingPosition,
    packets: Seq<ServerboundPlayRegistry>,
)
    requires
        lies_in_world(pending.location),
        pending.pending_teleport matches Some((location, _)) ==> lies_in_world(location),
    ensures
        ({
            let after = after_packets(pending, packets);
            &&& lies_in_world(after.location)
            &&& after.pending_teleport matches Some((location, _)) ==> lies_in_world(location)
        }),
    decreases packets.len(),
{
    if packets.len() > 0 {
        clients_stay_in_world(pending, packets.drop_last());
    }
}

/// A client that answers every request for a sign of life in turn keeps the connection, and
/// is asked for the next one; any other answer ends it.
pub proof fn signs_of_life_come_in_turn(reader: PacketReader, id: u64)
    requires
        reader.seq < u64::MAX,
    ensures
        reader.reaction(ServerboundPlayRegistry::KeepAlive { keep_alive_id: id }) == (if id
            == reader.seq {
            ReadAction::ScheduleKeepAlive { id: (id + 1) as u64 }
        } else {
            ReadAction::Stop
        }),
        id == reader.seq ==> (PacketReader { seq: (id + 1) as u64 }).reaction(
            ServerboundPlayRegistry::KeepAlive { keep_alive_id: (id + 1) as u64 },
        ) !is Stop,
{
}

/// The limits of the world are thirty million blocks along `x` and `z` and twenty million
/// along `y`, on either side of the origin.
proof fn lemma_limits()
    ensures
        units(HORIZONTAL_LIMIT) == 30_000_000 * pow2(1074),
        units(VERTICAL_LIMIT) == 20_000_000 * pow2(1074),
{
    lemma2_to64();
    lemma_pow2_adds(28, 1046);
    assert(HORIZONTAL_LIMIT as int / 0x10_0000_0000_0000 % 0x800 == 1047);
    assert(VERTICAL_LIMIT as int / 0x10_0000_0000_0000 % 0x800 == 1047);
    assert(HORIZONTAL_LIMIT as int % 0x10_0000_0000_0000 == 0xC_9C38_0000_0000);
    assert(VERTICAL_LIMIT as int % 0x10_0000_0000_0000 == 0x3_12D0_0000_0000);
    let p = pow2(1046) as int;
    assert(0x1C_9C38_0000_0000 * p == 30_000_000 * (268435456 * p)) by (nonlinear_arith);
    assert(0x13_12D0_0000_0000 * p == 20_000_000 * (268435456 * p)) by (nonlinear_arith);
}

/// Whether a coordinate is the one that a client named where that lies no farther than
/// `blocks` from the origin, and else the one at exactly that distance on the same side.
/// What is no number stays.
pub open spec fn held_within(named: u64, taken: u64, blocks: int) -> bool {
    if named as int % 0x8000_0000_0000_0000 > 0x7FF0_0000_0000_0000 {
        taken == named
    } else if units(named) <= blocks * pow2(1074) {
        taken == named
    } else {
        signed_units(taken) == (if named >= 0x8000_0000_0000_0000 {
            -blocks * pow2(1074)
        } else {
            blocks * pow2(1074)
        })
    }
}

/// A client is taken to be at the point that it names, each coordinate held within the world:
/// thirty million blocks from the origin along `x` and along `z`, twenty million along `y`.
pub proof fn named_points_are_taken(
    pending: PendingPosition,
    x: u64,
    y: u64,
    z: u64,
    on_ground: bool,
)
    requires
        pending.pending_teleport is None,
    ensures
        ({
            let after = after_packet(
                pending,
                ServerboundPlayRegistry::MovePlayerPos { x, y, z, on_ground },
            ).location.inner_loc;
            &&& held_within(x, after.x, 30_000_000)
            &&& held_within(y, after.y, 20_000_000)
            &&& held_within(z, after.z, 30_000_000)
        }),
{
    lemma_limits();
    let (a, b) = (HORIZONTAL_LIMIT, VERTICAL_LIMIT);
    if x as int % 0x8000_0000_0000_0000 <= 0x7FF0_0000_0000_0000 {
        clamps_keep_what_is_within(x, a);
    }
    if y as int % 0x8000_0000_0000_0000 <= 0x7FF0_0000_0000_0000 {
        clamps_keep_what_is_within(y, b);
    }
    if z as int % 0x8000_0000_0000_0000 <= 0x7FF0_0000_0000_0000 {
        clamps_keep_what_is_within(z, a);
    }
    assert(-30_000_000 * pow2(1074) == -(30_000_000 * pow2(1074))) by (nonlinear_arith);
    assert(-20_000_000 * pow2(1074) == -(20_000_000 * pow2(1074))) by (nonlinear_arith);
}

/// Each move changes what it speaks of and nothing else: one to a point leaves the direction,
/// a turn leaves the point and takes the direction as it is sent, and a move that does both is
/// the move followed by the turn. Each tells whether the client stands on the ground, and that
/// it has said where it is.
pub proof fn moves_change_what_they_name(
    pending: PendingPosition,
    x: u64,
    y: u64,
    z: u64,
    x_rot: Angle,
    y_rot: Angle,
    on_ground: bool,
)
    requires
        pending.pending_teleport is None,
    ensures
        ({
            let at = ServerboundPlayRegistry::MovePlayerPos { x, y, z, on_ground };
            let to = ServerboundPlayRegistry::MovePlayerRot { x_rot, y_rot, on_ground };
            let both = ServerboundPlayRegistry::MovePlayerPosRot {
                x,
                y,
                z,
                x_rot,
                y_rot,
                on_ground,
            };
            let moved = after_packet(pending, at);
            let turned = after_packet(pending, to);
            &&& moved.location.yaw == pending.location.yaw
            &&& moved.location.pitch == pending.location.pitch
            &&& moved.on_ground == on_ground
            &&& moved.is_loaded
            &&& moved.pending_teleport is None
            &&& turned.location.inner_loc == pending.location.inner_loc
            &&& turned.location.yaw == y_rot
            &&& turned.location.pitch == x_rot
            &&& turned.on_ground == on_ground
            &&& turned.is_loaded
            &&& turned.pending_teleport is None
            &&& after_packet(pending, both) == after_packet(moved, to)
            &&& after_packet(pending, both) == after_packet(turned, at)
        }),
{
}

/// A packet on the ground alone leaves where the client is.
pub proof fn status_leaves_the_place(pending: PendingPosition, status: u8)
    requires
        pending.pending_teleport is None,
    ensures
        ({
            let after = after_packet(
                pending,
                ServerboundPlayRegistry::MovePlayerStatusOnly { status },
            );
            &&& after.location == pending.location
            &&& after.pending_teleport is None
            &&& after.on_ground <==> status != 0
            &&& after.is_loaded
        }),
{
}

/// The last move counts: a client that moves twice is where it would be had it made the
/// second move alone, but for what only the first one named.
pub proof fn last_move_counts(
    pending: PendingPosition,
    first: ServerboundPlayRegistry,
    x: u64,
    y: u64,
    z: u64,
    x_rot: Angle,
    y_rot: Angle,
    on_ground: bool,
)
    requires
        pending.pending_teleport is None,
    ensures
        ({
            let whole = ServerboundPlayRegistry::MovePlayerPosRot {
                x,
                y,
                z,
                x_rot,
                y_rot,
                on_ground,
            };
            after_packet(after_packet(pending, first), whole) == after_packet(pending, whole)
        }),
{
}

/// Only the packet that accepts the pending teleport ends it, and it leaves everything but the
/// place as it was. Signs of life, and packets that are handed on, do not move the client.
pub proof fn other_packets_leave_the_client(
    pending: PendingPosition,
    packet: ServerboundPlayRegistry,
)
    ensures
        ({
            let after = after_packet(pending, packet);
            match packet {
                ServerboundPlayRegistry::KeepAlive { .. } => after == pending,
                ServerboundPlayRegistry::Other { .. } => after == pending,
                ServerboundPlayRegistry::AcceptTeleportation { teleportation_id } => {
                    &&& after.on_ground == pending.on_ground
                    &&& after.is_loaded == pending.is_loaded
                    &&& match pending.pending_teleport {
                        Some((location, id)) => if id == teleportation_id {
                            after.location == location && after.pending_teleport is None
                        } else {
                            after == pending
                        },
                        None => after == pending,
                    }
                },
                _ => {
                    &&& after.pending_teleport == pending.pending_teleport
                    &&& pending.pending_teleport is Some ==> after == pending
                },
            }
        }),
{
}

/// A teleport waits for the client under its id and leaves the client where it is until then.
/// A client that is paused has not said where it is, and one that is not has where it had.
pub proof fn teleports_wait_for_the_client(
    pending: PendingPosition,
    location: Location,
    id: i32,
    pause_position: bool,
)
    ensures
        ({
            let after = pending.teleported(location, id, pause_position);
            &&& after.location == pending.location
            &&& after.on_ground == pending.on_ground
            &&& after.pending_teleport == Some((location, id))
            &&& pause_position ==> !after.is_loaded
            &&& !pause_position ==> after.is_loaded == pending.is_loaded
            &&& after_packet(
                after,
                ServerboundPlayRegistry::AcceptTeleportation { teleportation_id: id },
            ) == (PendingPosition { location, pending_teleport: None, ..after })
        }),
{
}

/// Packets that the server does not answer itself are handed on as they are, moves are not,
/// and neither ends the connection or counts as a sign of life.
pub proof fn packets_are_handed_on(reader: PacketReader, packet: ServerboundPlayRegistry)
    requires
        !(packet is KeepAlive),
    ensures
        packet is Other ==> reader.reaction(packet) == (ReadAction::Forward { packet }),
        !(packet is Other) ==> reader.reaction(packet) is Continue,
{
}

/// A client is moved into the game with its own id and with each property as it was given,
/// on the overworld, and is told of the overworld, the end and the nether.
pub proof fn logins_carry_the_properties<R, W, C>(
    player: ProcessedPlayer<R, W, C>,
    properties: ClientLoginProperties,
    codec: Option<Tag>,
)
    ensures
        player.client_login(properties, codec) matches PlayPacket::ClientLogin {
            player_id,
            hardcore,
            game_type,
            previous_game_type,
            levels,
            codec: sent,
            dimension_type,
            dimension,
            seed,
            max_players,
            chunk_radius,
            simulation_distance,
            reduced_debug_info,
            show_death_screen,
            is_debug,
            is_flat,
            last_death_location,
        } && {
            &&& player_id == player.entity_id
            &&& hardcore == properties.hardcore
            &&& game_type == properties.game_type
            &&& previous_game_type == properties.previous_game_type
            &&& seed == properties.seed
            &&& max_players == properties.max_players
            &&& chunk_radius == properties.chunk_radius
            &&& simulation_distance == properties.simulation_distance
            &&& reduced_debug_info == properties.reduced_debug_info
            &&& show_death_screen == properties.show_death_screen
            &&& is_debug == properties.is_debug
            &&& is_flat == properties.is_flat
            &&& match properties.last_death_location {
                Some(place) => last_death_location matches Some((name, pos)) && name
                    == place.dimension@ && pos == place.pos,
                None => last_death_location is None,
            }
            &&& match codec {
                Some(tag) => sent == Some(tag@),
                None => sent is None,
            }
            &&& levels.len() == 3
            &&& levels[0] == "minecraft:overworld"@
            &&& levels[1] == "minecraft:the_end"@
            &&& levels[2] == "minecraft:the_nether"@
            &&& dimension_type == "minecraft:overworld"@
            &&& dimension == "minecraft:overworld"@
        },
{
}

/// A compass points to the block at the place where the client starts: along each axis the
/// whole number next to it on the side of zero.
pub proof fn compasses_point_to_the_start<R, W, C>(player: ProcessedPlayer<R, W, C>)
    ensures
        player.spawn_position() matches PlayPacket::SetDefaultSpawnPosition { pos, angle } && {
            let at = player.current_player_position.inner_loc;
            &&& angle == 0
            &&& whole_part(at.x, pos.x)
            &&& whole_part(at.y, pos.y)
            &&& whole_part(at.z, pos.z)
        },
{
    let at = player.current_player_position.inner_loc;
    lemma_whole_part(at.x);
    lemma_whole_part(at.y);
    lemma_whole_part(at.z);
}

/// Whether a block coordinate is that of a number without its fraction, wherever that fits in
/// an `i32`.
pub open spec fn whole_part(number: u64, block: i32) -> bool {
    let whole = units(number) / (pow2(1074) as int);
    if number as int % 0x8000_0000_0000_0000 > 0x7FF0_0000_0000_0000 {
        block == 0
    } else if whole > 0x7FFF_FFFF {
        block == (if number >= 0x8000_0000_0000_0000 {
            -0x8000_0000
        } else {
            0x7FFF_FFFFint
        })
    } else {
        block == (if number >= 0x8000_0000_0000_0000 {
            -whole
        } else {
            whole
        })
    }
}

proof fn lemma_whole_part(number: u64)
    ensures
        whole_part(number, truncation_of(number) as i32),
{
    if number as int % 0x8000_0000_0000_0000 > 0x7FF0_0000_0000_0000 {
        nans_count_as_zero(number);
    } else {
        truncations_lie_toward_zero(number);
        lemma_pow2_pos(1074);
        lemma_units_not_negative(number);
        vstd::arithmetic::div_mod::lemma_div_pos_is_pos(units(number), pow2(1074) as int);
    }
}

proof fn lemma_units_not_negative(number: u64)
    ensures
        units(number) >= 0,
{
    let e = number as int / 0x10_0000_0000_0000 % 0x800;
    let f = number as int % 0x10_0000_0000_0000;
    if e != 0 {
        let p = pow2((e - 1) as nat) as int;
        assert((0x10_0000_0000_0000 + f) * p >= 0) by (nonlinear_arith)
            requires
                f >= 0,
                p >= 0,
        ;
    }
}

/// Recipients come in the order of the clients: those of a list are those of its first part
/// and then those of the second.
pub proof fn recipients_come_in_order<T: Recipient, C: Condition<T>>(
    first: Seq<T>,
    second: Seq<T>,
    condition: Option<C>,
)
    ensures
        recipients_of(first + second, condition) == recipients_of(first, condition)
            + recipients_of(second, condition),
    decreases second.len(),
{
    if second.len() == 0 {
        assert(first + second =~= first);
        assert(recipients_of(first, condition) + Seq::<PacketSend>::empty() =~= recipients_of(
            first,
            condition,
        ));
    } else {
        recipients_come_in_order(first, second.drop_last(), condition);
        assert((first + second).drop_last() =~= first + second.drop_last());
        assert(recipients_of(first + second, condition) =~= recipients_of(first, condition)
            + recipients_of(second, condition));
    }
}

/// One client receives a packet once where it has a connection and is chosen, and else not at
/// all.
pub proof fn clients_receive_once<T: Recipient, C: Condition<T>>(client: T, condition: Option<C>)
    ensures
        ({
            let recipients = recipients_of(seq![client], condition);
            let chosen = condition is None || condition->0.admits(client);
            &&& chosen && client.connection() is Some ==> recipients == seq![client.connection()->0]
            &&& !(chosen && client.connection() is Some) ==> recipients.len() == 0
        }),
{
    let clients = seq![client];
    assert(clients.drop_last() =~= Seq::<T>::empty());
    assert(recipients_of(clients.drop_last(), condition) =~= Seq::<PacketSend>::empty());
    if client.connection() is Some {
        assert(Seq::<PacketSend>::empty().push(client.connection()->0) =~= seq![
            client.connection()->0,
        ]);
    }
}

/// What a delivery and a conditional packet hold is what they were made with.
pub proof fn deliveries_hold_their_fields<C>(
    delivery: Delivery,
    packet: ClientboundPlayRegistry,
    condition: C,
)
    ensures
        delivery@.packet == delivery.packet@,
        delivery@.recipients == delivery.recipients@,
        ConditionalPacket::<C>::Unconditional(packet)@.packet == packet@,
        ConditionalPacket::<C>::Unconditional(packet)@.condition is None,
        ConditionalPacket::Conditional(packet, condition)@.packet == packet@,
        ConditionalPacket::Conditional(packet, condition)@.condition == Some(condition),
{
}

} // verus!
