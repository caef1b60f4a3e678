//! The phase in which a client plays.
use std::collections::{HashSet, VecDeque};
use std::sync::Arc;

use crate::client::{
    accepts, after_packet, after_packets, pending_teleport_holds, PendingPosition,
    ServerboundPlayRegistry,
};
use crate::double::{floor, floor_of};
use crate::entity::tracking::{EntityKind, TrackableEntity};
use crate::inventory::{Inventory, PlayerInventory, CARRIED};
use crate::level::{empty_light, empty_light_data};
use crate::math::section_coordinate;
use crate::phase::ConnectionInformation;
use crate::protocol::{
    byte_strings_view, shared_packets_view, slot_view, slots_view, Chat, Chunk, ChunkContents,
    ClientboundPlayRegistry, GameProfile, GlobalPos, Item, ItemStack, LevelChunkData, Location,
    PacketSend, PlayPacket, Profile, Uuid,
};
use vstd::prelude::*;

verus! {

/// What a client is told of the game that it joins.
#[derive(Debug, PartialEq)]
pub struct ClientLoginProperties {
    pub hardcore: bool,
    pub game_type: u8,
    pub previous_game_type: u8,
    pub seed: u64,
    pub max_players: i32,
    pub chunk_radius: i32,
    pub simulation_distance: i32,
    pub reduced_debug_info: bool,
    pub show_death_screen: bool,
    pub is_debug: bool,
    pub is_flat: bool,
    pub last_death_location: Option<GlobalPos>,
}

/// The receiving end of a channel: what has come in, and whether more can come.
pub struct PacketReceiver {
    pub queue: VecDeque<ServerboundPlayRegistry>,
    pub disconnected: bool,
}

/// The sending end of a channel: what is to go out, and whether anyone receives it.
pub struct PacketOutbox {
    pub queue: Vec<Arc<ClientboundPlayRegistry>>,
    pub closed: bool,
}

/// The packets of a client, in both directions.
pub struct PacketLocker {
    pub send: PacketSend,
    pub outbox: PacketOutbox,
    pub packet_listener: PacketReceiver,
    pub active: bool,
    pub connection_information: ConnectionInformation,
}

/// What goes out to a client, and what has come in from it.
#[verifier::ext_equal]
pub struct Locker {
    pub send: PacketSend,
    pub outgoing: Seq<PlayPacket>,
    pub closed: bool,
    pub incoming: Seq<ServerboundPlayRegistry>,
    pub disconnected: bool,
    pub active: bool,
    pub connection_information: ConnectionInformation,
}

impl Locker {
    /// After a packet is written. Nothing is written to a client that is not active, and a
    /// client that receives nothing more is no longer active.
    pub open spec fn written(&self, packet: PlayPacket) -> Locker {
        if !self.active {
            *self
        } else if self.closed {
            Locker { active: false, ..*self }
        } else {
            Locker { outgoing: self.outgoing.push(packet), ..*self }
        }
    }

    /// The next packet from the client, where there is one.
    pub open spec fn next(&self) -> Option<ServerboundPlayRegistry> {
        if self.active && self.incoming.len() > 0 {
            Some(self.incoming[0])
        } else {
            None
        }
    }

    /// After the next packet is read. A client that sends nothing more is no longer active
    /// once everything that it sent has been read.
    pub open spec fn read(&self) -> Locker {
        if !self.active {
            *self
        } else if self.incoming.len() > 0 {
            Locker { incoming: self.incoming.drop_first(), ..*self }
        } else {
            Locker { active: !self.disconnected, ..*self }
        }
    }
}

impl View for PacketLocker {
    type V = Locker;

    open spec fn view(&self) -> Locker {
        Locker {
            send: self.send,
            outgoing: shared_packets_view(self.outbox.queue@),
            closed: self.outbox.closed,
            incoming: self.packet_listener.queue@,
            disconnected: self.packet_listener.disconnected,
            active: self.active,
            connection_information: self.connection_information,
        }
    }
}

impl PacketLocker {
    /// Replaces the receiving end by what a function makes of it.
    pub fn mutate_receiver<F: FnOnce(PacketReceiver) -> PacketReceiver>(
        self,
        mutate_func: F,
    ) -> (locker: Self)
        requires
            mutate_func.requires((self.packet_listener,)),
        ensures
            mutate_func.ensures((self.packet_listener,), locker.packet_listener),
            locker == (PacketLocker { packet_listener: locker.packet_listener, ..self }),
    {
        let mut locker: PacketLocker = self;
        locker.packet_listener = mutate_func(locker.packet_listener);
        locker
    }

    /// The sending end.
    pub fn clone_writer(&self) -> (writer: PacketSend)
        ensures
            writer == self.send,
    {
        self.send
    }

    /// Takes the next packet from the client.
    pub fn next_packet(&mut self) -> (packet: Option<ServerboundPlayRegistry>)
        ensures
            packet == old(self)@.next(),
            final(self)@ == old(self)@.read(),
    {
        if !self.active {
            return None;
        }
        match self.packet_listener.queue.pop_front() {
            Some(packet) => {
                assert(self@ =~= old(self)@.read());
                Some(packet)
            },
            None => {
                if self.packet_listener.disconnected {
                    self.active = false;
                }
                assert(self@ =~= old(self)@.read());
                None
            },
        }
    }

    /// Writes a packet to the client.
    pub fn write_packet(&mut self, packet: Arc<ClientboundPlayRegistry>)
        ensures
            final(self)@ == old(self)@.written((*packet)@),
    {
        if !self.active {
            return ;
        }
        if self.outbox.closed {
            self.active = false;
        } else {
            self.outbox.queue.push(packet);
        }
        assert(self@ =~= old(self)@.written((*packet)@));
    }

    /// Writes a packet to the client.
    pub fn write_owned_packet(&mut self, packet: ClientboundPlayRegistry)
        ensures
            final(self)@ == old(self)@.written(packet@),
    {
        self.write_packet(Arc::new(packet))
    }
}

/// The key under which a chunk is known.
pub open spec fn chunk_key(chunk_x: i32, chunk_z: i32) -> u64 {
    ((chunk_x + 0x8000_0000) * 0x1_0000_0000 + (chunk_z + 0x8000_0000)) as u64
}

/// The chunk that is known under a key.
pub open spec fn chunk_of_key(key: u64) -> (i32, i32) {
    (
        (key as int / 0x1_0000_0000 - 0x8000_0000) as i32,
        (key as int % 0x1_0000_0000 - 0x8000_0000) as i32,
    )
}

/// Chunks are known apart: a chunk is the one that is known under its key.
pub proof fn chunk_keys_are_distinct(chunk_x: i32, chunk_z: i32)
    ensures
        chunk_of_key(chunk_key(chunk_x, chunk_z)) == (chunk_x, chunk_z),
{
}

/// A key of a chunk is the key of the chunk that is known under it.
proof fn lemma_chunk_of_key(key: u64)
    ensures
        chunk_key(chunk_of_key(key).0, chunk_of_key(key).1) == key,
{
}

fn key_of_chunk(chunk_x: i32, chunk_z: i32) -> (key: u64)
    ensures
        key == chunk_key(chunk_x, chunk_z),
{
    let x: u64 = (chunk_x as i64 + 0x8000_0000) as u64;
    let z: u64 = (chunk_z as i64 + 0x8000_0000) as u64;
    x * 0x1_0000_0000 + z
}

fn chunk_from_key(key: u64) -> (chunk: (i32, i32))
    ensures
        chunk == chunk_of_key(key),
{
    let x: i64 = (key / 0x1_0000_0000) as i64 - 0x8000_0000;
    let z: i64 = (key % 0x1_0000_0000) as i64 - 0x8000_0000;
    (x as i32, z as i32)
}

/// A client that plays.
pub struct ConnectedPlayer {
    pub packets: PacketLocker,
    pub entity_id: i32,
    pub profile: GameProfile,
    pub is_position_loaded: bool,
    pub position: Location,
    pub on_ground: bool,
    pub teleport_id_incr: i32,
    /// The chunks that the client has been sent, by their keys.
    pub known_chunks: HashSet<u64>,
    pub player_inventory: PlayerInventory,
}

/// What a client that plays is.
#[verifier::ext_equal]
pub struct Player {
    pub packets: Locker,
    pub entity_id: i32,
    pub profile: Profile,
    pub is_position_loaded: bool,
    pub position: Location,
    pub on_ground: bool,
    pub teleport_id_incr: i32,
    pub known_chunks: Set<u64>,
    pub inventory: Inventory,
}

impl View for ConnectedPlayer {
    type V = Player;

    open spec fn view(&self) -> Player {
        Player {
            packets: self.packets@,
            entity_id: self.entity_id,
            profile: self.profile@,
            is_position_loaded: self.is_position_loaded,
            position: self.position,
            on_ground: self.on_ground,
            teleport_id_incr: self.teleport_id_incr,
            known_chunks: self.known_chunks@,
            inventory: self.player_inventory@,
        }
    }
}

/// The chunk, along `x` and `z`, that a location lies in.
pub open spec fn chunk_at(location: Location) -> (int, int) {
    (floor_of(location.inner_loc.x) / 16, floor_of(location.inner_loc.z) / 16)
}

fn chunk_coordinates(location: &Location) -> (chunk: (i32, i32))
    ensures
        chunk.0 == chunk_at(*location).0,
        chunk.1 == chunk_at(*location).1,
{
    (
        section_coordinate(floor(location.inner_loc.x)),
        section_coordinate(floor(location.inner_loc.z)),
    )
}

impl Player {
    /// After a packet is written.
    pub open spec fn written(&self, packet: PlayPacket) -> Player {
        Player { packets: self.packets.written(packet), ..*self }
    }

    /// After the client is sent away.
    pub open spec fn disconnected(&self, reason: Seq<char>) -> Player {
        let told = self.written(PlayPacket::Disconnect { reason });
        Player { packets: Locker { active: false, ..told.packets }, ..told }
    }

    /// After the client is teleported.
    pub open spec fn teleported(&self, location: Location, pause_position: bool) -> Player {
        Player {
            position: location,
            is_position_loaded: self.is_position_loaded && !pause_position,
            teleport_id_incr: self.teleport_id_incr.wrapping_add(1),
            ..self.written(
                PlayPacket::PlayerPosition {
                    location,
                    relative_arguments: 0,
                    id: self.teleport_id_incr,
                    dismount: false,
                },
            )
        }
    }

    /// After the client takes the location that it last said.
    pub open spec fn moved(&self, pending: PendingPosition) -> Player {
        if pending.is_loaded {
            Player { position: pending.location, is_position_loaded: true, ..*self }
        } else {
            *self
        }
    }

    /// Whether the location that the client last said lies in another chunk.
    pub open spec fn enters_chunk(&self, pending: PendingPosition) -> bool {
        pending.is_loaded && chunk_at(self.position) != chunk_at(pending.location)
    }

    /// Whether the client has been sent a chunk.
    pub open spec fn knows(&self, chunk_x: i32, chunk_z: i32) -> bool {
        self.known_chunks.contains(chunk_key(chunk_x, chunk_z))
    }

    /// After a chunk is sent.
    pub open spec fn shown(&self, chunk: ChunkContents) -> Player {
        Player {
            known_chunks: self.known_chunks.insert(chunk_key(chunk.x, chunk.z)),
            ..self.written(
                PlayPacket::LevelChunkWithLight { chunk_data: chunk, light_data: empty_light() },
            )
        }
    }

    /// After a chunk is hidden.
    pub open spec fn hidden(&self, chunk_x: i32, chunk_z: i32) -> Player {
        Player {
            known_chunks: self.known_chunks.remove(chunk_key(chunk_x, chunk_z)),
            ..self.written(PlayPacket::ForgetLevelChunk { x: chunk_x, z: chunk_z })
        }
    }

    /// After the chunks with the given keys are hidden, one after the other.
    pub open spec fn all_hidden(&self, keys: Seq<u64>) -> Player
        decreases keys.len(),
    {
        if keys.len() == 0 {
            *self
        } else {
            let (x, z) = chunk_of_key(keys.last());
            self.all_hidden(keys.drop_last()).hidden(x, z)
        }
    }

    /// After the client is told around which chunk it is to keep chunks.
    pub open spec fn centered(&self, chunk_x: i32, chunk_z: i32) -> Player {
        self.written(PlayPacket::SetChunkCacheCenter { x: chunk_x, z: chunk_z })
    }

    /// After the inventory becomes another one, and the client is told of every slot.
    pub open spec fn refilled(&self, inventory: Inventory) -> Player {
        Player { inventory, ..self.written(inventory.content()) }
    }

    /// After one slot of the inventory is filled, and the client is told of it.
    pub open spec fn filled(&self, number: int, item: Option<Item>) -> Player {
        Player {
            inventory: self.inventory.filled(number, item),
            ..self.written(self.inventory.filling(number, item))
        }
    }
}

impl TrackableEntity<EntityKind> for ConnectedPlayer {
    open spec fn particulars(&self) -> (i32, Uuid, Location, bool, EntityKind) {
        (self.entity_id, self.profile.id, self.position, self.on_ground, EntityKind::Player)
    }

    fn id(&self) -> (r: i32) {
        self.entity_id
    }

    fn uuid(&self) -> (r: Uuid) {
        self.profile.id
    }

    fn location(&self) -> (r: Location) {
        self.position
    }

    fn on_ground(&self) -> (r: bool) {
        self.on_ground
    }

    fn create_entity(&self) -> (r: EntityKind) {
        EntityKind::Player
    }
}

impl ConnectedPlayer {
    /// Sends the client away.
    pub fn disconnect(&mut self, chat: Chat)
        ensures
            final(self)@ == old(self)@.disconnected(chat@),
    {
        self.packets.write_owned_packet(ClientboundPlayRegistry::Disconnect { reason: chat });
        self.packets.active = false;
        assert(self@ =~= old(self)@.disconnected(chat@));
    }

    /// The name of the player.
    pub fn username(&self) -> (name: &String)
        ensures
            *name == self.profile.name,
    {
        &self.profile.name
    }

    /// Who the player is.
    pub fn profile(&self) -> (profile: &GameProfile)
        ensures
            *profile == self.profile,
    {
        &self.profile
    }

    /// What the player carries.
    pub fn player_inventory(&self) -> (inventory: &PlayerInventory)
        ensures
            *inventory == self.player_inventory,
    {
        &self.player_inventory
    }

    /// What the player carries.
    pub fn player_inventory_mut(&mut self) -> (inventory: &mut PlayerInventory)
        ensures
            *inventory == old(self).player_inventory,
            *final(self) == (ConnectedPlayer { player_inventory: *final(inventory), ..*old(self) }),
    {
        &mut self.player_inventory
    }

    /// Takes the next packet from the client.
    pub fn next_packet(&mut self) -> (packet: Option<ServerboundPlayRegistry>)
        ensures
            packet == old(self)@.packets.next(),
            final(self)@ == (Player { packets: old(self)@.packets.read(), ..old(self)@ }),
    {
        self.packets.next_packet()
    }

    /// Writes a packet to the client.
    pub fn write_packet(&mut self, packet: Arc<ClientboundPlayRegistry>)
        ensures
            final(self)@ == old(self)@.written((*packet)@),
    {
        self.packets.write_packet(packet)
    }

    /// Writes a packet to the client.
    pub fn write_owned_packet(&mut self, packet: ClientboundPlayRegistry)
        ensures
            final(self)@ == old(self)@.written(packet@),
    {
        self.packets.write_owned_packet(packet)
    }

    /// Teleports the client within what it sees.
    pub fn teleport_local(&mut self, pending: &mut PendingPosition, location: Location)
        ensures
            final(self)@ == old(self)@.teleported(location, false),
            *final(pending) == old(pending).teleported(
                location,
                old(self).teleport_id_incr,
                false,
            ),
    {
        self.teleport(pending, location, false)
    }

    /// Teleports the client. With `pause_position`, its location is not taken over until it
    /// says where it is.
    pub fn teleport(
        &mut self,
        pending: &mut PendingPosition,
        location: Location,
        pause_position: bool,
    )
        ensures
            final(self)@ == old(self)@.teleported(location, pause_position),
            *final(pending) == old(pending).teleported(
                location,
                old(self).teleport_id_incr,
                pause_position,
            ),
    {
        let teleport_id: i32 = self.teleport_id_incr;
        self.teleport_id_incr = teleport_id.wrapping_add(1);
        pending.pending_teleport = Some((location, teleport_id));
        if pause_position {
            pending.is_loaded = false;
        }
        self.position = location;
        self.packets.write_owned_packet(
            ClientboundPlayRegistry::PlayerPosition {
                location,
                relative_arguments: 0,
                id: teleport_id,
                dismount: false,
            },
        );
        if pause_position {
            self.is_position_loaded = false;
        }
    }

    /// Replaces the receiving end by what a function makes of it.
    pub fn mutate_receiver<F: FnOnce(PacketReceiver) -> PacketReceiver>(
        self,
        func: F,
    ) -> (player: Self)
        requires
            func.requires((self.packets.packet_listener,)),
        ensures
            func.ensures((self.packets.packet_listener,), player.packets.packet_listener),
            player == (ConnectedPlayer {
                packets: PacketLocker {
                    packet_listener: player.packets.packet_listener,
                    ..self.packets
                },
                ..self
            }),
    {
        let mut player: ConnectedPlayer = self;
        player.packets = player.packets.mutate_receiver(func);
        player
    }

    /// Whether the client has said where it is.
    pub fn is_loaded(&self) -> (loaded: bool)
        ensures
            loaded == self.is_position_loaded,
    {
        self.is_position_loaded
    }

    /// Takes over the location that the client last said. The result tells whether it lies
    /// in another chunk.
    pub fn update_location(&mut self, pending_position: &PendingPosition) -> (changed_chunk: bool)
        ensures
            changed_chunk == old(self)@.enters_chunk(*pending_position),
            final(self)@ == old(self)@.moved(*pending_position),
            *final(self) == (ConnectedPlayer {
                position: final(self).position,
                is_position_loaded: final(self).is_position_loaded,
                ..*old(self)
            }),
    {
        if !pending_position.is_loaded {
            return false;
        }
        let pending: Location = pending_position.location;
        if !self.is_position_loaded {
            self.is_position_loaded = true;
        }
        let (old_x, old_z) = chunk_coordinates(&self.position);
        let (new_x, new_z) = chunk_coordinates(&pending);
        let changed_chunk: bool = if old_x != new_x {
            true
        } else {
            old_z != new_z
        };
        self.position = pending;
        changed_chunk
    }

    /// Whether the client has been sent a chunk.
    pub fn knows_chunk(&self, chunk_x: i32, chunk_z: i32) -> (known: bool)
        ensures
            known == self@.knows(chunk_x, chunk_z),
    {
        broadcast use vstd::std_specs::hash::group_hash_axioms;

        self.known_chunks.contains(&key_of_chunk(chunk_x, chunk_z))
    }

    /// Sends a chunk.
    pub fn send_chunk(&mut self, chunk: Chunk)
        ensures
            final(self)@ == old(self)@.shown(
                ChunkContents {
                    x: chunk.x,
                    z: chunk.z,
                    data: chunk.data@,
                    block_entities: Seq::empty(),
                },
            ),
    {
        broadcast use vstd::std_specs::hash::group_hash_axioms;

        let _ = self.known_chunks.insert(key_of_chunk(chunk.x, chunk.z));
        let block_entities: Vec<Vec<u8>> = Vec::new();
        assert(byte_strings_view(block_entities@) =~= Seq::empty());
        self.write_packet(
            Arc::new(
                ClientboundPlayRegistry::LevelChunkWithLight {
                    chunk_data: LevelChunkData { chunk, block_entities },
                    light_data: empty_light_data(),
                },
            ),
        );
    }

    /// Hides a chunk.
    pub fn forget_chunk(&mut self, chunk_x: i32, chunk_z: i32)
        ensures
            final(self)@ == old(self)@.hidden(chunk_x, chunk_z),
    {
        broadcast use vstd::std_specs::hash::group_hash_axioms;

        let _ = self.known_chunks.remove(&key_of_chunk(chunk_x, chunk_z));
        self.write_packet(
            Arc::new(ClientboundPlayRegistry::ForgetLevelChunk { x: chunk_x, z: chunk_z }),
        );
    }

    /// Tells the client around which chunk it is to keep chunks.
    pub fn update_center_chunk(&mut self, chunk_x: i32, chunk_z: i32)
        ensures
            final(self)@ == old(self)@.centered(chunk_x, chunk_z),
    {
        self.write_packet(
            Arc::new(ClientboundPlayRegistry::SetChunkCacheCenter { x: chunk_x, z: chunk_z }),
        );
    }

    /// Takes over the location that the client last said. Where it lies in another chunk,
    /// the level shows what is around it, and the client is told of its new center.
    pub fn render_level<F: FnOnce(ConnectedPlayer, bool) -> ConnectedPlayer>(
        self,
        pending_position: &PendingPosition,
        poll_player: F,
    ) -> (player: Self)
        requires
            forall|moved: ConnectedPlayer|
                moved@ == self@.moved(*pending_position) ==> poll_player.requires((moved, true)),
        ensures
            !self@.enters_chunk(*pending_position) ==> player@ == self@.moved(*pending_position),
            self@.enters_chunk(*pending_position) ==> exists|
                moved: ConnectedPlayer,
                polled: ConnectedPlayer,
            |
                {
                    &&& moved@ == self@.moved(*pending_position)
                    &&& #[trigger] poll_player.ensures((moved, true), polled)
                    &&& player@ == polled@.centered(
                        chunk_at(polled.position).0 as i32,
                        chunk_at(polled.position).1 as i32,
                    )
                },
    {
        let mut player: ConnectedPlayer = self;
        let chunk_changed: bool = player.update_location(pending_position);
        if chunk_changed {
            let mut polled: ConnectedPlayer = poll_player(player, true);
            let (chunk_x, chunk_z) = chunk_coordinates(&polled.position);
            polled.update_center_chunk(chunk_x, chunk_z);
            polled
        } else {
            player
        }
    }

    /// Empties the inventory.
    pub fn clear_inventory(&mut self)
        ensures
            final(self)@ == old(self)@.refilled(old(self)@.inventory.emptied()),
    {
        let forward: ClientboundPlayRegistry = self.player_inventory_mut().clear();
        self.write_owned_packet(forward);
    }

    /// Tells the client of every slot.
    pub fn refresh_player_inventory(&mut self)
        ensures
            final(self)@ == old(self)@.refilled(old(self)@.inventory),
    {
        let forward: ClientboundPlayRegistry = self.player_inventory_mut().refresh();
        self.write_owned_packet(forward);
    }

    /// Fills the carried items from the first on.
    pub fn set_player_inventory(&mut self, items: &[Option<ItemStack>])
        requires
            items@.len() <= 36,
        ensures
            final(self)@ == old(self)@.refilled(
                old(self)@.inventory.refilled(slots_view(items@)),
            ),
    {
        let forward: ClientboundPlayRegistry = self.player_inventory_mut().set_all(items);
        self.write_owned_packet(forward);
    }

    /// Fills one of the carried items, given by its column and its row.
    pub fn set_player_inventory_slot(
        &mut self,
        item: Option<ItemStack>,
        slot_x: usize,
        slot_y: usize,
    )
        requires
            slot_x < 9,
            slot_y < 4,
            old(self)@.inventory.state_id < i32::MAX,
        ensures
            final(self)@ == old(self)@.filled(CARRIED + 9 * slot_y + slot_x, slot_view(item)),
    {
        let forward: ClientboundPlayRegistry = self.player_inventory_mut().set(
            item,
            slot_x,
            slot_y,
        );
        self.write_owned_packet(forward);
    }

    /// Fills the slot of the helmet.
    pub fn set_head(&mut self, item: Option<ItemStack>)
        requires
            old(self)@.inventory.state_id < i32::MAX,
        ensures
            final(self)@ == old(self)@.filled(5, slot_view(item)),
    {
        let forward: ClientboundPlayRegistry = self.player_inventory_mut().set_head(item);
        self.write_owned_packet(forward);
    }

    /// Fills the slot of the chestplate.
    pub fn set_chest(&mut self, item: Option<ItemStack>)
        requires
            old(self)@.inventory.state_id < i32::MAX,
        ensures
            final(self)@ == old(self)@.filled(6, slot_view(item)),
    {
        let forward: ClientboundPlayRegistry = self.player_inventory_mut().set_chest(item);
        self.write_owned_packet(forward);
    }

    /// Fills the slot of the leggings.
    pub fn set_legs(&mut self, item: Option<ItemStack>)
        requires
            old(self)@.inventory.state_id < i32::MAX,
        ensures
            final(self)@ == old(self)@.filled(7, slot_view(item)),
    {
        let forward: ClientboundPlayRegistry = self.player_inventory_mut().set_legs(item);
        self.write_owned_packet(forward);
    }

    /// Fills the slot of the boots.
    pub fn set_feet(&mut self, item: Option<ItemStack>)
        requires
            old(self)@.inventory.state_id < i32::MAX,
        ensures
            final(self)@ == old(self)@.filled(8, slot_view(item)),
    {
        let forward: ClientboundPlayRegistry = self.player_inventory_mut().set_feet(item);
        self.write_owned_packet(forward);
    }

    /// Fills the off hand.
    pub fn set_offhand(&mut self, item: Option<ItemStack>)
        requires
            old(self)@.inventory.state_id < i32::MAX,
        ensures
            final(self)@ == old(self)@.filled(45, slot_view(item)),
    {
        let forward: ClientboundPlayRegistry = self.player_inventory_mut().set_offhand(item);
        self.write_owned_packet(forward);
    }

    /// Fills the crafting output.
    pub fn set_crafting_output(&mut self, item: Option<ItemStack>)
        requires
            old(self)@.inventory.state_id < i32::MAX,
        ensures
            final(self)@ == old(self)@.filled(0, slot_view(item)),
    {
        let forward: ClientboundPlayRegistry = self.player_inventory_mut().set_crafting_output(
            item,
        );
        self.write_owned_packet(forward);
    }

    /// Fills one of the crafting slots, given by its column and its row.
    pub fn set_crafting_slot(&mut self, item: Option<ItemStack>, slot_x: usize, slot_y: usize)
        requires
            slot_x < 2,
            slot_y < 2,
            old(self)@.inventory.state_id < i32::MAX,
        ensures
            final(self)@ == old(self)@.filled(1 + 2 * slot_y + slot_x, slot_view(item)),
    {
        let forward: ClientboundPlayRegistry = self.player_inventory_mut().set_crafting_slot(
            item,
            slot_x,
            slot_y,
        );
        self.write_owned_packet(forward);
    }

    /// Selects a slot of the hotbar.
    pub fn set_current_slot(&mut self, slot: u8)
        ensures
            final(self)@ == (Player {
                inventory: Inventory { current_slot: slot, ..old(self)@.inventory },
                ..old(self)@.written(PlayPacket::SetCarriedItem { slot })
            }),
    {
        let forward: ClientboundPlayRegistry = self.player_inventory_mut().set_current_slot(slot);
        self.write_owned_packet(forward);
    }

    /// Sends a message.
    pub fn send_message(&mut self, chat: Chat)
        ensures
            final(self)@ == old(self)@.written(
                PlayPacket::SystemChat { content: chat@, overlay: false },
            ),
    {
        self.write_owned_packet(
            ClientboundPlayRegistry::SystemChat { content: chat, overlay: false },
        );
    }

    /// Hides the chunks with the given keys, one after the other.
    pub fn forget_in_order(&mut self, keys: &Vec<u64>)
        ensures
            final(self)@ == old(self)@.all_hidden(keys@),
    {
        let ghost before = self@;
        let mut i: usize = 0;
        assert(keys@.take(0) =~= Seq::empty());
        while i < keys.len()
            invariant
                i <= keys.len(),
                self@ == before.all_hidden(keys@.take(i as int)),
            decreases keys.len() - i,
        {
            let (x, z) = chunk_from_key(keys[i]);
            self.forget_chunk(x, z);
            assert(keys@.take(i + 1).drop_last() =~= keys@.take(i as int));
            i = i + 1;
        }
        assert(keys@.take(i as int) =~= keys@);
    }

    /// Hides every chunk that the client knows, in whatever order the set walks them.
    pub fn clear_known_chunks(&mut self)
        ensures
            final(self)@.known_chunks == Set::<u64>::empty(),
            exists|keys: Seq<u64>|
                {
                    &&& keys.no_duplicates()
                    &&& keys.to_set() == old(self)@.known_chunks
                    &&& final(self)@ == #[trigger] old(self)@.all_hidden(keys)
                },
    {
        broadcast use vstd::std_specs::hash::group_hash_axioms;

        let mut keys: Vec<u64> = Vec::new();
        for key in it: self.known_chunks.iter()
            invariant
                it.seq().unref().to_set() == self.known_chunks@,
                it.seq().no_duplicates(),
                keys@ == it.seq().unref().take(it.index() as int),
                it.index() == it.seq().len() ==> keys@ == it.seq().unref(),
        {
            keys.push(*key);
            assert(keys@ =~= it.seq().unref().take(it.index() + 1));
            assert(it.index() + 1 == it.seq().len() ==> keys@ =~= it.seq().unref());
        }
        self.forget_in_order(&keys);
        proof {
            lemma_all_hidden(old(self)@, keys@);
            assert(self@.known_chunks =~= Set::empty());
        }
    }
}

/// Hiding chunks takes their keys from those that are known.
proof fn lemma_all_hidden(player: Player, keys: Seq<u64>)
    ensures
        player.all_hidden(keys).known_chunks == player.known_chunks.difference(keys.to_set()),
    decreases keys.len(),
{
    if keys.len() > 0 {
        lemma_all_hidden(player, keys.drop_last());
        lemma_chunk_of_key(keys.last());
        assert(keys =~= keys.drop_last().push(keys.last()));
        assert forall|key: u64|
            keys.to_set().contains(key) <==> keys.drop_last().to_set().contains(key) || key
                == keys.last() by {
            if keys.contains(key) {
                let i = choose|i: int| 0 <= i < keys.len() && keys[i] == key;
                if i < keys.len() - 1 {
                    assert(keys.drop_last()[i] == key);
                }
            }
            if keys.drop_last().contains(key) {
                let i = choose|i: int| 0 <= i < keys.len() - 1 && keys.drop_last()[i] == key;
                assert(keys[i] == key);
            }
            assert(keys[keys.len() - 1] == keys.last());
        }
        assert(player.all_hidden(keys).known_chunks =~= player.known_chunks.difference(
            keys.to_set(),
        ));
    } else {
        assert(player.known_chunks.difference(keys.to_set()) =~= player.known_chunks);
    }
}

/// A chunk that is sent is known, one that is hidden is not, and either leaves what is known
/// of other chunks as it is.
pub proof fn chunks_are_known_once_sent(player: Player, chunk: ChunkContents, x: i32, z: i32)
    ensures
        player.shown(chunk).knows(x, z) <==> player.knows(x, z) || (x, z) == (chunk.x, chunk.z),
        player.hidden(chunk.x, chunk.z).knows(x, z) <==> player.knows(x, z) && (x, z) != (
            chunk.x,
            chunk.z,
        ),
{
    chunk_keys_are_distinct(x, z);
    chunk_keys_are_distinct(chunk.x, chunk.z);
}

/// Nothing is written to a client after it has been sent away, and nothing is read from it.
pub proof fn nothing_follows_a_disconnect(player: Player, reason: Seq<char>, packet: PlayPacket)
    ensures
        player.disconnected(reason).written(packet) == player.disconnected(reason),
        player.disconnected(reason).packets.next() is None,
        player.disconnected(reason).packets.read() == player.disconnected(reason).packets,
{
}

/// A client that can receive is told why it is sent away.
pub proof fn disconnects_are_explained(player: Player, reason: Seq<char>)
    requires
        player.packets.active,
        !player.packets.closed,
    ensures
        player.disconnected(reason).packets.outgoing == player.packets.outgoing.push(
            PlayPacket::Disconnect { reason },
        ),
{
}

/// A client that accepts a teleport under the id that it was told is where it was teleported
/// to, whatever else it said before.
pub proof fn teleports_take_place(
    player: Player,
    pending: PendingPosition,
    location: Location,
    pause_position: bool,
    before: Seq<ServerboundPlayRegistry>,
)
    requires
        player.packets.active,
        !player.packets.closed,
        forall|i: int|
            0 <= i < before.len() ==> !accepts(#[trigger] before[i], player.teleport_id_incr),
    ensures
        ({
            let id = player.teleport_id_incr;
            let waiting = pending.teleported(location, id, pause_position);
            let accept = ServerboundPlayRegistry::AcceptTeleportation { teleportation_id: id };
            let arrived = after_packet(after_packets(waiting, before), accept);
            &&& player.teleported(location, pause_position).packets.outgoing.last() == (
            PlayPacket::PlayerPosition {
                location,
                relative_arguments: 0,
                id,
                dismount: false,
            })
            &&& arrived.location == location
            &&& arrived.pending_teleport is None
        }),
{
    let id = player.teleport_id_incr;
    pending_teleport_holds(
        pending.teleported(location, id, pause_position),
        location,
        id,
        before,
    );
}

/// A client that is paused by a teleport is not moved until it says where it is.
pub proof fn paused_clients_stay(player: Player, pending: PendingPosition, location: Location)
    ensures
        ({
            let id = player.teleport_id_incr;
            let paused = player.teleported(location, true);
            &&& !paused.is_position_loaded
            &&& paused.moved(pending.teleported(location, id, true)) == paused
        }),
{
}

/// A client that can receive is told of every chunk that is hidden, in turn.
pub proof fn hidden_chunks_are_told(player: Player, keys: Seq<u64>)
    requires
        player.packets.active,
        !player.packets.closed,
    ensures
        player.all_hidden(keys).packets == (Locker {
            outgoing: player.packets.outgoing + Seq::new(
                keys.len(),
                |i: int|
                    PlayPacket::ForgetLevelChunk {
                        x: chunk_of_key(keys[i]).0,
                        z: chunk_of_key(keys[i]).1,
                    },
            ),
            ..player.packets
        }),
    decreases keys.len(),
{
    if keys.len() > 0 {
        hidden_chunks_are_told(player, keys.drop_last());
    }
}

/// What is written to a client that can receive comes last in what goes out, and changes
/// nothing else. Where nobody receives it, nothing goes out, and the client is no longer
/// active.
pub proof fn writes_go_out_last(packets: Locker, packet: PlayPacket)
    ensures
        ({
            let after = packets.written(packet);
            let heard = packets.active && !packets.closed;
            &&& heard ==> {
                &&& after.outgoing.len() == packets.outgoing.len() + 1
                &&& after.outgoing.last() == packet
                &&& after.outgoing.drop_last() == packets.outgoing
                &&& after.active
            }
            &&& !heard ==> after.outgoing == packets.outgoing && !after.active
            &&& after.send == packets.send
            &&& after.closed == packets.closed
            &&& after.incoming == packets.incoming
            &&& after.disconnected == packets.disconnected
            &&& after.connection_information == packets.connection_information
        }),
{
    if packets.active && !packets.closed {
        assert(packets.written(packet).outgoing.drop_last() =~= packets.outgoing);
    }
}

/// The packets of a client after several have been read.
pub open spec fn after_reads(packets: Locker, count: nat) -> Locker
    decreases count,
{
    if count == 0 {
        packets
    } else {
        after_reads(packets, (count - 1) as nat).read()
    }
}

/// Packets from a client are read in the order in which they came in, each once. Once all are
/// read, a client that can still send stays active, and one that cannot does not.
pub proof fn packets_are_read_in_turn(packets: Locker, count: nat)
    requires
        packets.active,
        count <= packets.incoming.len(),
    ensures
        ({
            let after = after_reads(packets, count);
            &&& after.incoming == packets.incoming.skip(count as int)
            &&& count < packets.incoming.len() ==> after.next() == Some(
                packets.incoming[count as int],
            )
            &&& count == packets.incoming.len() ==> {
                &&& after.next() is None
                &&& after.read().active <==> !packets.disconnected
                &&& after.read().incoming.len() == 0
            }
            &&& after.active
            &&& after.outgoing == packets.outgoing
            &&& after.send == packets.send
            &&& after.closed == packets.closed
            &&& after.disconnected == packets.disconnected
            &&& after.connection_information == packets.connection_information
        }),
    decreases count,
{
    if count > 0 {
        packets_are_read_in_turn(packets, (count - 1) as nat);
        assert(packets.incoming.skip(count - 1).drop_first() =~= packets.incoming.skip(
            count as int,
        ));
    } else {
        assert(packets.incoming.skip(0) =~= packets.incoming);
    }
}

/// Nothing is read from a client that is not active, and nothing is written to it.
pub proof fn inactive_clients_are_left_alone(packets: Locker, packet: PlayPacket)
    requires
        !packets.active,
    ensures
        packets.next() is None,
        packets.read() == packets,
        packets.written(packet) == packets,
{
}

/// Whether a client is as it was, but for what goes out to it and whether it is active.
pub open spec fn told_alone(before: Player, after: Player) -> bool {
    &&& after.entity_id == before.entity_id
    &&& after.profile == before.profile
    &&& after.is_position_loaded == before.is_position_loaded
    &&& after.position == before.position
    &&& after.on_ground == before.on_ground
    &&& after.teleport_id_incr == before.teleport_id_incr
    &&& after.known_chunks == before.known_chunks
    &&& after.inventory == before.inventory
    &&& after.packets.send == before.packets.send
    &&& after.packets.closed == before.packets.closed
    &&& after.packets.incoming == before.packets.incoming
    &&& after.packets.disconnected == before.packets.disconnected
    &&& after.packets.connection_information == before.packets.connection_information
}

/// Whether exactly one more packet goes out to a client.
pub open spec fn one_more(before: Player, after: Player, packet: PlayPacket) -> bool {
    after.packets.outgoing == before.packets.outgoing.push(packet)
}

/// A message, or any other packet, is told to the client and changes nothing else of it; one
/// that is sent away is told why, and is no longer active.
pub proof fn tellings_change_nothing_else(player: Player, packet: PlayPacket, reason: Seq<char>)
    ensures
        told_alone(player, player.written(packet)),
        told_alone(player, player.disconnected(reason)),
        !player.disconnected(reason).packets.active,
        player.packets.active && !player.packets.closed ==> {
            &&& one_more(player, player.written(packet), packet)
            &&& one_more(player, player.disconnected(reason), PlayPacket::Disconnect { reason })
            &&& player.written(packet).packets.active
        },
{
}

/// A teleported client is taken to be at the new place, is told of it under the id that it
/// has to accept, and the next teleport has another id. Whether the client has said where it
/// is stays as it was unless it is paused.
pub proof fn teleports_are_told(player: Player, location: Location, pause_position: bool)
    ensures
        ({
            let after = player.teleported(location, pause_position);
            &&& told_alone(
                player,
                Player {
                    position: player.position,
                    is_position_loaded: player.is_position_loaded,
                    teleport_id_incr: player.teleport_id_incr,
                    ..after
                },
            )
            &&& after.position == location
            &&& pause_position ==> !after.is_position_loaded
            &&& !pause_position ==> after.is_position_loaded == player.is_position_loaded
            &&& player.teleport_id_incr < 0x7FFF_FFFF ==> after.teleport_id_incr
                == player.teleport_id_incr + 1
            &&& player.teleport_id_incr == 0x7FFF_FFFF ==> after.teleport_id_incr == -0x8000_0000
            &&& player.packets.active && !player.packets.closed ==> one_more(
                player,
                after,
                PlayPacket::PlayerPosition {
                    location,
                    relative_arguments: 0,
                    id: player.teleport_id_incr,
                    dismount: false,
                },
            )
        }),
{
}

/// A client that has said where it is, is taken to be there; one that has not stays where it
/// was. Nothing else of it changes, and nothing is told to it.
pub proof fn clients_are_where_they_say(player: Player, pending: PendingPosition)
    ensures
        ({
            let after = player.moved(pending);
            &&& pending.is_loaded ==> after.position == pending.location
                && after.is_position_loaded
            &&& !pending.is_loaded ==> after == player
            &&& after.packets == player.packets
            &&& told_alone(
                player,
                Player {
                    position: player.position,
                    is_position_loaded: player.is_position_loaded,
                    ..after
                },
            )
        }),
{
}

/// Whether a location lies above the sixteen by sixteen blocks of a chunk, going by the whole
/// numbers just below it.
pub open spec fn over_chunk(location: Location, chunk_x: int, chunk_z: int) -> bool {
    &&& 16 * chunk_x <= floor_of(location.inner_loc.x) < 16 * chunk_x + 16
    &&& 16 * chunk_z <= floor_of(location.inner_loc.z) < 16 * chunk_z + 16
}

/// A location lies in the chunk whose blocks it is above, and a client enters a chunk exactly
/// where it has said that it is above another one than the one that it was above.
pub proof fn chunks_are_sixteen_blocks_wide(
    player: Player,
    pending: PendingPosition,
    chunk_x: int,
    chunk_z: int,
)
    ensures
        over_chunk(player.position, chunk_x, chunk_z) <==> chunk_at(player.position) == (
            chunk_x,
            chunk_z,
        ),
        over_chunk(player.position, chunk_x, chunk_z) ==> (player.enters_chunk(pending)
            <==> pending.is_loaded && !over_chunk(pending.location, chunk_x, chunk_z)),
        -0x800_0000 <= chunk_at(player.position).0 < 0x800_0000,
        -0x800_0000 <= chunk_at(player.position).1 < 0x800_0000,
{
}

/// A chunk is sent with its own contents and no light, and is hidden and made the center
/// under its own coordinates. Neither changes anything else of the client but which chunks it
/// knows, and the center not even that.
pub proof fn chunks_are_told_as_they_are(player: Player, chunk: ChunkContents, x: i32, z: i32)
    ensures
        ({
            let shown = player.shown(chunk);
            let hidden = player.hidden(x, z);
            let centered = player.centered(x, z);
            let known = player.known_chunks;
            &&& told_alone(player, Player { known_chunks: known, ..shown })
            &&& told_alone(player, Player { known_chunks: known, ..hidden })
            &&& told_alone(player, centered)
            &&& player.packets.active && !player.packets.closed ==> {
                &&& shown.packets.outgoing.drop_last() == player.packets.outgoing
                &&& shown.packets.outgoing.last() matches PlayPacket::LevelChunkWithLight {
                    chunk_data,
                    light_data,
                } && {
                    &&& chunk_data.x == chunk.x
                    &&& chunk_data.z == chunk.z
                    &&& chunk_data.data == chunk.data
                    &&& chunk_data.block_entities == chunk.block_entities
                    &&& !light_data.trust_edges
                    &&& light_data.sky_y_mask.len() == 0
                    &&& light_data.block_y_mask.len() == 0
                    &&& light_data.empty_sky_y_mask.len() == 0
                    &&& light_data.empty_block_y_mask.len() == 0
                }
                &&& one_more(player, hidden, PlayPacket::ForgetLevelChunk { x, z })
                &&& one_more(player, centered, PlayPacket::SetChunkCacheCenter { x, z })
            }
        }),
{
    if player.packets.active && !player.packets.closed {
        assert(player.shown(chunk).packets.outgoing.drop_last() =~= player.packets.outgoing);
    }
}

/// What a client is told of its inventory is what it then has, and nothing else of the client
/// changes.
pub proof fn inventories_are_told(
    player: Player,
    inventory: Inventory,
    number: int,
    item: Option<Item>,
)
    ensures
        ({
            let refilled = player.refilled(inventory);
            let filled = player.filled(number, item);
            &&& refilled.inventory == inventory
            &&& told_alone(player, Player { inventory: player.inventory, ..refilled })
            &&& told_alone(player, Player { inventory: player.inventory, ..filled })
            &&& player.packets.active && !player.packets.closed ==> {
                &&& refilled.packets.outgoing.len() == player.packets.outgoing.len() + 1
                &&& filled.packets.outgoing.len() == player.packets.outgoing.len() + 1
                &&& refilled.packets.outgoing.last() matches PlayPacket::ContainerSetContent {
                    container_id,
                    state_id,
                    items,
                    carried_item,
                } && container_id == 0 && state_id == inventory.state_id && items
                    == inventory.slots && carried_item is None
                &&& 0 <= number < player.inventory.slots.len() <= 46 ==> {
                    &&& filled.inventory.slots[number] == item
                    &&& filled.packets.outgoing.last() matches PlayPacket::ContainerSetSlot {
                        container_id,
                        slot,
                        item: sent,
                        ..
                    } && container_id == 0 && slot == number && sent == item
                }
            }
        }),
{
}

/// A player is tracked under the id of their entity and the UUID of their profile, from where
/// they are, and is shown as a player.
pub proof fn players_are_tracked_as_players(player: ConnectedPlayer)
    ensures
        player.particulars().0 == player.entity_id,
        player.particulars().1 == player.profile.id,
        player.particulars().2 == player.position,
        player.particulars().3 == player.on_ground,
        player.particulars().4 is Player,
{
}

/// What a client that plays is, field by field.
pub proof fn players_are_what_they_hold(player: ConnectedPlayer)
    ensures
        player@.entity_id == player.entity_id,
        player@.profile == player.profile@,
        player@.is_position_loaded == player.is_position_loaded,
        player@.position == player.position,
        player@.on_ground == player.on_ground,
        player@.teleport_id_incr == player.teleport_id_incr,
        player@.known_chunks == player.known_chunks@,
        player@.packets.send == player.packets.send,
        player@.packets.outgoing.len() == player.packets.outbox.queue@.len(),
        forall|i: int|
            0 <= i < player.packets.outbox.queue@.len() ==> #[trigger] player@.packets.outgoing[i]
                == (*player.packets.outbox.queue@[i])@,
        player@.packets.closed == player.packets.outbox.closed,
        player@.packets.incoming == player.packets.packet_listener.queue@,
        player@.packets.disconnected == player.packets.packet_listener.disconnected,
        player@.packets.active == player.packets.active,
        player@.packets.connection_information == player.packets.connection_information,
{
}

} // verus!
