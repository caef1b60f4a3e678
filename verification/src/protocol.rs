//! The data that packets carry, as plain values, and the packets themselves.
use crate::nbt::{Nbt, Tag};
use std::sync::Arc;
use vstd::prelude::*;

verus! {

/// A UUID, as the integer that its sixteen bytes stand for.
pub type Uuid = u128;

/// A point. Each coordinate is the bit pattern of a double.
#[derive(Clone, Copy, Debug, PartialEq, Eq, Structural)]
pub struct SimpleLocation {
    pub x: u64,
    pub y: u64,
    pub z: u64,
}

/// An angle in degrees: the bit pattern of a float, and the number of whole steps of
/// one 256th of a turn in it, rounded down.
#[derive(Clone, Copy, Debug, PartialEq, Eq, Structural)]
pub struct Angle {
    pub bits: u32,
    pub steps: i32,
}

/// A point and a direction.
#[derive(Clone, Copy, Debug, PartialEq, Eq, Structural)]
pub struct Location {
    pub inner_loc: SimpleLocation,
    pub yaw: Angle,
    pub pitch: Angle,
}

/// The sending side of a client's connection.
#[derive(Clone, Copy, Debug, PartialEq, Eq, Structural)]
pub struct PacketSend {
    pub channel: u64,
}

/// The position of a block.
#[derive(Clone, Copy, Debug, PartialEq, Eq, Structural)]
pub struct BlockPos {
    pub x: i32,
    pub y: i32,
    pub z: i32,
}

/// The position of a cube of sixteen blocks along each edge.
#[derive(Clone, Copy, Debug, PartialEq, Eq, Structural)]
pub struct SectionPos {
    pub x: i32,
    pub y: i32,
    pub z: i32,
}

/// A block and the kind of block that it becomes.
#[derive(Clone, Copy, Debug, PartialEq, Eq, Structural)]
pub struct BlockUpdate {
    pub block_id: i32,
    pub block_pos: BlockPos,
}

/// The position of a block in a dimension.
#[derive(Debug, PartialEq)]
pub struct GlobalPos {
    pub dimension: String,
    pub pos: BlockPos,
}

/// What an optional position in a dimension holds.
pub open spec fn global_pos_view(pos: Option<GlobalPos>) -> Option<(Seq<char>, BlockPos)> {
    match pos {
        Some(p) => Some((p.dimension@, p.pos)),
        None => None,
    }
}

/// A chat component, in the JSON form in which it is sent.
#[derive(Debug, PartialEq)]
pub struct Chat {
    pub json: String,
}

impl View for Chat {
    type V = Seq<char>;

    open spec fn view(&self) -> Seq<char> {
        self.json@
    }
}

impl Clone for Chat {
    fn clone(&self) -> (copy: Chat)
        ensures
            copy@ == self@,
    {
        Chat { json: self.json.clone() }
    }
}

/// A stack of items.
#[derive(Debug)]
pub struct ItemStack {
    pub item_id: i32,
    pub count: u8,
    pub tag: Option<Tag>,
}

/// What a stack of items is.
pub struct Item {
    pub item_id: i32,
    pub count: u8,
    pub tag: Option<Nbt>,
}

/// What an optional tag holds.
pub open spec fn tag_view(tag: Option<Tag>) -> Option<Nbt> {
    match tag {
        Some(t) => Some(t@),
        None => None,
    }
}

impl View for ItemStack {
    type V = Item;

    open spec fn view(&self) -> Item {
        Item { item_id: self.item_id, count: self.count, tag: tag_view(self.tag) }
    }
}

/// What a slot holds.
pub open spec fn slot_view(slot: Option<ItemStack>) -> Option<Item> {
    match slot {
        Some(item) => Some(item@),
        None => None,
    }
}

/// What a row of slots holds.
pub open spec fn slots_view(slots: Seq<Option<ItemStack>>) -> Seq<Option<Item>> {
    Seq::new(slots.len(), |i: int| slot_view(slots[i]))
}

/// What a list of texts holds.
pub open spec fn texts_view(texts: Seq<String>) -> Seq<Seq<char>> {
    Seq::new(texts.len(), |i: int| texts[i]@)
}

/// Equality of stacks: kind, count and tag are equal.
pub open spec fn same_item(a: Item, b: Item) -> bool {
    &&& a.item_id == b.item_id
    &&& a.count == b.count
    &&& match (a.tag, b.tag) {
        (Some(x), Some(y)) => crate::nbt::same_tag(x, y),
        (None, None) => true,
        _ => false,
    }
}

/// Equality of slots: both are empty, or the stacks are equal.
pub open spec fn same_slot(a: Option<Item>, b: Option<Item>) -> bool {
    match (a, b) {
        (Some(x), Some(y)) => same_item(x, y),
        (None, None) => true,
        _ => false,
    }
}

impl ItemStack {
    /// Whether two stacks are equal.
    pub fn same(&self, other: &ItemStack) -> (r: bool)
        ensures
            r == same_item(self@, other@),
    {
        self.item_id == other.item_id && self.count == other.count && match (
            &self.tag,
            &other.tag,
        ) {
            (Some(a), Some(b)) => a.same(b),
            (None, None) => true,
            _ => false,
        }
    }
}

impl Clone for ItemStack {
    fn clone(&self) -> (copy: ItemStack)
        ensures
            copy@ == self@,
    {
        let tag: Option<Tag> = match &self.tag {
            Some(t) => Some(t.clone()),
            None => None,
        };
        ItemStack { item_id: self.item_id, count: self.count, tag }
    }
}

impl PartialEq for ItemStack {
    fn eq(&self, other: &ItemStack) -> (r: bool) {
        self.same(other)
    }
}

impl vstd::std_specs::cmp::PartialEqSpecImpl for ItemStack {
    open spec fn obeys_eq_spec() -> bool {
        true
    }

    open spec fn eq_spec(&self, other: &ItemStack) -> bool {
        same_item(self@, other@)
    }
}

/// A copy of a slot.
pub fn copy_slot(slot: &Option<ItemStack>) -> (copy: Option<ItemStack>)
    ensures
        slot_view(copy) == slot_view(*slot),
{
    match slot {
        Some(item) => Some(item.clone()),
        None => None,
    }
}

/// Whether two slots are equal.
pub fn slots_equal(a: &Option<ItemStack>, b: &Option<ItemStack>) -> (r: bool)
    ensures
        r == same_slot(slot_view(*a), slot_view(*b)),
{
    match (a, b) {
        (Some(x), Some(y)) => x.same(y),
        (None, None) => true,
        _ => false,
    }
}

/// The ways to click in a container.
#[derive(Clone, Copy, Debug, PartialEq, Eq, Structural)]
pub enum ClickType {
    Pickup,
    QuickMove,
    Swap,
    Clone,
    Throw,
    QuickCraft,
    PickupAll,
}

/// A slot of a container, as a click left it.
#[derive(Debug, PartialEq)]
pub struct ContainerSlot {
    pub slot_num: u16,
    pub slot_data: Option<ItemStack>,
}

/// The shapes of container that a menu can have.
#[derive(Clone, Copy, Debug, PartialEq, Eq, Structural)]
pub enum MenuType {
    Generic9x1,
    Generic9x2,
    Generic9x3,
    Generic9x4,
    Generic9x5,
    Generic9x6,
}

/// A property of a profile.
#[derive(Debug, PartialEq)]
pub struct GameProfileProperty {
    pub name: String,
    pub value: String,
    pub signature: Option<String>,
}

impl GameProfileProperty {
    /// The name, the value and the signature.
    pub open spec fn parts(&self) -> (Seq<char>, Seq<char>, Option<Seq<char>>) {
        (
            self.name@,
            self.value@,
            match self.signature {
                Some(s) => Some(s@),
                None => None,
            },
        )
    }
}

impl Clone for GameProfileProperty {
    fn clone(&self) -> (copy: GameProfileProperty)
        ensures
            copy.parts() == self.parts(),
    {
        let signature: Option<String> = match &self.signature {
            Some(s) => Some(s.clone()),
            None => None,
        };
        GameProfileProperty { name: self.name.clone(), value: self.value.clone(), signature }
    }
}

/// Who a client is.
#[derive(Debug, PartialEq)]
pub struct GameProfile {
    pub id: Uuid,
    pub name: String,
    pub properties: Vec<GameProfileProperty>,
}

/// What a profile holds.
pub struct Profile {
    pub id: Uuid,
    pub name: Seq<char>,
    pub properties: Seq<(Seq<char>, Seq<char>, Option<Seq<char>>)>,
}

impl View for GameProfile {
    type V = Profile;

    open spec fn view(&self) -> Profile {
        Profile {
            id: self.id,
            name: self.name@,
            properties: Seq::new(self.properties@.len(), |i: int| self.properties@[i].parts()),
        }
    }
}

impl Clone for GameProfile {
    fn clone(&self) -> (copy: GameProfile)
        ensures
            copy@ == self@,
    {
        let mut properties: Vec<GameProfileProperty> = Vec::new();
        let mut i: usize = 0;
        while i < self.properties.len()
            invariant
                i <= self.properties.len(),
                properties@.len() == i,
                forall|j: int|
                    0 <= j < i ==> (#[trigger] properties@[j]).parts()
                        == self.properties@[j].parts(),
            decreases self.properties.len() - i,
        {
            properties.push(self.properties[i].clone());
            i = i + 1;
        }
        let copy = GameProfile { id: self.id, name: self.name.clone(), properties };
        assert(copy@.properties =~= self@.properties);
        copy
    }
}

/// A column of blocks, in the form in which it is sent.
#[derive(Debug, PartialEq)]
pub struct Chunk {
    pub x: i32,
    pub z: i32,
    pub data: Vec<u8>,
}

/// A chunk and the block entities in it.
#[derive(Debug, PartialEq)]
pub struct LevelChunkData {
    pub chunk: Chunk,
    pub block_entities: Vec<Vec<u8>>,
}

/// What a chunk packet holds of its chunk.
pub struct ChunkContents {
    pub x: i32,
    pub z: i32,
    pub data: Seq<u8>,
    pub block_entities: Seq<Seq<u8>>,
}

/// What a list of byte strings holds.
pub open spec fn byte_strings_view(strings: Seq<Vec<u8>>) -> Seq<Seq<u8>> {
    Seq::new(strings.len(), |i: int| strings[i]@)
}

impl View for LevelChunkData {
    type V = ChunkContents;

    open spec fn view(&self) -> ChunkContents {
        ChunkContents {
            x: self.chunk.x,
            z: self.chunk.z,
            data: self.chunk.data@,
            block_entities: byte_strings_view(self.block_entities@),
        }
    }
}

/// The light of a chunk. Each mask is a bit set, as the words that hold its bits.
#[derive(Debug, PartialEq)]
pub struct LightUpdateData {
    pub trust_edges: bool,
    pub sky_y_mask: Vec<u64>,
    pub block_y_mask: Vec<u64>,
    pub empty_sky_y_mask: Vec<u64>,
    pub empty_block_y_mask: Vec<u64>,
    pub sky_updates: Vec<Vec<u8>>,
    pub block_updates: Vec<Vec<u8>>,
}

/// What the light of a chunk is.
pub struct Light {
    pub trust_edges: bool,
    pub sky_y_mask: Seq<u64>,
    pub block_y_mask: Seq<u64>,
    pub empty_sky_y_mask: Seq<u64>,
    pub empty_block_y_mask: Seq<u64>,
    pub sky_updates: Seq<Seq<u8>>,
    pub block_updates: Seq<Seq<u8>>,
}

impl View for LightUpdateData {
    type V = Light;

    open spec fn view(&self) -> Light {
        Light {
            trust_edges: self.trust_edges,
            sky_y_mask: self.sky_y_mask@,
            block_y_mask: self.block_y_mask@,
            empty_sky_y_mask: self.empty_sky_y_mask@,
            empty_block_y_mask: self.empty_block_y_mask@,
            sky_updates: byte_strings_view(self.sky_updates@),
            block_updates: byte_strings_view(self.block_updates@),
        }
    }
}

/// Packets that the server sends while a client plays.
#[allow(inconsistent_fields)]
#[derive(Debug, PartialEq)]
pub enum ClientboundPlayRegistry {
    /// Fills every slot of a container.
    ContainerSetContent {
        container_id: u8,
        state_id: i32,
        items: Vec<Option<ItemStack>>,
        carried_item: Option<ItemStack>,
    },
    /// Fills one slot of a container.
    ContainerSetSlot { container_id: u8, state_id: i32, slot: u16, item: Option<ItemStack> },
    /// Opens a container.
    OpenScreen { container_id: i32, container_type: MenuType, title: Chat },
    /// Closes a container.
    ContainerClose { container_id: u8 },
    /// Selects a slot of the hotbar.
    SetCarriedItem { slot: u8 },
    /// Moves the client into the game.
    ClientLogin {
        player_id: i32,
        hardcore: bool,
        game_type: u8,
        previous_game_type: u8,
        levels: Vec<String>,
        codec: Option<Tag>,
        dimension_type: String,
        dimension: String,
        seed: u64,
        max_players: i32,
        chunk_radius: i32,
        simulation_distance: i32,
        reduced_debug_info: bool,
        show_death_screen: bool,
        is_debug: bool,
        is_flat: bool,
        last_death_location: Option<GlobalPos>,
    },
    /// Asks the client for a sign of life.
    KeepAlive { id: u64 },
    /// Data on a named channel.
    CustomPayload { identifier: String, data: Vec<u8> },
    /// Sets where a compass points; `angle` is the bit pattern of a float.
    SetDefaultSpawnPosition { pos: BlockPos, angle: u32 },
    /// Moves an entity by a fixed point offset.
    MoveEntityPos { id: i32, xa: i16, ya: i16, za: i16, on_ground: bool },
    /// Moves and turns an entity.
    MoveEntityPosRot { id: i32, xa: i16, ya: i16, za: i16, y_rot: u8, x_rot: u8, on_ground: bool },
    /// Turns an entity.
    MoveEntityRot { entity_id: i32, y_rot: u8, x_rot: u8, on_ground: bool },
    /// Places an entity.
    TeleportEntity {
        entity_id: i32,
        location: SimpleLocation,
        y_rot: u8,
        x_rot: u8,
        on_ground: bool,
    },
    /// Turns the head of an entity.
    RotateHead { entity_id: i32, y_head_rot: u8 },
    /// Shows an entity that is no player.
    AddEntity {
        id: i32,
        uuid: Uuid,
        entity_type: i32,
        location: SimpleLocation,
        x_rot: u8,
        y_rot: u8,
        y_head_rot: u8,
        data: i32,
        xa: i16,
        ya: i16,
        za: i16,
    },
    /// Shows a player.
    AddPlayer { entity_id: i32, player_id: Uuid, location: SimpleLocation, y_rot: u8, x_rot: u8 },
    /// Removes entities.
    RemoveEntities { entity_ids: Vec<i32> },
    /// Ends the connection.
    Disconnect { reason: Chat },
    /// Teleports the client.
    PlayerPosition { location: Location, relative_arguments: u8, id: i32, dismount: bool },
    /// Shows a chunk.
    LevelChunkWithLight { chunk_data: LevelChunkData, light_data: LightUpdateData },
    /// Hides a chunk.
    ForgetLevelChunk { x: i32, z: i32 },
    /// Sets the chunk around which the client keeps chunks.
    SetChunkCacheCenter { x: i32, z: i32 },
    /// A message from the server.
    SystemChat { content: Chat, overlay: bool },
    /// Changes blocks of one section.
    SectionBlocksUpdate {
        section_pos: SectionPos,
        suppress_light_update: bool,
        update_info: Vec<BlockUpdate>,
    },
}

/// What a play packet holds.
#[allow(inconsistent_fields)]
pub enum PlayPacket {
    ContainerSetContent {
        container_id: u8,
        state_id: i32,
        items: Seq<Option<Item>>,
        carried_item: Option<Item>,
    },
    ContainerSetSlot { container_id: u8, state_id: i32, slot: u16, item: Option<Item> },
    OpenScreen { container_id: i32, container_type: MenuType, title: Seq<char> },
    ContainerClose { container_id: u8 },
    SetCarriedItem { slot: u8 },
    ClientLogin {
        player_id: i32,
        hardcore: bool,
        game_type: u8,
        previous_game_type: u8,
        levels: Seq<Seq<char>>,
        codec: Option<Nbt>,
        dimension_type: Seq<char>,
        dimension: Seq<char>,
        seed: u64,
        max_players: i32,
        chunk_radius: i32,
        simulation_distance: i32,
        reduced_debug_info: bool,
        show_death_screen: bool,
        is_debug: bool,
        is_flat: bool,
        last_death_location: Option<(Seq<char>, BlockPos)>,
    },
    KeepAlive { id: u64 },
    CustomPayload { identifier: Seq<char>, data: Seq<u8> },
    SetDefaultSpawnPosition { pos: BlockPos, angle: u32 },
    MoveEntityPos { id: i32, xa: i16, ya: i16, za: i16, on_ground: bool },
    MoveEntityPosRot { id: i32, xa: i16, ya: i16, za: i16, y_rot: u8, x_rot: u8, on_ground: bool },
    MoveEntityRot { entity_id: i32, y_rot: u8, x_rot: u8, on_ground: bool },
    TeleportEntity {
        entity_id: i32,
        location: SimpleLocation,
        y_rot: u8,
        x_rot: u8,
        on_ground: bool,
    },
    RotateHead { entity_id: i32, y_head_rot: u8 },
    AddEntity {
        id: i32,
        uuid: Uuid,
        entity_type: i32,
        location: SimpleLocation,
        x_rot: u8,
        y_rot: u8,
        y_head_rot: u8,
        data: i32,
        xa: i16,
        ya: i16,
        za: i16,
    },
    AddPlayer { entity_id: i32, player_id: Uuid, location: SimpleLocation, y_rot: u8, x_rot: u8 },
    RemoveEntities { entity_ids: Seq<i32> },
    Disconnect { reason: Seq<char> },
    PlayerPosition { location: Location, relative_arguments: u8, id: i32, dismount: bool },
    LevelChunkWithLight { chunk_data: ChunkContents, light_data: Light },
    ForgetLevelChunk { x: i32, z: i32 },
    SetChunkCacheCenter { x: i32, z: i32 },
    SystemChat { content: Seq<char>, overlay: bool },
    SectionBlocksUpdate {
        section_pos: SectionPos,
        suppress_light_update: bool,
        update_info: Seq<BlockUpdate>,
    },
}

impl View for ClientboundPlayRegistry {
    type V = PlayPacket;

    open spec fn view(&self) -> PlayPacket {
        match *self {
            ClientboundPlayRegistry::ContainerSetContent {
                container_id,
                state_id,
                items,
                carried_item,
            } => PlayPacket::ContainerSetContent {
                container_id,
                state_id,
                items: slots_view(items@),
                carried_item: slot_view(carried_item),
            },
            ClientboundPlayRegistry::ContainerSetSlot { container_id, state_id, slot, item } => {
                PlayPacket::ContainerSetSlot { container_id, state_id, slot, item: slot_view(item) }
            },
            ClientboundPlayRegistry::OpenScreen { container_id, container_type, title } => {
                PlayPacket::OpenScreen { container_id, container_type, title: title@ }
            },
            ClientboundPlayRegistry::ContainerClose { container_id } => {
                PlayPacket::ContainerClose { container_id }
            },
            ClientboundPlayRegistry::SetCarriedItem { slot } => PlayPacket::SetCarriedItem { slot },
            ClientboundPlayRegistry::ClientLogin {
                player_id,
                hardcore,
                game_type,
                previous_game_type,
                levels,
                codec,
                dimension_type,
                dimension,
                seed,
                max_players,
                chunk_radius,
                simulation_distance,
                reduced_debug_info,
                show_death_screen,
                is_debug,
                is_flat,
                last_death_location,
            } => PlayPacket::ClientLogin {
                player_id,
                hardcore,
                game_type,
                previous_game_type,
                levels: texts_view(levels@),
                codec: tag_view(codec),
                dimension_type: dimension_type@,
                dimension: dimension@,
                seed,
                max_players,
                chunk_radius,
                simulation_distance,
                reduced_debug_info,
                show_death_screen,
                is_debug,
                is_flat,
                last_death_location: global_pos_view(last_death_location),
            },
            ClientboundPlayRegistry::KeepAlive { id } => PlayPacket::KeepAlive { id },
            ClientboundPlayRegistry::CustomPayload { identifier, data } => {
                PlayPacket::CustomPayload { identifier: identifier@, data: data@ }
            },
            ClientboundPlayRegistry::SetDefaultSpawnPosition { pos, angle } => {
                PlayPacket::SetDefaultSpawnPosition { pos, angle }
            },
            ClientboundPlayRegistry::MoveEntityPos { id, xa, ya, za, on_ground } => {
                PlayPacket::MoveEntityPos { id, xa, ya, za, on_ground }
            },
            ClientboundPlayRegistry::MoveEntityPosRot {
                id,
                xa,
                ya,
                za,
                y_rot,
                x_rot,
                on_ground,
            } => {
                PlayPacket::MoveEntityPosRot { id, xa, ya, za, y_rot, x_rot, on_ground }
            },
            ClientboundPlayRegistry::MoveEntityRot { entity_id, y_rot, x_rot, on_ground } => {
                PlayPacket::MoveEntityRot { entity_id, y_rot, x_rot, on_ground }
            },
            ClientboundPlayRegistry::TeleportEntity {
                entity_id,
                location,
                y_rot,
                x_rot,
                on_ground,
            } => {
                PlayPacket::TeleportEntity { entity_id, location, y_rot, x_rot, on_ground }
            },
            ClientboundPlayRegistry::RotateHead { entity_id, y_head_rot } => {
                PlayPacket::RotateHead { entity_id, y_head_rot }
            },
            ClientboundPlayRegistry::AddEntity {
                id,
                uuid,
                entity_type,
                location,
                x_rot,
                y_rot,
                y_head_rot,
                data,
                xa,
                ya,
                za,
            } => PlayPacket::AddEntity {
                id,
                uuid,
                entity_type,
                location,
                x_rot,
                y_rot,
                y_head_rot,
                data,
                xa,
                ya,
                za,
            },
            ClientboundPlayRegistry::AddPlayer { entity_id, player_id, location, y_rot, x_rot } => {
                PlayPacket::AddPlayer { entity_id, player_id, location, y_rot, x_rot }
            },
            ClientboundPlayRegistry::RemoveEntities { entity_ids } => {
                PlayPacket::RemoveEntities { entity_ids: entity_ids@ }
            },
            ClientboundPlayRegistry::Disconnect { reason } => {
                PlayPacket::Disconnect { reason: reason@ }
            },
            ClientboundPlayRegistry::PlayerPosition {
                location,
                relative_arguments,
                id,
                dismount,
            } => {
                PlayPacket::PlayerPosition { location, relative_arguments, id, dismount }
            },
            ClientboundPlayRegistry::LevelChunkWithLight { chunk_data, light_data } => {
                PlayPacket::LevelChunkWithLight { chunk_data: chunk_data@, light_data: light_data@ }
            },
            ClientboundPlayRegistry::ForgetLevelChunk { x, z } => {
                PlayPacket::ForgetLevelChunk { x, z }
            },
            ClientboundPlayRegistry::SetChunkCacheCenter { x, z } => {
                PlayPacket::SetChunkCacheCenter { x, z }
            },
            ClientboundPlayRegistry::SystemChat { content, overlay } => {
                PlayPacket::SystemChat { content: content@, overlay }
            },
            ClientboundPlayRegistry::SectionBlocksUpdate {
                section_pos,
                suppress_light_update,
                update_info,
            } => PlayPacket::SectionBlocksUpdate {
                section_pos,
                suppress_light_update,
                update_info: update_info@,
            },
        }
    }
}

/// What a list of packets holds.
pub open spec fn packets_view(packets: Seq<ClientboundPlayRegistry>) -> Seq<PlayPacket> {
    Seq::new(packets.len(), |i: int| packets[i]@)
}

/// What a list of shared packets holds.
pub open spec fn shared_packets_view(packets: Seq<Arc<ClientboundPlayRegistry>>) -> Seq<
    PlayPacket,
> {
    Seq::new(packets.len(), |i: int| (*packets[i])@)
}

/// Packets that the server sends during the login.
#[derive(Debug, PartialEq)]
pub enum ClientboundLoginRegistry {
    /// Refuses the login. The reason is plain text.
    LoginDisconnect { reason: String },
    /// Asks the client to prove that it can decrypt.
    Hello { server_id: String, public_key: Vec<u8>, challenge: Vec<u8> },
    /// Completes the login.
    LoginGameProfile { game_profile: GameProfile },
    /// Turns compression on.
    LoginCompression { threshold: i32 },
}

/// What a login packet holds.
pub enum LoginPacket {
    LoginDisconnect { reason: Seq<char> },
    Hello { server_id: Seq<char>, public_key: Seq<u8>, challenge: Seq<u8> },
    LoginGameProfile { game_profile: Profile },
    LoginCompression { threshold: i32 },
}

impl View for ClientboundLoginRegistry {
    type V = LoginPacket;

    open spec fn view(&self) -> LoginPacket {
        match *self {
            ClientboundLoginRegistry::LoginDisconnect { reason } => LoginPacket::LoginDisconnect {
                reason: reason@,
            },
            ClientboundLoginRegistry::Hello { server_id, public_key, challenge } => {
                LoginPacket::Hello {
                    server_id: server_id@,
                    public_key: public_key@,
                    challenge: challenge@,
                }
            },
            ClientboundLoginRegistry::LoginGameProfile { game_profile } => {
                LoginPacket::LoginGameProfile { game_profile: game_profile@ }
            },
            ClientboundLoginRegistry::LoginCompression { threshold } => {
                LoginPacket::LoginCompression { threshold }
            },
        }
    }
}

/// A list of packets holds what each of them does, in its place.
pub proof fn packets_are_held_in_order(
    packets: Seq<ClientboundPlayRegistry>,
    shared: Seq<Arc<ClientboundPlayRegistry>>,
)
    ensures
        packets_view(packets).len() == packets.len(),
        forall|i: int|
            0 <= i < packets.len() ==> #[trigger] packets_view(packets)[i] == packets[i]@,
        shared_packets_view(shared).len() == shared.len(),
        forall|i: int|
            0 <= i < shared.len() ==> #[trigger] shared_packets_view(shared)[i] == (*shared[i])@,
{
}

/// A packet on where an entity or a client is holds each of its fields.
pub proof fn movement_packets_hold_their_fields(packet: ClientboundPlayRegistry)
    ensures
        match packet {
            ClientboundPlayRegistry::MoveEntityPos { id, xa, ya, za, on_ground } => packet@
                matches PlayPacket::MoveEntityPos { id: i, xa: x, ya: y, za: z, on_ground: g } && i
                == id && x == xa && y == ya && z == za && g == on_ground,
            ClientboundPlayRegistry::MoveEntityPosRot {
                id,
                xa,
                ya,
                za,
                y_rot,
                x_rot,
                on_ground,
            } => packet@ matches PlayPacket::MoveEntityPosRot {
                id: i,
                xa: x,
                ya: y,
                za: z,
                y_rot: yaw,
                x_rot: pitch,
                on_ground: g,
            } && i == id && x == xa && y == ya && z == za && yaw == y_rot && pitch == x_rot && g
                == on_ground,
            ClientboundPlayRegistry::MoveEntityRot { entity_id, y_rot, x_rot, on_ground } => packet@
                matches PlayPacket::MoveEntityRot {
                entity_id: i,
                y_rot: yaw,
                x_rot: pitch,
                on_ground: g,
            } && i == entity_id && yaw == y_rot && pitch == x_rot && g == on_ground,
            ClientboundPlayRegistry::TeleportEntity {
                entity_id,
                location,
                y_rot,
                x_rot,
                on_ground,
            } => packet@ matches PlayPacket::TeleportEntity {
                entity_id: i,
                location: at,
                y_rot: yaw,
                x_rot: pitch,
                on_ground: g,
            } && i == entity_id && at == location && yaw == y_rot && pitch == x_rot && g
                == on_ground,
            ClientboundPlayRegistry::RotateHead { entity_id, y_head_rot } => packet@
                matches PlayPacket::RotateHead { entity_id: i, y_head_rot: head } && i == entity_id
                && head == y_head_rot,
            ClientboundPlayRegistry::AddEntity {
                id,
                uuid,
                entity_type,
                location,
                x_rot,
                y_rot,
                y_head_rot,
                data,
                xa,
                ya,
                za,
            } => packet@ matches PlayPacket::AddEntity {
                id: i,
                uuid: u,
                entity_type: t,
                location: at,
                x_rot: pitch,
                y_rot: yaw,
                y_head_rot: head,
                data: d,
                xa: x,
                ya: y,
                za: z,
            } && i == id && u == uuid && t == entity_type && at == location && pitch == x_rot && yaw
                == y_rot && head == y_head_rot && d == data && x == xa && y == ya && z == za,
            ClientboundPlayRegistry::AddPlayer { entity_id, player_id, location, y_rot, x_rot } => {
                packet@ matches PlayPacket::AddPlayer {
                    entity_id: i,
                    player_id: u,
                    location: at,
                    y_rot: yaw,
                    x_rot: pitch,
                } && i == entity_id && u == player_id && at == location && yaw == y_rot && pitch
                    == x_rot
            },
            ClientboundPlayRegistry::RemoveEntities { entity_ids } => packet@
                matches PlayPacket::RemoveEntities { entity_ids: ids } && ids == entity_ids@,
            ClientboundPlayRegistry::PlayerPosition {
                location,
                relative_arguments,
                id,
                dismount,
            } => packet@ matches PlayPacket::PlayerPosition {
                location: at,
                relative_arguments: r,
                id: i,
                dismount: d,
            } && at == location && r == relative_arguments && i == id && d == dismount,
            _ => true,
        },
{
}

/// Any other packet of play holds each of its fields too.
pub proof fn play_packets_hold_their_fields(packet: ClientboundPlayRegistry)
    ensures
        match packet {
            ClientboundPlayRegistry::ContainerSetContent {
                container_id,
                state_id,
                items,
                carried_item,
            } => packet@ matches PlayPacket::ContainerSetContent {
                container_id: c,
                state_id: s,
                items: all,
                carried_item: carried,
            } && c == container_id && s == state_id && all.len() == items@.len() && (forall|i: int|
                0 <= i < items@.len() ==> #[trigger] all[i] == slot_view(items@[i])) && carried
                == slot_view(carried_item),
            ClientboundPlayRegistry::ContainerSetSlot { container_id, state_id, slot, item } => {
                packet@ matches PlayPacket::ContainerSetSlot {
                    container_id: c,
                    state_id: s,
                    slot: n,
                    item: i,
                } && c == container_id && s == state_id && n == slot && i == slot_view(item)
            },
            ClientboundPlayRegistry::OpenScreen { container_id, container_type, title } => packet@
                matches PlayPacket::OpenScreen { container_id: c, container_type: t, title: n } && c
                == container_id && t == container_type && n == title.json@,
            ClientboundPlayRegistry::ContainerClose { container_id } => packet@
                matches PlayPacket::ContainerClose { container_id: c } && c == container_id,
            ClientboundPlayRegistry::SetCarriedItem { slot } => packet@
                matches PlayPacket::SetCarriedItem { slot: s } && s == slot,
            ClientboundPlayRegistry::ClientLogin {
                player_id,
                hardcore,
                game_type,
                previous_game_type,
                levels,
                codec,
                dimension_type,
                dimension,
                seed,
                max_players,
                chunk_radius,
                simulation_distance,
                reduced_debug_info,
                show_death_screen,
                is_debug,
                is_flat,
                last_death_location,
            } => packet@ matches PlayPacket::ClientLogin {
                player_id: p,
                hardcore: h,
                game_type: g,
                previous_game_type: pg,
                levels: l,
                codec: c,
                dimension_type: dt,
                dimension: d,
                seed: s,
                max_players: m,
                chunk_radius: cr,
                simulation_distance: sd,
                reduced_debug_info: rd,
                show_death_screen: sh,
                is_debug: de,
                is_flat: fl,
                last_death_location: ld,
            } && {
                &&& p == player_id && h == hardcore && g == game_type && pg == previous_game_type
                &&& l.len() == levels@.len()
                &&& forall|i: int| 0 <= i < levels@.len() ==> #[trigger] l[i] == levels@[i]@
                &&& c == tag_view(codec)
                &&& dt == dimension_type@ && d == dimension@ && s == seed && m == max_players
                &&& cr == chunk_radius && sd == simulation_distance && rd == reduced_debug_info
                &&& sh == show_death_screen && de == is_debug && fl == is_flat
                &&& match last_death_location {
                    Some(place) => ld == Some((place.dimension@, place.pos)),
                    None => ld is None,
                }
            },
            ClientboundPlayRegistry::KeepAlive { id } => packet@ matches PlayPacket::KeepAlive {
                id: i,
            } && i == id,
            ClientboundPlayRegistry::CustomPayload { identifier, data } => packet@
                matches PlayPacket::CustomPayload { identifier: n, data: d } && n == identifier@ && d
                == data@,
            ClientboundPlayRegistry::SetDefaultSpawnPosition { pos, angle } => packet@
                matches PlayPacket::SetDefaultSpawnPosition { pos: p, angle: a } && p == pos && a
                == angle,
            ClientboundPlayRegistry::Disconnect { reason } => packet@
                matches PlayPacket::Disconnect { reason: r } && r == reason.json@,
            ClientboundPlayRegistry::LevelChunkWithLight { chunk_data, light_data } => packet@
                matches PlayPacket::LevelChunkWithLight { chunk_data: c, light_data: l } && {
                &&& c.x == chunk_data.chunk.x
                &&& c.z == chunk_data.chunk.z
                &&& c.data == chunk_data.chunk.data@
                &&& c.block_entities.len() == chunk_data.block_entities@.len()
                &&& l.trust_edges == light_data.trust_edges
                &&& l.sky_y_mask == light_data.sky_y_mask@
                &&& l.block_y_mask == light_data.block_y_mask@
                &&& l.empty_sky_y_mask == light_data.empty_sky_y_mask@
                &&& l.empty_block_y_mask == light_data.empty_block_y_mask@
                &&& l.sky_updates.len() == light_data.sky_updates@.len()
                &&& l.block_updates.len() == light_data.block_updates@.len()
                &&& forall|i: int|
                    0 <= i < l.sky_updates.len() ==> #[trigger] l.sky_updates[i]
                        == light_data.sky_updates@[i]@
                &&& forall|i: int|
                    0 <= i < l.block_updates.len() ==> #[trigger] l.block_updates[i]
                        == light_data.block_updates@[i]@
            },
            ClientboundPlayRegistry::ForgetLevelChunk { x, z } => packet@
                matches PlayPacket::ForgetLevelChunk { x: a, z: b } && a == x && b == z,
            ClientboundPlayRegistry::SetChunkCacheCenter { x, z } => packet@
                matches PlayPacket::SetChunkCacheCenter { x: a, z: b } && a == x && b == z,
            ClientboundPlayRegistry::SystemChat { content, overlay } => packet@
                matches PlayPacket::SystemChat { content: c, overlay: o } && c == content.json@ && o
                == overlay,
            ClientboundPlayRegistry::SectionBlocksUpdate {
                section_pos,
                suppress_light_update,
                update_info,
            } => packet@ matches PlayPacket::SectionBlocksUpdate {
                section_pos: s,
                suppress_light_update: l,
                update_info: u,
            } && s == section_pos && l == suppress_light_update && u == update_info@,
            _ => true,
        },
{
}

/// A slot holds a stack of the kind, the count and the tag that it was filled with, or
/// nothing.
pub proof fn slots_hold_their_stack(slot: Option<ItemStack>)
    ensures
        match slot {
            Some(stack) => slot_view(slot) matches Some(item) && item.item_id == stack.item_id
                && item.count == stack.count && match stack.tag {
                Some(tag) => item.tag == Some(tag@),
                None => item.tag is None,
            },
            None => slot_view(slot) is None,
        },
{
}

/// Slots are equal exactly where both are empty, or both hold as many items of one kind with
/// equal tags, or with none.
pub proof fn slots_are_equal_in_every_part(a: Option<Item>, b: Option<Item>)
    ensures
        same_slot(a, b) <==> {
            ||| a is None && b is None
            ||| {
                &&& a is Some && b is Some
                &&& a->0.item_id == b->0.item_id
                &&& a->0.count == b->0.count
                &&& (a->0.tag is None <==> b->0.tag is None)
                &&& a->0.tag is Some ==> crate::nbt::same_tag(a->0.tag->0, b->0.tag->0)
            }
        },
{
}

/// A profile holds its id, its name and its properties in their order.
pub proof fn profiles_hold_their_fields(profile: GameProfile)
    ensures
        profile@.id == profile.id,
        profile@.name == profile.name@,
        profile@.properties.len() == profile.properties@.len(),
        forall|i: int|
            0 <= i < profile.properties@.len() ==> {
                let property = #[trigger] profile@.properties[i];
                &&& property.0 == profile.properties@[i].name@
                &&& property.1 == profile.properties@[i].value@
                &&& match profile.properties@[i].signature {
                    Some(signature) => property.2 == Some(signature@),
                    None => property.2 is None,
                }
            },
{
}

/// A packet of the login holds each of its fields.
pub proof fn login_packets_hold_their_fields(packet: ClientboundLoginRegistry)
    ensures
        match packet {
            ClientboundLoginRegistry::LoginDisconnect { reason } => packet@
                matches LoginPacket::LoginDisconnect { reason: r } && r == reason@,
            ClientboundLoginRegistry::Hello { server_id, public_key, challenge } => packet@
                matches LoginPacket::Hello { server_id: s, public_key: k, challenge: c } && s
                == server_id@ && k == public_key@ && c == challenge@,
            ClientboundLoginRegistry::LoginGameProfile { game_profile } => packet@
                matches LoginPacket::LoginGameProfile { game_profile: p } && p == game_profile@,
            ClientboundLoginRegistry::LoginCompression { threshold } => packet@
                matches LoginPacket::LoginCompression { threshold: t } && t == threshold,
        },
{
}

/// A list of slots, of texts or of byte strings holds what each of them does, in its place.
pub proof fn lists_are_held_in_order(
    slots: Seq<Option<ItemStack>>,
    texts: Seq<String>,
    strings: Seq<Vec<u8>>,
)
    ensures
        slots_view(slots).len() == slots.len(),
        forall|i: int|
            0 <= i < slots.len() ==> #[trigger] slots_view(slots)[i] == slot_view(slots[i]),
        texts_view(texts).len() == texts.len(),
        forall|i: int| 0 <= i < texts.len() ==> #[trigger] texts_view(texts)[i] == texts[i]@,
        byte_strings_view(strings).len() == strings.len(),
        forall|i: int|
            0 <= i < strings.len() ==> #[trigger] byte_strings_view(strings)[i] == strings[i]@,
{
}

} // verus!
