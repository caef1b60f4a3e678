//! Tells clients about entities: which ones there are, and how they move.
use std::collections::HashMap;

use crate::client::{
    recipients_of, Broadcast, Condition, ConditionalPacket, Delivery, Recipient, Sent,
};
use crate::math::{displacement, displacement_fits, encode_position};
use crate::protocol::{
    packets_view, ClientboundPlayRegistry, Location, PacketSend, PlayPacket, SimpleLocation, Uuid,
};
use vstd::prelude::*;

verus! {

/// The bit pattern of `2^-17`, the squared distance from which an entity has moved.
pub const MOVED: u64 = 0x3EE0_0000_0000_0000;

/// Who hears of an entity, and whether clients know it yet.
#[derive(Clone, Copy, Debug, PartialEq, Eq, Structural)]
pub enum TrackingState {
    /// A player who has not been told of the other entities.
    WaitingForPlayers { packet_sender: PacketSend },
    /// A player who knows the other entities.
    Active { packet_sender: PacketSend },
    /// Any other entity, not yet shown.
    UnknownNonPlayerEntity,
    /// Any other entity, shown already.
    KnownNonPlayerEntity,
}

/// A way in which entities are shown to clients.
pub trait CreateEntity: Copy {
    /// The packet that shows the entity of a tracker.
    spec fn shows(&self, position_tracker: EntityPositionTracker<Self>) -> PlayPacket;

    fn create_entity(&self, position_tracker: &EntityPositionTracker<Self>) -> (packet:
        ClientboundPlayRegistry)
        ensures
            packet@ == self.shows(*position_tracker),
    ;
}

/// The usual ways in which entities are shown.
#[derive(Clone, Copy, Debug, PartialEq, Eq, Structural)]
pub enum EntityKind {
    /// That of a player.
    Player,
    /// That of an entity of the given type.
    Entity { entity_type: i32 },
    /// That of an entity of the given type, without its UUID.
    Anonymous { entity_type: i32 },
}

/// What clients have been told of an entity.
#[derive(Debug, PartialEq)]
pub struct EntityPositionTracker<C = EntityKind> {
    pub entity_id_ref: i32,
    pub entity_uuid_ref: Uuid,
    pub last_tracked_location: Location,
    pub tick: usize,
    /// The yaw and the pitch that were sent, and the yaw of the head.
    pub rot_cache: (i32, i32, i32),
    pub was_on_ground: bool,
    pub state: TrackingState,
    pub create_entity_fn: C,
}

impl<C: Copy> Copy for EntityPositionTracker<C> {}

impl<C: Copy> Clone for EntityPositionTracker<C> {
    fn clone(&self) -> (tracker: Self)
        ensures
            tracker == *self,
    {
        *self
    }
}

/// Where an entity is now.
#[derive(Clone, Copy, Debug, PartialEq, Eq, Structural)]
pub struct EntityData {
    pub entity_location: Location,
    pub entity_on_ground: bool,
    /// The bit pattern of the squared distance to where the entity was last tracked.
    pub distance_squared: u64,
}

/// Whether the double with this pattern is at least `2^-17`.
pub open spec fn moved(distance_squared: u64) -> bool {
    MOVED <= distance_squared <= crate::double::INFINITY
}

/// Whether the difference of two angles has a magnitude that fits in an `i32`.
pub open spec fn comparable(a: i32, b: i32) -> bool {
    i32::MIN < a - b <= i32::MAX
}

/// An angle as one byte.
pub open spec fn angle_byte(steps: i32) -> u8 {
    steps as u8
}

impl<C: CreateEntity> EntityPositionTracker<C> {
    /// Which entity it is, and where it was last.
    pub open spec fn whereabouts(&self) -> (Uuid, Location) {
        (self.entity_uuid_ref, self.last_tracked_location)
    }

    /// The first poll, which sends everything.
    pub open spec fn forced(&self) -> bool {
        self.tick == 0
    }

    /// Whether the way to `to` is too long for a relative move.
    pub open spec fn far(&self, to: SimpleLocation) -> bool {
        let d = displacement(self.last_tracked_location.inner_loc, to);
        !(-32768 <= d.0 <= 32767 && -32768 <= d.1 <= 32767 && -32768 <= d.2 <= 32767)
    }

    /// Whether a relative move is due.
    pub open spec fn shifted(&self, data: EntityData) -> bool {
        moved(data.distance_squared) || self.tick % 20 == 0
    }

    /// Whether the entity faces elsewhere than clients know.
    pub open spec fn turned(&self, data: EntityData) -> bool {
        data.entity_location.yaw.steps != self.rot_cache.0 || data.entity_location.pitch.steps
            != self.rot_cache.1
    }

    /// Whether the head faces elsewhere than clients know.
    pub open spec fn head_turned(&self, data: EntityData) -> bool {
        data.entity_location.yaw.steps != self.rot_cache.2
    }

    /// Whether the entity has to be placed anew.
    pub open spec fn placed_anew(&self, data: EntityData) -> bool {
        self.forced() || self.far(data.entity_location.inner_loc) || self.was_on_ground
            != data.entity_on_ground
    }

    /// The arithmetic of a poll stays in range.
    pub open spec fn pollable(&self, data: EntityData) -> bool {
        let yaw = data.entity_location.yaw.steps;
        let pitch = data.entity_location.pitch.steps;
        &&& self.tick < usize::MAX
        &&& displacement_fits(self.last_tracked_location.inner_loc, data.entity_location.inner_loc)
        &&& comparable(yaw, self.rot_cache.0)
        &&& yaw == self.rot_cache.0 ==> comparable(pitch, self.rot_cache.1)
        &&& comparable(yaw, self.rot_cache.2)
    }

    /// The packets on the entity's movement: at most one on where it is and where it
    /// faces, then at most one on its head.
    pub open spec fn movement(&self, data: EntityData) -> Seq<PlayPacket> {
        let d = displacement(
            self.last_tracked_location.inner_loc,
            data.entity_location.inner_loc,
        );
        let yaw = angle_byte(data.entity_location.yaw.steps);
        let pitch = angle_byte(data.entity_location.pitch.steps);
        let body = if self.placed_anew(data) {
            seq![
                PlayPacket::TeleportEntity {
                    entity_id: self.entity_id_ref,
                    location: data.entity_location.inner_loc,
                    y_rot: yaw,
                    x_rot: pitch,
                    on_ground: data.entity_on_ground,
                },
            ]
        } else {
            match (self.shifted(data), self.turned(data)) {
                (true, true) => seq![
                    PlayPacket::MoveEntityPosRot {
                        id: self.entity_id_ref,
                        xa: d.0 as i16,
                        ya: d.1 as i16,
                        za: d.2 as i16,
                        y_rot: yaw,
                        x_rot: pitch,
                        on_ground: data.entity_on_ground,
                    },
                ],
                (true, false) => seq![
                    PlayPacket::MoveEntityPos {
                        id: self.entity_id_ref,
                        xa: d.0 as i16,
                        ya: d.1 as i16,
                        za: d.2 as i16,
                        on_ground: data.entity_on_ground,
                    },
                ],
                (false, true) => seq![
                    PlayPacket::MoveEntityRot {
                        entity_id: self.entity_id_ref,
                        y_rot: yaw,
                        x_rot: pitch,
                        on_ground: data.entity_on_ground,
                    },
                ],
                (false, false) => Seq::empty(),
            }
        };
        if self.forced() || self.head_turned(data) {
            body.push(PlayPacket::RotateHead { entity_id: self.entity_id_ref, y_head_rot: yaw })
        } else {
            body
        }
    }

    /// The tracker after a poll.
    pub open spec fn polled(&self, data: EntityData) -> EntityPositionTracker<C> {
        let yaw = data.entity_location.yaw.steps;
        let pitch = data.entity_location.pitch.steps;
        EntityPositionTracker {
            last_tracked_location: data.entity_location,
            tick: (self.tick + 1) as usize,
            rot_cache: (yaw, pitch, yaw),
            was_on_ground: data.entity_on_ground,
            ..*self
        }
    }

    /// Starts to track an entity.
    pub fn create_from_initial_location(
        entity: i32,
        entity_uuid: Uuid,
        initial: Location,
        start_on_ground: bool,
        create_entity_fn: C,
        initial_state: TrackingState,
    ) -> (tracker: Self)
        ensures
            tracker == (EntityPositionTracker {
                entity_id_ref: entity,
                entity_uuid_ref: entity_uuid,
                last_tracked_location: initial,
                tick: 0,
                rot_cache: (initial.pitch.steps, initial.yaw.steps, initial.pitch.steps),
                was_on_ground: start_on_ground,
                state: initial_state,
                create_entity_fn,
            }),
    {
        let y_rot_bits: i32 = initial.pitch.steps;
        Self {
            entity_id_ref: entity,
            entity_uuid_ref: entity_uuid,
            last_tracked_location: initial,
            tick: 0,
            rot_cache: (y_rot_bits, initial.yaw.steps, y_rot_bits),
            was_on_ground: start_on_ground,
            state: initial_state,
            create_entity_fn,
        }
    }

    /// Takes note of where the entity is, and says what clients have to be told.
    pub fn poll_location(&mut self, data: EntityData) -> (to_send: Vec<ClientboundPlayRegistry>)
        requires
            old(self).pollable(data),
        ensures
            packets_view(to_send@) == old(self).movement(data),
            *final(self) == old(self).polled(data),
    {
        let rel_location: Location = data.entity_location;
        let on_ground: bool = data.entity_on_ground;
        let force_update: bool = self.tick == 0;
        let y_rot_bits: i32 = rel_location.yaw.steps;
        let x_rot_bits: i32 = rel_location.pitch.steps;
        let (ex, ey, ez) = encode_position(
            self.last_tracked_location.inner_loc,
            rel_location.inner_loc,
        );
        let too_far: bool = ex < -32768 || ey < -32768 || ez < -32768 || ex > 32767 || ey > 32767
            || ez > 32767;
        let has_moved: bool = MOVED <= data.distance_squared && data.distance_squared
            <= crate::double::INFINITY;
        let shifted: bool = has_moved || self.tick % 20 == 0;
        let turned: bool = y_rot_bits != self.rot_cache.0 || x_rot_bits != self.rot_cache.1;
        let ghost movement = self.movement(data);
        let mut to_send: Vec<ClientboundPlayRegistry> = Vec::with_capacity(2);
        if !too_far && self.was_on_ground == on_ground && !force_update {
            if shifted && turned {
                to_send.push(
                    ClientboundPlayRegistry::MoveEntityPosRot {
                        id: self.entity_id_ref,
                        xa: ex as i16,
                        ya: ey as i16,
                        za: ez as i16,
                        y_rot: y_rot_bits as u8,
                        x_rot: x_rot_bits as u8,
                        on_ground,
                    },
                );
            } else if shifted {
                to_send.push(
                    ClientboundPlayRegistry::MoveEntityPos {
                        id: self.entity_id_ref,
                        xa: ex as i16,
                        ya: ey as i16,
                        za: ez as i16,
                        on_ground,
                    },
                );
            } else if turned {
                to_send.push(
                    ClientboundPlayRegistry::MoveEntityRot {
                        entity_id: self.entity_id_ref,
                        y_rot: y_rot_bits as u8,
                        x_rot: x_rot_bits as u8,
                        on_ground,
                    },
                );
            }
        } else {
            self.was_on_ground = on_ground;
            to_send.push(
                ClientboundPlayRegistry::TeleportEntity {
                    entity_id: self.entity_id_ref,
                    location: rel_location.inner_loc,
                    y_rot: y_rot_bits as u8,
                    x_rot: x_rot_bits as u8,
                    on_ground,
                },
            );
        }
        if y_rot_bits != self.rot_cache.2 || force_update {
            to_send.push(
                ClientboundPlayRegistry::RotateHead {
                    entity_id: self.entity_id_ref,
                    y_head_rot: y_rot_bits as u8,
                },
            );
            self.rot_cache.2 = y_rot_bits;
        }
        if turned || force_update {
            self.rot_cache.0 = y_rot_bits;
            self.rot_cache.1 = x_rot_bits;
        }
        self.tick = self.tick + 1;
        self.last_tracked_location = rel_location;
        assert(packets_view(to_send@) =~= movement);
        to_send
    }

    /// The packet that shows the entity.
    pub open spec fn shown(&self) -> PlayPacket {
        self.create_entity_fn.shows(*self)
    }

    /// The packet that shows the entity to a client.
    pub fn create_entity(&self) -> (packet: ClientboundPlayRegistry)
        ensures
            packet@ == self.shown(),
    {
        self.create_entity_fn.create_entity(self)
    }
}

impl CreateEntity for EntityKind {
    open spec fn shows(&self, position_tracker: EntityPositionTracker<Self>) -> PlayPacket {
        match *self {
            EntityKind::Player => PlayPacket::AddPlayer {
                entity_id: position_tracker.entity_id_ref,
                player_id: position_tracker.entity_uuid_ref,
                location: position_tracker.last_tracked_location.inner_loc,
                y_rot: angle_byte(position_tracker.rot_cache.0),
                x_rot: angle_byte(position_tracker.rot_cache.1),
            },
            EntityKind::Entity { entity_type } => add_entity_packet(
                position_tracker,
                position_tracker.entity_uuid_ref,
                entity_type,
            ),
            EntityKind::Anonymous { entity_type } => add_entity_packet(
                position_tracker,
                0,
                entity_type,
            ),
        }
    }

    fn create_entity(&self, position_tracker: &EntityPositionTracker<Self>) -> (packet:
        ClientboundPlayRegistry) {
        match *self {
            EntityKind::Player => ClientboundPlayRegistry::AddPlayer {
                entity_id: position_tracker.entity_id_ref,
                player_id: position_tracker.entity_uuid_ref,
                location: position_tracker.last_tracked_location.inner_loc,
                y_rot: position_tracker.rot_cache.0 as u8,
                x_rot: position_tracker.rot_cache.1 as u8,
            },
            EntityKind::Entity { entity_type } => create_entity_with_type(
                position_tracker,
                position_tracker.entity_uuid_ref,
                entity_type,
            ),
            EntityKind::Anonymous { entity_type } => {
                create_entity_with_type(position_tracker, 0, entity_type)
            },
        }
    }
}

/// The packet that shows an entity of the given type under the given UUID.
pub open spec fn add_entity_packet<C>(
    position_tracker: EntityPositionTracker<C>,
    uuid: Uuid,
    entity_type: i32,
) -> PlayPacket {
    PlayPacket::AddEntity {
        id: position_tracker.entity_id_ref,
        uuid,
        entity_type,
        location: position_tracker.last_tracked_location.inner_loc,
        x_rot: angle_byte(position_tracker.rot_cache.1),
        y_rot: angle_byte(position_tracker.rot_cache.0),
        y_head_rot: angle_byte(position_tracker.rot_cache.2),
        data: 0,
        xa: 0,
        ya: 0,
        za: 0,
    }
}

/// The packet that shows an entity of the given type under the given UUID.
pub fn create_entity_with_type<C>(
    position_tracker: &EntityPositionTracker<C>,
    uuid: Uuid,
    entity_type: i32,
) -> (packet: ClientboundPlayRegistry)
    ensures
        packet@ == add_entity_packet(*position_tracker, uuid, entity_type),
{
    ClientboundPlayRegistry::AddEntity {
        id: position_tracker.entity_id_ref,
        uuid,
        entity_type,
        location: position_tracker.last_tracked_location.inner_loc,
        x_rot: position_tracker.rot_cache.1 as u8,
        y_rot: position_tracker.rot_cache.0 as u8,
        y_head_rot: position_tracker.rot_cache.2 as u8,
        data: 0,
        xa: 0,
        ya: 0,
        za: 0,
    }
}

impl<C> Recipient for EntityPositionTracker<C> {
    open spec fn connection(&self) -> Option<PacketSend> {
        match self.state {
            TrackingState::WaitingForPlayers { packet_sender } => Some(packet_sender),
            TrackingState::Active { packet_sender } => Some(packet_sender),
            _ => None,
        }
    }

    fn packet_sender(&self) -> (sender: Option<PacketSend>) {
        match self.state {
            TrackingState::WaitingForPlayers { packet_sender } => Some(packet_sender),
            TrackingState::Active { packet_sender } => Some(packet_sender),
            _ => None,
        }
    }
}

/// Those who are told of an entity.
#[derive(Clone, Copy, Debug, PartialEq, Eq, Structural)]
pub enum Audience {
    /// Everyone but the entity itself.
    Others { id: i32 },
    /// Everyone else who knows no entity yet.
    WaitingOthers { id: i32 },
    /// Everyone else who knows the entities.
    ActiveOthers { id: i32 },
}

impl<C> Condition<EntityPositionTracker<C>> for Audience {
    open spec fn admits(&self, client: EntityPositionTracker<C>) -> bool {
        match *self {
            Audience::Others { id } => client.entity_id_ref != id,
            Audience::WaitingOthers { id } => client.entity_id_ref != id
                && client.state is WaitingForPlayers,
            Audience::ActiveOthers { id } => client.entity_id_ref != id && client.state is Active,
        }
    }

    fn check(&self, client: &EntityPositionTracker<C>) -> (r: bool) {
        match *self {
            Audience::Others { id } => client.entity_id_ref != id,
            Audience::WaitingOthers { id } => client.entity_id_ref != id && matches!(
                client.state,
                TrackingState::WaitingForPlayers { .. }
            ),
            Audience::ActiveOthers { id } => client.entity_id_ref != id && matches!(
                client.state,
                TrackingState::Active { .. }
            ),
        }
    }
}

/// What is broadcast on one entity. One that is not known yet is shown to everyone else;
/// one that is known is shown to the newcomers, and its movement to the others.
pub open spec fn announcement<C: CreateEntity>(
    entity: EntityPositionTracker<C>,
    data: EntityData,
) -> Seq<Broadcast<Audience>> {
    let id = entity.entity_id_ref;
    let shown = entity.polled(data).shown();
    match entity.state {
        TrackingState::WaitingForPlayers { .. } | TrackingState::UnknownNonPlayerEntity => seq![
            Broadcast { packet: shown, condition: Some(Audience::Others { id }) },
        ],
        TrackingState::Active { .. } | TrackingState::KnownNonPlayerEntity => {
            let movement = entity.movement(data);
            seq![Broadcast { packet: shown, condition: Some(Audience::WaitingOthers { id }) }]
                + Seq::new(
                movement.len(),
                |i: int|
                    Broadcast {
                        packet: movement[i],
                        condition: Some(Audience::ActiveOthers { id }),
                    },
            )
        },
    }
}

/// What is broadcast on several entities, one after the other.
pub open spec fn announcements<C: CreateEntity>(
    entities: Seq<EntityPositionTracker<C>>,
    data: Seq<EntityData>,
) -> Seq<Broadcast<Audience>>
    decreases entities.len(),
{
    if entities.len() == 0 {
        Seq::empty()
    } else {
        announcements(entities.drop_last(), data.drop_last()) + announcement(
            entities.last(),
            data.last(),
        )
    }
}

/// The state after a tick: newcomers have been told, and new entities have been shown.
pub open spec fn settled(state: TrackingState) -> TrackingState {
    match state {
        TrackingState::WaitingForPlayers { packet_sender } => TrackingState::Active {
            packet_sender,
        },
        TrackingState::UnknownNonPlayerEntity => TrackingState::KnownNonPlayerEntity,
        _ => state,
    }
}

/// The tracker of an entity after a tick.
pub open spec fn ticked<C: CreateEntity>(
    entity: EntityPositionTracker<C>,
    data: EntityData,
) -> EntityPositionTracker<C> {
    EntityPositionTracker { state: settled(entity.state), ..entity.polled(data) }
}

/// `order` lists each of `keys` once.
pub open spec fn lists(order: Seq<Uuid>, keys: Set<Uuid>) -> bool {
    order.no_duplicates() && order.to_set() == keys
}

/// The trackers under the listed keys.
pub open spec fn trackers_at<C>(
    entities: Map<Uuid, EntityPositionTracker<C>>,
    order: Seq<Uuid>,
) -> Seq<EntityPositionTracker<C>> {
    Seq::new(order.len(), |i: int| entities[order[i]])
}

/// The trackers after a poll of each.
pub open spec fn polled_all<C: CreateEntity>(entities: Seq<EntityPositionTracker<C>>, data: Seq<EntityData>) -> Seq<
    EntityPositionTracker<C>,
> {
    Seq::new(entities.len(), |i: int| entities[i].polled(data[i]))
}

/// The entity ids of trackers.
pub open spec fn ids_of<C>(entities: Seq<EntityPositionTracker<C>>) -> Seq<i32> {
    Seq::new(entities.len(), |i: int| entities[i].entity_id_ref)
}

/// What is broadcast in a tick: what there is to say on all entities, and at last the ids of
/// those that were removed.
pub open spec fn broadcasts_in_tick<C: CreateEntity>(
    entities: Seq<EntityPositionTracker<C>>,
    data: Seq<EntityData>,
    removed: Seq<i32>,
) -> Seq<Broadcast<Audience>> {
    announcements(entities, data).push(
        Broadcast { packet: PlayPacket::RemoveEntities { entity_ids: removed }, condition: None },
    )
}

/// What is sent in a tick: each broadcast to its audience among the entities as they stand
/// after the polls.
pub open spec fn sent_in_tick<C: CreateEntity>(
    entities: Seq<EntityPositionTracker<C>>,
    data: Seq<EntityData>,
    removed: Seq<i32>,
) -> Seq<Sent> {
    let broadcasts = broadcasts_in_tick(entities, data, removed);
    let clients = polled_all(entities, data);
    Seq::new(
        broadcasts.len(),
        |i: int|
            Sent {
                packet: broadcasts[i].packet,
                recipients: recipients_of(clients, broadcasts[i].condition),
            },
    )
}

/// What a list of deliveries holds.
pub open spec fn deliveries_view(deliveries: Seq<Delivery>) -> Seq<Sent> {
    Seq::new(deliveries.len(), |i: int| deliveries[i]@)
}

/// What a list of conditional packets holds.
pub open spec fn broadcasts_view(broadcasts: Seq<ConditionalPacket<Audience>>) -> Seq<
    Broadcast<Audience>,
> {
    Seq::new(broadcasts.len(), |i: int| broadcasts[i]@)
}

/// The entities that clients are told of, by UUID.
pub struct EntityTracker<C = EntityKind> {
    pub entities: HashMap<Uuid, EntityPositionTracker<C>>,
    pub removed_entities_since_last_tick: Vec<i32>,
}

impl<C: CreateEntity> EntityTracker<C> {
    /// A tracker of no entities.
    pub fn new() -> (tracker: Self)
        ensures
            tracker.entities@ == Map::<Uuid, EntityPositionTracker<C>>::empty(),
            tracker.removed_entities_since_last_tick@ == Seq::<i32>::empty(),
    {
        Self { entities: HashMap::new(), removed_entities_since_last_tick: Vec::new() }
    }

    /// Whether an entity is tracked.
    pub fn contains(&self, entity_id: &Uuid) -> (r: bool)
        ensures
            r == self.entities@.contains_key(*entity_id),
    {
        broadcast use vstd::std_specs::hash::group_hash_axioms;

        self.entities.contains_key(entity_id)
    }

    /// Polls the entities in the given order, each with its data, and says what to send.
    pub fn tick_in_order(&mut self, order: &Vec<Uuid>, data: &Vec<EntityData>) -> (deliveries: Vec<
        Delivery,
    >)
        requires
            lists(order@, old(self).entities@.dom()),
            data@.len() == order@.len(),
            forall|i: int|
                0 <= i < order@.len() ==> old(self).entities@[#[trigger] order@[i]].pollable(
                    data@[i],
                ),
        ensures
            deliveries_view(deliveries@) == sent_in_tick(
                trackers_at(old(self).entities@, order@),
                data@,
                old(self).removed_entities_since_last_tick@,
            ),
            final(self).entities@.dom() == old(self).entities@.dom(),
            forall|i: int|
                0 <= i < order@.len() ==> final(self).entities@[#[trigger] order@[i]] == ticked(
                    old(self).entities@[order@[i]],
                    data@[i],
                ),
            final(self).removed_entities_since_last_tick@ == Seq::<i32>::empty(),
    {
        broadcast use vstd::std_specs::hash::group_hash_axioms;

        let ghost start = self.entities@;
        let ghost trackers = trackers_at(start, order@);
        let mut polled: Vec<EntityPositionTracker<C>> = Vec::new();
        let mut broadcasts: Vec<ConditionalPacket<Audience>> = Vec::new();
        let mut i: usize = 0;
        while i < order.len()
            invariant
                i <= order.len(),
                data@.len() == order@.len(),
                self.entities@ == start,
                self.removed_entities_since_last_tick == old(self).removed_entities_since_last_tick,
                lists(order@, start.dom()),
                trackers == trackers_at(start, order@),
                forall|j: int|
                    0 <= j < order@.len() ==> start[#[trigger] order@[j]].pollable(data@[j]),
                polled@ == polled_all(trackers.take(i as int), data@.take(i as int)),
                broadcasts_view(broadcasts@) == announcements(
                    trackers.take(i as int),
                    data@.take(i as int),
                ),
            decreases order.len() - i,
        {
            let key: Uuid = order[i];
            assert(order@.to_set().contains(key));
            let found: Option<&EntityPositionTracker<C>> = self.entities.get(&key);
            let mut entity: EntityPositionTracker<C> = *found.unwrap();
            let ghost before = entity;
            assert(before == trackers[i as int]);
            let id: i32 = entity.entity_id_ref;
            let packets: Vec<ClientboundPlayRegistry> = entity.poll_location(data[i]);
            let create_entity_packet: ClientboundPlayRegistry = entity.create_entity();
            let ghost earlier = broadcasts_view(broadcasts@);
            match entity.state {
                TrackingState::WaitingForPlayers { .. } | TrackingState::UnknownNonPlayerEntity => {
                    broadcasts.push(
                        ConditionalPacket::Conditional(
                            create_entity_packet,
                            Audience::Others { id },
                        ),
                    );
                },
                TrackingState::Active { .. } | TrackingState::KnownNonPlayerEntity => {
                    broadcasts.push(
                        ConditionalPacket::Conditional(
                            create_entity_packet,
                            Audience::WaitingOthers { id },
                        ),
                    );
                    append_for_active(&mut broadcasts, packets, id);
                },
            }
            proof {
                assert(broadcasts_view(broadcasts@) =~= earlier + announcement(
                    before,
                    data@[i as int],
                ));
                assert(trackers.take(i + 1).drop_last() =~= trackers.take(i as int));
                assert(data@.take(i + 1).drop_last() =~= data@.take(i as int));
            }
            polled.push(entity);
            proof {
                assert(polled@ =~= polled_all(trackers.take(i + 1), data@.take(i + 1)));
            }
            i = i + 1;
        }
        proof {
            assert(trackers.take(order@.len() as int) =~= trackers);
            assert(data@.take(order@.len() as int) =~= data@);
        }
        let mut removed: Vec<i32> = Vec::new();
        std::mem::swap(&mut removed, &mut self.removed_entities_since_last_tick);
        let ghost earlier = broadcasts_view(broadcasts@);
        broadcasts.push(
            ConditionalPacket::Unconditional(
                ClientboundPlayRegistry::RemoveEntities { entity_ids: removed },
            ),
        );
        proof {
            assert(broadcasts_view(broadcasts@) =~= earlier.push(
                Broadcast {
                    packet: PlayPacket::RemoveEntities { entity_ids: removed@ },
                    condition: None,
                },
            ));
        }
        let deliveries: Vec<Delivery> = deliver_all(broadcasts, &polled);
        let mut i: usize = 0;
        while i < order.len()
            invariant
                i <= order.len(),
                data@.len() == order@.len(),
                self.removed_entities_since_last_tick@ == Seq::<i32>::empty(),
                lists(order@, start.dom()),
                trackers == trackers_at(start, order@),
                polled@ == polled_all(trackers, data@),
                self.entities@.dom() == start.dom(),
                forall|j: int|
                    0 <= j < i ==> self.entities@[#[trigger] order@[j]] == ticked(
                        start[order@[j]],
                        data@[j],
                    ),
            decreases order.len() - i,
        {
            let mut entity: EntityPositionTracker<C> = polled[i];
            match entity.state {
                TrackingState::WaitingForPlayers { packet_sender } => {
                    entity.state = TrackingState::Active { packet_sender };
                },
                TrackingState::UnknownNonPlayerEntity => {
                    entity.state = TrackingState::KnownNonPlayerEntity;
                },
                _ => {},
            }
            let key: Uuid = order[i];
            proof {
                assert(order@.to_set().contains(key));
                assert(start.dom().insert(key) =~= start.dom());
                assert(entity == ticked(start[order@[i as int]], data@[i as int]));
            }
            let _ = self.entities.insert(key, entity);
            i = i + 1;
        }
        deliveries
    }
}

impl<C: CreateEntity> Default for EntityTracker<C> {
    fn default() -> (tracker: Self)
        ensures
            tracker.entities@ == Map::<Uuid, EntityPositionTracker<C>>::empty(),
            tracker.removed_entities_since_last_tick@ == Seq::<i32>::empty(),
    {
        Self::new()
    }
}

/// Something that clients are told of.
pub trait TrackableEntity<C>: Sized {
    /// What is known of the entity at the start: its id, its UUID, where it is, whether it
    /// stands on the ground, and how it is shown.
    spec fn particulars(&self) -> (i32, Uuid, Location, bool, C);

    fn id(&self) -> (r: i32)
        ensures
            r == self.particulars().0,
    ;

    fn uuid(&self) -> (r: Uuid)
        ensures
            r == self.particulars().1,
    ;

    fn location(&self) -> (r: Location)
        ensures
            r == self.particulars().2,
    ;

    fn on_ground(&self) -> (r: bool)
        ensures
            r == self.particulars().3,
    ;

    fn create_entity(&self) -> (r: C)
        ensures
            r == self.particulars().4,
    ;
}

/// The tracker of an entity that no client has been told of.
pub open spec fn fresh<C, T: TrackableEntity<C>>(
    entity: T,
    state: TrackingState,
) -> EntityPositionTracker<C> {
    let (id, uuid, location, on_ground, create_entity_fn) = entity.particulars();
    EntityPositionTracker {
        entity_id_ref: id,
        entity_uuid_ref: uuid,
        last_tracked_location: location,
        tick: 0,
        rot_cache: (location.pitch.steps, location.yaw.steps, location.pitch.steps),
        was_on_ground: on_ground,
        state,
        create_entity_fn,
    }
}

impl<C: CreateEntity> EntityTracker<C> {
    /// Starts to track an entity that is no player.
    pub fn add_entity<T: TrackableEntity<C>>(&mut self, entity: &T)
        ensures
            final(self).entities@ == old(self).entities@.insert(
                entity.particulars().1,
                fresh(*entity, TrackingState::UnknownNonPlayerEntity),
            ),
            final(self).removed_entities_since_last_tick == old(
                self,
            ).removed_entities_since_last_tick,
    {
        broadcast use vstd::std_specs::hash::group_hash_axioms;

        let uuid: Uuid = entity.uuid();
        let tracker: EntityPositionTracker<C> = EntityPositionTracker::create_from_initial_location(
            entity.id(),
            uuid,
            entity.location(),
            entity.on_ground(),
            entity.create_entity(),
            TrackingState::UnknownNonPlayerEntity,
        );
        let _ = self.entities.insert(uuid, tracker);
    }

    /// Starts to track a player.
    pub fn add_player<T: TrackableEntity<C>>(&mut self, entity: &T, packet_sender: PacketSend)
        ensures
            final(self).entities@ == old(self).entities@.insert(
                entity.particulars().1,
                fresh(*entity, TrackingState::WaitingForPlayers { packet_sender }),
            ),
            final(self).removed_entities_since_last_tick == old(
                self,
            ).removed_entities_since_last_tick,
    {
        broadcast use vstd::std_specs::hash::group_hash_axioms;

        let uuid: Uuid = entity.uuid();
        let tracker: EntityPositionTracker<C> = EntityPositionTracker::create_from_initial_location(
            entity.id(),
            uuid,
            entity.location(),
            entity.on_ground(),
            entity.create_entity(),
            TrackingState::WaitingForPlayers { packet_sender },
        );
        let _ = self.entities.insert(uuid, tracker);
    }

    /// Lists the tracked UUIDs, in whatever order the map walks them.
    pub fn order(&self) -> (order: Vec<Uuid>)
        ensures
            lists(order@, self.entities@.dom()),
    {
        broadcast use vstd::std_specs::hash::group_hash_axioms;

        let mut order: Vec<Uuid> = Vec::new();
        for key in it: self.entities.keys()
            invariant
                it.seq().unref().to_set() == self.entities@.dom(),
                it.seq().no_duplicates(),
                order@ == it.seq().unref().take(it.index() as int),
                it.index() == it.seq().len() ==> order@ == it.seq().unref(),
        {
            order.push(*key);
            assert(order@ =~= it.seq().unref().take(it.index() + 1));
            assert(it.index() + 1 == it.seq().len() ==> order@ =~= it.seq().unref());
        }
        order
    }

    /// Polls the entities, each with the data that `accessor` gives, and says what to send.
    ///
    /// The order in which the entities are polled is the one in which the map walks them.
    pub fn tick<PositionAccessor: Fn(Uuid, Location) -> EntityData>(
        &mut self,
        accessor: PositionAccessor,
    ) -> (deliveries: Vec<Delivery>)
        requires
            forall|uuid: Uuid| #[trigger]
                old(self).entities@.contains_key(uuid) ==> accessor.requires(
                    old(self).entities@[uuid].whereabouts(),
                ),
            forall|uuid: Uuid, data: EntityData|
                old(self).entities@.contains_key(uuid) && #[trigger] accessor.ensures(
                    old(self).entities@[uuid].whereabouts(),
                    data,
                ) ==> old(self).entities@[uuid].pollable(data),
        ensures
            exists|order: Seq<Uuid>, data: Seq<EntityData>|
                {
                    &&& lists(order, old(self).entities@.dom())
                    &&& data.len() == order.len()
                    &&& forall|i: int|
                        0 <= i < order.len() ==> #[trigger] accessor.ensures(
                            old(self).entities@[order[i]].whereabouts(),
                            data[i],
                        )
                    &&& deliveries_view(deliveries@) == #[trigger] sent_in_tick(
                        trackers_at(old(self).entities@, order),
                        data,
                        old(self).removed_entities_since_last_tick@,
                    )
                    &&& final(self).entities@.dom() == old(self).entities@.dom()
                    &&& forall|i: int|
                        0 <= i < order.len() ==> final(self).entities@[#[trigger] order[i]]
                            == ticked(old(self).entities@[order[i]], data[i])
                },
            final(self).removed_entities_since_last_tick@ == Seq::<i32>::empty(),
    {
        broadcast use vstd::std_specs::hash::group_hash_axioms;

        let order: Vec<Uuid> = self.order();
        let mut data: Vec<EntityData> = Vec::new();
        let mut i: usize = 0;
        while i < order.len()
            invariant
                i <= order.len(),
                self.entities == old(self).entities,
                self.removed_entities_since_last_tick == old(self).removed_entities_since_last_tick,
                lists(order@, self.entities@.dom()),
                data@.len() == i,
                forall|uuid: Uuid| #[trigger]
                    self.entities@.contains_key(uuid) ==> accessor.requires(
                        self.entities@[uuid].whereabouts(),
                    ),
                forall|j: int|
                    0 <= j < i ==> #[trigger] accessor.ensures(
                        self.entities@[order@[j]].whereabouts(),
                        data@[j],
                    ),
            decreases order.len() - i,
        {
            let key: Uuid = order[i];
            assert(order@.to_set().contains(key));
            let found: Option<&EntityPositionTracker<C>> = self.entities.get(&key);
            let tracker: EntityPositionTracker<C> = *found.unwrap();
            data.push(accessor(tracker.entity_uuid_ref, tracker.last_tracked_location));
            i = i + 1;
        }
        proof {
            assert forall|j: int|
                0 <= j < order@.len() implies self.entities@[#[trigger] order@[j]].pollable(
                data@[j],
            ) by {
                assert(order@.to_set().contains(order@[j]));
                assert(accessor.ensures(self.entities@[order@[j]].whereabouts(), data@[j]));
            }
        }
        self.tick_in_order(&order, &data)
    }

    /// Stops to track an entity. A player who leaves is told to remove every entity that is
    /// left, and those that were removed since the last tick.
    ///
    /// The ids of the entities that are left stand in the order in which the map walks them.
    pub fn remove_entity(&mut self, uuid: Uuid) -> (farewell: Option<Delivery>)
        ensures
            final(self).entities@ == old(self).entities@.remove(uuid),
            !old(self).entities@.contains_key(uuid) ==> {
                &&& farewell is None
                &&& final(self).removed_entities_since_last_tick@ == old(
                    self,
                ).removed_entities_since_last_tick@
            },
            old(self).entities@.contains_key(uuid) ==> {
                let removed = old(self).entities@[uuid];
                &&& final(self).removed_entities_since_last_tick@ == old(
                    self,
                ).removed_entities_since_last_tick@.push(removed.entity_id_ref)
                &&& match removed.connection() {
                    None => farewell is None,
                    Some(sender) => {
                        &&& farewell is Some
                        &&& farewell->0@.recipients == seq![sender]
                        &&& exists|order: Seq<Uuid>|
                            {
                                &&& lists(order, final(self).entities@.dom())
                                &&& farewell->0@.packet == (PlayPacket::RemoveEntities {
                                    entity_ids: old(self).removed_entities_since_last_tick@
                                        + ids_of(
                                        #[trigger] trackers_at(final(self).entities@, order),
                                    ),
                                })
                            }
                    },
                }
            },
    {
        broadcast use vstd::std_specs::hash::group_hash_axioms;

        match self.entities.remove(&uuid) {
            None => None,
            Some(removed) => {
                let farewell: Option<Delivery> = match removed.packet_sender() {
                    Some(sender) => {
                        let mut entity_ids: Vec<i32> =
                            self.removed_entities_since_last_tick.clone();
                        assert(entity_ids@ =~= self.removed_entities_since_last_tick@);
                        let order: Vec<Uuid> = self.order();
                        self.append_ids(&order, &mut entity_ids);
                        let mut recipients: Vec<PacketSend> = Vec::new();
                        recipients.push(sender);
                        Some(
                            Delivery {
                                packet: ClientboundPlayRegistry::RemoveEntities { entity_ids },
                                recipients,
                            },
                        )
                    },
                    None => None,
                };
                self.removed_entities_since_last_tick.push(removed.entity_id_ref);
                farewell
            },
        }
    }

    /// Adds the entity ids under the listed keys.
    fn append_ids(&self, order: &Vec<Uuid>, ids: &mut Vec<i32>)
        requires
            lists(order@, self.entities@.dom()),
        ensures
            final(ids)@ == old(ids)@ + ids_of(trackers_at(self.entities@, order@)),
    {
        broadcast use vstd::std_specs::hash::group_hash_axioms;

        let ghost all = ids_of(trackers_at(self.entities@, order@));
        let ghost start = ids@;
        let mut i: usize = 0;
        while i < order.len()
            invariant
                i <= order.len(),
                lists(order@, self.entities@.dom()),
                all == ids_of(trackers_at(self.entities@, order@)),
                ids@ == start + all.take(i as int),
            decreases order.len() - i,
        {
            let key: Uuid = order[i];
            assert(order@.to_set().contains(key));
            let found: Option<&EntityPositionTracker<C>> = self.entities.get(&key);
            ids.push(found.unwrap().entity_id_ref);
            assert(all.take(i + 1) =~= all.take(i as int).push(all[i as int]));
            i = i + 1;
        }
        assert(all.take(order@.len() as int) =~= all);
    }
}

/// Adds the movement of an entity for those who know it.
fn append_for_active(
    broadcasts: &mut Vec<ConditionalPacket<Audience>>,
    packets: Vec<ClientboundPlayRegistry>,
    id: i32,
)
    ensures
        broadcasts_view(final(broadcasts)@) == broadcasts_view(old(broadcasts)@) + Seq::new(
            packets@.len(),
            |i: int|
                Broadcast {
                    packet: packets_view(packets@)[i],
                    condition: Some(Audience::ActiveOthers { id }),
                },
        ),
{
    let ghost total = packets@;
    let ghost start = broadcasts@;
    for packet in it: packets
        invariant
            it.seq() == total,
            broadcasts_view(broadcasts@) == broadcasts_view(start) + Seq::new(
                it.index() as nat,
                |i: int|
                    Broadcast {
                        packet: packets_view(total)[i],
                        condition: Some(Audience::ActiveOthers { id }),
                    },
            ),
    {
        let ghost earlier = broadcasts@;
        broadcasts.push(ConditionalPacket::Conditional(packet, Audience::ActiveOthers { id }));
        assert(broadcasts_view(broadcasts@) =~= broadcasts_view(earlier).push(
            Broadcast {
                packet: packets_view(total)[it.index() as int],
                condition: Some(Audience::ActiveOthers { id }),
            },
        ));
    }
}

/// Finds the recipients of each broadcast.
fn deliver_all<C>(
    broadcasts: Vec<ConditionalPacket<Audience>>,
    clients: &Vec<EntityPositionTracker<C>>,
) -> (deliveries: Vec<Delivery>)
    ensures
        deliveries_view(deliveries@) == Seq::new(
            broadcasts@.len(),
            |i: int|
                Sent {
                    packet: broadcasts_view(broadcasts@)[i].packet,
                    recipients: recipients_of(
                        clients@,
                        broadcasts_view(broadcasts@)[i].condition,
                    ),
                },
        ),
{
    let ghost total = broadcasts@;
    let mut deliveries: Vec<Delivery> = Vec::new();
    for broadcast in it: broadcasts
        invariant
            it.seq() == total,
            deliveries@.len() == it.index(),
            forall|i: int|
                0 <= i < deliveries@.len() ==> (#[trigger] deliveries@[i])@ == (Sent {
                    packet: broadcasts_view(total)[i].packet,
                    recipients: recipients_of(clients@, broadcasts_view(total)[i].condition),
                }),
    {
        deliveries.push(broadcast.send_to_clients(clients));
    }
    assert(deliveries_view(deliveries@) =~= Seq::new(
        total.len(),
        |i: int|
            Sent {
                packet: broadcasts_view(total)[i].packet,
                recipients: recipients_of(clients@, broadcasts_view(total)[i].condition),
            },
    ));
    deliveries
}

} // verus!
