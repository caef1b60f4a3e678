//! What a client sees of an entity, going by the packets that it is sent.
use crate::client::{recipients_of, Condition, ConditionalPacket, Delivery, Recipient};
use crate::double::{fixed_point_of, lemma_units_order, units, SIGN};
use crate::entity::tracking::{
    add_entity_packet, announcement, announcements, broadcasts_in_tick, broadcasts_view,
    deliveries_view, fresh, ids_of, lists, moved, polled_all, sent_in_tick, settled, ticked,
    trackers_at, Audience, CreateEntity, EntityData, EntityKind, EntityPositionTracker,
    TrackableEntity, TrackingState, MOVED,
};
use crate::protocol::{PacketSend, PlayPacket, SimpleLocation, Uuid};
use vstd::arithmetic::power2::pow2;
use vstd::prelude::*;

verus! {

/// An entity in the eyes of a client: where it stands, in 4096ths of a block, where its body
/// and its head face, in 256ths of a turn, and whether it stands on the ground.
pub struct Sight {
    pub x: int,
    pub y: int,
    pub z: int,
    pub yaw: int,
    pub pitch: int,
    pub head: int,
    pub on_ground: bool,
}

/// The sight of the entity `id` after one more packet. A packet on another entity changes
/// nothing.
pub open spec fn sees(sight: Sight, id: i32, packet: PlayPacket) -> Sight {
    match packet {
        PlayPacket::MoveEntityPos { id: moved, xa, ya, za, on_ground } if moved == id => Sight {
            x: sight.x + xa,
            y: sight.y + ya,
            z: sight.z + za,
            on_ground,
            ..sight
        },
        PlayPacket::MoveEntityPosRot { id: moved, xa, ya, za, y_rot, x_rot, on_ground } if moved
            == id => Sight {
            x: sight.x + xa,
            y: sight.y + ya,
            z: sight.z + za,
            yaw: y_rot as int,
            pitch: x_rot as int,
            on_ground,
            ..sight
        },
        PlayPacket::MoveEntityRot { entity_id, y_rot, x_rot, on_ground } if entity_id == id => {
            Sight { yaw: y_rot as int, pitch: x_rot as int, on_ground, ..sight }
        },
        PlayPacket::TeleportEntity { entity_id, location, y_rot, x_rot, on_ground } if entity_id
            == id => Sight {
            x: fixed_point_of(location.x),
            y: fixed_point_of(location.y),
            z: fixed_point_of(location.z),
            yaw: y_rot as int,
            pitch: x_rot as int,
            on_ground,
            ..sight
        },
        PlayPacket::RotateHead { entity_id, y_head_rot } if entity_id == id => Sight {
            head: y_head_rot as int,
            ..sight
        },
        _ => sight,
    }
}

/// The sight of the entity `id` after packets, one after the other.
pub open spec fn sees_all(sight: Sight, id: i32, packets: Seq<PlayPacket>) -> Sight
    decreases packets.len(),
{
    if packets.len() == 0 {
        sight
    } else {
        sees(sees_all(sight, id, packets.drop_last()), id, packets.last())
    }
}

/// Whether the entity is seen at the point.
pub open spec fn stands_at(sight: Sight, place: SimpleLocation) -> bool {
    &&& sight.x == fixed_point_of(place.x)
    &&& sight.y == fixed_point_of(place.y)
    &&& sight.z == fixed_point_of(place.z)
}

/// Whether clients are told in a poll where the entity is: on the first poll and on every
/// twentieth, where the squared distance that it went is at least `2^-17`, where it left the
/// ground or came to it, and where it went eight blocks or more along an axis.
pub open spec fn place_is_told<C>(tracker: EntityPositionTracker<C>, data: EntityData) -> bool {
    let from = tracker.last_tracked_location.inner_loc;
    let to = data.entity_location.inner_loc;
    ||| tracker.tick % 20 == 0
    ||| data.distance_squared <= 0x7FF0_0000_0000_0000 && units(data.distance_squared) >= pow2(
        1057,
    )
    ||| tracker.was_on_ground != data.entity_on_ground
    ||| !relative(from, to)
}

/// Whether a point lies less than eight blocks from another along each axis, in 4096ths of a
/// block, and exactly eight blocks on its lower side at the most.
pub open spec fn relative(from: SimpleLocation, to: SimpleLocation) -> bool {
    &&& -32768 <= fixed_point_of(to.x) - fixed_point_of(from.x) < 32768
    &&& -32768 <= fixed_point_of(to.y) - fixed_point_of(from.y) < 32768
    &&& -32768 <= fixed_point_of(to.z) - fixed_point_of(from.z) < 32768
}

/// Whether a sight of an entity is what its tracker takes clients to see.
pub open spec fn reflects<C>(sight: Sight, tracker: EntityPositionTracker<C>) -> bool {
    &&& stands_at(sight, tracker.last_tracked_location.inner_loc)
    &&& sight.yaw == tracker.rot_cache.0 as int % 256
    &&& sight.pitch == tracker.rot_cache.1 as int % 256
    &&& sight.head == tracker.rot_cache.2 as int % 256
    &&& sight.on_ground == tracker.was_on_ground
}

proof fn lemma_angle_byte(steps: i32)
    ensures
        (steps as u8) as int == steps as int % 256,
{
    let m: i32 = (steps as u8) as i32;
    assert(m == steps & 0xff && 0 <= m <= 255) by (bit_vector)
        requires
            m == (steps as u8) as i32,
    ;
    let q: i32 = steps >> 8;
    assert(steps == q * 256 + m && -8388608 <= q <= 8388607) by (bit_vector)
        requires
            q == steps >> 8,
            m == steps & 0xff,
    ;
    assert(steps as int == 256 * (q as int) + m as int);
    vstd::arithmetic::div_mod::lemma_fundamental_div_mod_converse(
        steps as int,
        256,
        q as int,
        m as int,
    );
}

/// The squared distance from which a move counts is `2^-17`.
proof fn lemma_moved(distance_squared: u64)
    ensures
        moved(distance_squared) <==> distance_squared <= 0x7FF0_0000_0000_0000 && units(
            distance_squared,
        ) >= pow2(1057),
{
    let m = MOVED;
    assert(units(m) == pow2(1057)) by {
        vstd::arithmetic::power2::lemma2_to64();
        vstd::arithmetic::power2::lemma2_to64_rest();
        vstd::arithmetic::power2::lemma_pow2_adds(52, 1005);
        assert(m as int / 0x10_0000_0000_0000 % 0x800 == 1006);
        assert(m as int % 0x10_0000_0000_0000 == 0);
    }
    if distance_squared < m {
        lemma_units_order(distance_squared, m);
    } else if distance_squared < SIGN {
        lemma_units_order(m, distance_squared);
    }
}

/// A client that sees an entity as its tracker takes it to sees it as it is after each poll:
/// it faces where it was polled to face, and where its place is told it is at the polled
/// place, be it by a relative move or by a teleport. Between, it stays where it was seen.
pub proof fn clients_see_what_is_polled<C: CreateEntity>(
    sight: Sight,
    tracker: EntityPositionTracker<C>,
    data: EntityData,
)
    requires
        tracker.tick > 0 ==> reflects(sight, tracker),
    ensures
        ({
            let after = sees_all(sight, tracker.entity_id_ref, tracker.movement(data));
            &&& after.yaw == data.entity_location.yaw.steps as int % 256
            &&& after.pitch == data.entity_location.pitch.steps as int % 256
            &&& after.head == data.entity_location.yaw.steps as int % 256
            &&& after.on_ground == data.entity_on_ground
            &&& place_is_told(tracker, data) ==> {
                &&& stands_at(after, data.entity_location.inner_loc)
                &&& reflects(after, tracker.polled(data))
            }
            &&& !place_is_told(tracker, data) ==> {
                &&& after.x == sight.x
                &&& after.y == sight.y
                &&& after.z == sight.z
            }
        }),
{
    let packets = tracker.movement(data);
    let id = tracker.entity_id_ref;
    lemma_angle_byte(data.entity_location.yaw.steps);
    lemma_angle_byte(data.entity_location.pitch.steps);
    lemma_moved(data.distance_squared);
    if packets.len() == 1 {
        assert(packets.drop_last() =~= Seq::empty());
        assert(sees_all(sight, id, packets.drop_last()) == sight);
    } else if packets.len() == 2 {
        let first = packets.drop_last();
        assert(first.drop_last() =~= Seq::empty());
        assert(sees_all(sight, id, first.drop_last()) == sight);
        assert(sees_all(sight, id, first) == sees(sight, id, packets[0]));
    }
}

/// Packets on an entity say nothing of another.
pub proof fn movements_concern_one_entity<C: CreateEntity>(
    sight: Sight,
    tracker: EntityPositionTracker<C>,
    data: EntityData,
    other: i32,
)
    requires
        other != tracker.entity_id_ref,
    ensures
        sees_all(sight, other, tracker.movement(data)) == sight,
{
    let packets = tracker.movement(data);
    if packets.len() == 1 {
        assert(sees_all(sight, other, packets.drop_last()) == sight);
    } else if packets.len() == 2 {
        let first = packets.drop_last();
        assert(sees_all(sight, other, first.drop_last()) == sight);
        assert(sees_all(sight, other, first) == sees(sight, other, packets[0]));
    }
}

/// What a packet of a poll carries is what was polled: a teleport the exact place, a relative
/// move the exact way along each axis, and each the entity, the ground and the direction.
pub proof fn movements_carry_what_is_polled<C: CreateEntity>(
    tracker: EntityPositionTracker<C>,
    data: EntityData,
    i: int,
)
    requires
        0 <= i < tracker.movement(data).len(),
    ensures
        ({
            let from = tracker.last_tracked_location.inner_loc;
            let to = data.entity_location.inner_loc;
            let yaw = data.entity_location.yaw.steps as int % 256;
            let pitch = data.entity_location.pitch.steps as int % 256;
            match tracker.movement(data)[i] {
                PlayPacket::TeleportEntity { entity_id, location, y_rot, x_rot, on_ground } => {
                    &&& entity_id == tracker.entity_id_ref
                    &&& location.x == to.x
                    &&& location.y == to.y
                    &&& location.z == to.z
                    &&& y_rot == yaw
                    &&& x_rot == pitch
                    &&& on_ground == data.entity_on_ground
                },
                PlayPacket::MoveEntityPosRot { id, xa, ya, za, y_rot, x_rot, on_ground } => {
                    &&& id == tracker.entity_id_ref
                    &&& fixed_point_of(from.x) + xa == fixed_point_of(to.x)
                    &&& fixed_point_of(from.y) + ya == fixed_point_of(to.y)
                    &&& fixed_point_of(from.z) + za == fixed_point_of(to.z)
                    &&& y_rot == yaw
                    &&& x_rot == pitch
                    &&& on_ground == data.entity_on_ground
                },
                PlayPacket::MoveEntityPos { id, xa, ya, za, on_ground } => {
                    &&& id == tracker.entity_id_ref
                    &&& fixed_point_of(from.x) + xa == fixed_point_of(to.x)
                    &&& fixed_point_of(from.y) + ya == fixed_point_of(to.y)
                    &&& fixed_point_of(from.z) + za == fixed_point_of(to.z)
                    &&& on_ground == data.entity_on_ground
                },
                PlayPacket::MoveEntityRot { entity_id, y_rot, x_rot, on_ground } => {
                    &&& entity_id == tracker.entity_id_ref
                    &&& y_rot == yaw
                    &&& x_rot == pitch
                    &&& on_ground == data.entity_on_ground
                },
                PlayPacket::RotateHead { entity_id, y_head_rot } => {
                    &&& entity_id == tracker.entity_id_ref
                    &&& y_head_rot == yaw
                },
                _ => false,
            }
        }),
{
    lemma_angle_byte(data.entity_location.yaw.steps);
    lemma_angle_byte(data.entity_location.pitch.steps);
}

/// A poll says no more than there is to say. A teleport comes exactly where it is the first
/// poll, where the way is too long for a relative move or where the entity left the ground or
/// came to it; a relative move exactly where the place is told otherwise; a direction only
/// where it is another than the one that was sent; and the head turns exactly on the first
/// poll and where the yaw is another than the one that was sent for it.
pub proof fn movements_say_what_is_new<C: CreateEntity>(
    tracker: EntityPositionTracker<C>,
    data: EntityData,
)
    ensures
        ({
            let packets = tracker.movement(data);
            let yaw = data.entity_location.yaw.steps;
            let pitch = data.entity_location.pitch.steps;
            let anew = tracker.tick == 0 || tracker.was_on_ground != data.entity_on_ground
                || !relative(
                tracker.last_tracked_location.inner_loc,
                data.entity_location.inner_loc,
            );
            let turned = yaw != tracker.rot_cache.0 || pitch != tracker.rot_cache.1;
            let told = place_is_told(tracker, data);
            let head = tracker.tick == 0 || yaw != tracker.rot_cache.2;
            &&& packets.len() == (if told || turned {
                1int
            } else {
                0
            }) + (if head {
                1int
            } else {
                0
            })
            &&& told || turned ==> {
                &&& packets[0] is TeleportEntity <==> anew
                &&& packets[0] is MoveEntityPosRot <==> !anew && told && turned
                &&& packets[0] is MoveEntityPos <==> !anew && told && !turned
                &&& packets[0] is MoveEntityRot <==> !told
            }
            &&& head ==> packets.last() is RotateHead
        }),
{
    lemma_moved(data.distance_squared);
}

/// A poll notes where the entity is and what clients have been told, and nothing else.
pub proof fn polls_note_what_is_polled<C: CreateEntity>(
    tracker: EntityPositionTracker<C>,
    data: EntityData,
)
    requires
        tracker.tick < usize::MAX,
    ensures
        ({
            let after = tracker.polled(data);
            &&& after.last_tracked_location == data.entity_location
            &&& after.was_on_ground == data.entity_on_ground
            &&& after.rot_cache.0 == data.entity_location.yaw.steps
            &&& after.rot_cache.1 == data.entity_location.pitch.steps
            &&& after.rot_cache.2 == data.entity_location.yaw.steps
            &&& after.tick == tracker.tick + 1
            &&& after.entity_id_ref == tracker.entity_id_ref
            &&& after.entity_uuid_ref == tracker.entity_uuid_ref
            &&& after.state == tracker.state
            &&& after.create_entity_fn == tracker.create_entity_fn
        }),
{
}

/// Whether a point lies within `2^62` of the origin along each axis, in 4096ths of a block.
pub open spec fn at_hand(place: SimpleLocation) -> bool {
    &&& -0x4000_0000_0000_0000 <= fixed_point_of(place.x) < 0x4000_0000_0000_0000
    &&& -0x4000_0000_0000_0000 <= fixed_point_of(place.y) < 0x4000_0000_0000_0000
    &&& -0x4000_0000_0000_0000 <= fixed_point_of(place.z) < 0x4000_0000_0000_0000
}

/// Every poll is in range while the points stay within `2^62` of the origin in 4096ths of a
/// block and the angles within `2^30` steps.
pub proof fn polls_are_in_range<C: CreateEntity>(
    tracker: EntityPositionTracker<C>,
    data: EntityData,
)
    requires
        tracker.tick < usize::MAX,
        at_hand(tracker.last_tracked_location.inner_loc),
        at_hand(data.entity_location.inner_loc),
        -0x4000_0000 <= data.entity_location.yaw.steps < 0x4000_0000,
        -0x4000_0000 <= data.entity_location.pitch.steps < 0x4000_0000,
        -0x4000_0000 <= tracker.rot_cache.0 < 0x4000_0000,
        -0x4000_0000 <= tracker.rot_cache.1 < 0x4000_0000,
        -0x4000_0000 <= tracker.rot_cache.2 < 0x4000_0000,
    ensures
        tracker.pollable(data),
{
}

/// Whether a packet shows the entity of a tracker where it was last tracked, facing where
/// clients have been told.
pub open spec fn shows_as_tracked<C>(
    packet: PlayPacket,
    tracker: EntityPositionTracker<C>,
) -> bool {
    let place = tracker.last_tracked_location.inner_loc;
    let yaw = tracker.rot_cache.0 as int % 256;
    let pitch = tracker.rot_cache.1 as int % 256;
    match packet {
        PlayPacket::AddPlayer { entity_id, location, y_rot, x_rot, .. } => {
            &&& entity_id == tracker.entity_id_ref
            &&& location.x == place.x
            &&& location.y == place.y
            &&& location.z == place.z
            &&& y_rot == yaw
            &&& x_rot == pitch
        },
        PlayPacket::AddEntity { id, location, y_rot, x_rot, y_head_rot, xa, ya, za, .. } => {
            &&& id == tracker.entity_id_ref
            &&& location.x == place.x
            &&& location.y == place.y
            &&& location.z == place.z
            &&& y_rot == yaw
            &&& x_rot == pitch
            &&& y_head_rot == tracker.rot_cache.2 as int % 256
            &&& xa == 0 && ya == 0 && za == 0
        },
        _ => false,
    }
}

/// An entity is shown under its own id, exactly where it was last tracked. A player is shown
/// as a player, under their UUID; any other entity as one of its type, under its UUID unless
/// it is anonymous.
pub proof fn entities_are_shown_where_they_are(tracker: EntityPositionTracker<EntityKind>)
    ensures
        shows_as_tracked(tracker.shown(), tracker),
        match tracker.create_entity_fn {
            EntityKind::Player => tracker.shown() matches PlayPacket::AddPlayer { player_id, .. }
                && player_id == tracker.entity_uuid_ref,
            EntityKind::Entity { entity_type } => tracker.shown() matches PlayPacket::AddEntity {
                uuid,
                entity_type: shown,
                data,
                ..
            } && uuid == tracker.entity_uuid_ref && shown == entity_type && data == 0,
            EntityKind::Anonymous { entity_type } => tracker.shown() matches PlayPacket::AddEntity {
                uuid,
                entity_type: shown,
                data,
                ..
            } && uuid == 0 && shown == entity_type && data == 0,
        },
{
    lemma_angle_byte(tracker.rot_cache.0);
    lemma_angle_byte(tracker.rot_cache.1);
    lemma_angle_byte(tracker.rot_cache.2);
}

/// A packet that shows an entity of some type does so under the UUID and the type that it is
/// given, exactly where the entity was last tracked.
pub proof fn typed_entities_are_shown_where_they_are<C>(
    tracker: EntityPositionTracker<C>,
    uuid: Uuid,
    entity_type: i32,
)
    ensures
        ({
            let packet = add_entity_packet(tracker, uuid, entity_type);
            &&& shows_as_tracked(packet, tracker)
            &&& packet matches PlayPacket::AddEntity {
                uuid: named,
                entity_type: shown,
                data,
                ..
            } && named == uuid && shown == entity_type && data == 0
        }),
{
    lemma_angle_byte(tracker.rot_cache.0);
    lemma_angle_byte(tracker.rot_cache.1);
    lemma_angle_byte(tracker.rot_cache.2);
}

/// What a client sees of an entity that it is shown. A player's head faces where the body
/// does.
pub open spec fn first_sight(packet: PlayPacket, on_ground: bool) -> Sight {
    match packet {
        PlayPacket::AddPlayer { location, y_rot, x_rot, .. } => Sight {
            x: fixed_point_of(location.x),
            y: fixed_point_of(location.y),
            z: fixed_point_of(location.z),
            yaw: y_rot as int,
            pitch: x_rot as int,
            head: y_rot as int,
            on_ground,
        },
        PlayPacket::AddEntity { location, y_rot, x_rot, y_head_rot, .. } => Sight {
            x: fixed_point_of(location.x),
            y: fixed_point_of(location.y),
            z: fixed_point_of(location.z),
            yaw: y_rot as int,
            pitch: x_rot as int,
            head: y_head_rot as int,
            on_ground,
        },
        _ => arbitrary(),
    }
}

/// A client to which an entity is shown in a tick sees it exactly at the place that was
/// polled, and after the packets of the next poll exactly at the next one where that is told.
pub proof fn shown_entities_are_followed(
    tracker: EntityPositionTracker<EntityKind>,
    data: EntityData,
    next: EntityData,
)
    requires
        tracker.tick < usize::MAX,
    ensures
        ({
            let id = tracker.entity_id_ref;
            let known = ticked(tracker, data);
            let first = first_sight(tracker.polled(data).shown(), data.entity_on_ground);
            let second = sees_all(first, id, known.movement(next));
            &&& stands_at(first, data.entity_location.inner_loc)
            &&& reflects(first, known)
            &&& place_is_told(known, next) ==> stands_at(second, next.entity_location.inner_loc)
            &&& second.yaw == next.entity_location.yaw.steps as int % 256
            &&& second.pitch == next.entity_location.pitch.steps as int % 256
            &&& second.head == next.entity_location.yaw.steps as int % 256
        }),
{
    let known = ticked(tracker, data);
    let first = first_sight(tracker.polled(data).shown(), data.entity_on_ground);
    entities_are_shown_where_they_are(tracker.polled(data));
    clients_see_what_is_polled(first, known, next);
}

/// In a tick, what is broadcast first on an entity shows it at the place that was polled.
pub proof fn announcements_show_the_polled_place(
    tracker: EntityPositionTracker<EntityKind>,
    data: EntityData,
)
    ensures
        announcement(tracker, data).len() > 0,
        match announcement(tracker, data)[0].packet {
            PlayPacket::AddPlayer { entity_id, player_id, location, .. } => {
                &&& entity_id == tracker.entity_id_ref
                &&& player_id == tracker.entity_uuid_ref
                &&& location == data.entity_location.inner_loc
            },
            PlayPacket::AddEntity { id, location, .. } => {
                &&& id == tracker.entity_id_ref
                &&& location == data.entity_location.inner_loc
            },
            _ => false,
        },
{
    entities_are_shown_where_they_are(tracker.polled(data));
}

/// After a tick a tracker is as the poll left it, but for its state: a newcomer is active, on
/// the same connection, and an entity that was not known is. Others are as they were.
pub proof fn ticks_poll_and_settle<C: CreateEntity>(
    tracker: EntityPositionTracker<C>,
    data: EntityData,
)
    requires
        tracker.tick < usize::MAX,
    ensures
        ({
            let after = ticked(tracker, data);
            &&& after.last_tracked_location == data.entity_location
            &&& after.was_on_ground == data.entity_on_ground
            &&& after.rot_cache.0 == data.entity_location.yaw.steps
            &&& after.rot_cache.1 == data.entity_location.pitch.steps
            &&& after.rot_cache.2 == data.entity_location.yaw.steps
            &&& after.tick == tracker.tick + 1
            &&& after.entity_id_ref == tracker.entity_id_ref
            &&& after.entity_uuid_ref == tracker.entity_uuid_ref
            &&& after.create_entity_fn == tracker.create_entity_fn
            &&& match tracker.state {
                TrackingState::WaitingForPlayers { packet_sender: waiting } => after.state
                    matches TrackingState::Active { packet_sender: active } && active == waiting,
                TrackingState::UnknownNonPlayerEntity => after.state is KnownNonPlayerEntity,
                TrackingState::Active { .. } => after.state == tracker.state,
                TrackingState::KnownNonPlayerEntity => after.state == tracker.state,
            }
        }),
{
}

/// Players have a connection, which a tick leaves to them; other entities have none.
pub proof fn players_alone_have_connections<C: CreateEntity>(
    tracker: EntityPositionTracker<C>,
    sender: PacketSend,
)
    ensures
        tracker.connection() == Some(sender) <==> {
            ||| tracker.state == (TrackingState::Active { packet_sender: sender })
            ||| tracker.state == (TrackingState::WaitingForPlayers { packet_sender: sender })
        },
        settled(tracker.state) == (TrackingState::Active { packet_sender: sender })
            <==> tracker.connection() == Some(sender),
{
}

/// An entity is tracked from where it is, under its own id and UUID, and has not been polled.
/// What clients are taken to have been told of its direction is its pitch, its yaw and its
/// pitch again, until the first poll, which tells everything.
pub proof fn entities_are_tracked_from_the_start<C, T: TrackableEntity<C>>(
    entity: T,
    state: TrackingState,
)
    ensures
        ({
            let tracker = fresh(entity, state);
            let location = entity.particulars().2;
            &&& tracker.entity_id_ref == entity.particulars().0
            &&& tracker.entity_uuid_ref == entity.particulars().1
            &&& tracker.last_tracked_location == location
            &&& tracker.was_on_ground == entity.particulars().3
            &&& tracker.create_entity_fn == entity.particulars().4
            &&& tracker.tick == 0
            &&& tracker.state == state
            &&& tracker.rot_cache.0 == location.pitch.steps
            &&& tracker.rot_cache.1 == location.yaw.steps
            &&& tracker.rot_cache.2 == location.pitch.steps
        }),
{
}

/// An order of entities holds each of them once.
pub proof fn orders_hold_everyone_once<C>(
    entities: Map<Uuid, EntityPositionTracker<C>>,
    order: Seq<Uuid>,
)
    requires
        lists(order, entities.dom()),
    ensures
        forall|uuid: Uuid| #[trigger] entities.contains_key(uuid) <==> order.contains(uuid),
        forall|i: int, j: int|
            0 <= i < j < order.len() ==> #[trigger] order[i] != #[trigger] order[j],
        ids_of(trackers_at(entities, order)).len() == order.len(),
        forall|i: int|
            0 <= i < order.len() ==> #[trigger] trackers_at(entities, order)[i]
                == entities[order[i]],
        forall|i: int|
            0 <= i < order.len() ==> #[trigger] ids_of(trackers_at(entities, order))[i]
                == entities[order[i]].entity_id_ref,
{
    assert forall|uuid: Uuid| #[trigger] entities.contains_key(uuid) <==> order.contains(uuid) by {
        assert(entities.dom().contains(uuid) <==> order.to_set().contains(uuid));
    }
}

/// A player who leaves is told to remove every entity that is left, and no other.
pub proof fn farewells_name_everyone_left<C>(
    entities: Map<Uuid, EntityPositionTracker<C>>,
    order: Seq<Uuid>,
    id: i32,
)
    requires
        lists(order, entities.dom()),
    ensures
        ids_of(trackers_at(entities, order)).contains(id) <==> exists|uuid: Uuid| #[trigger]
            entities.contains_key(uuid) && entities[uuid].entity_id_ref == id,
{
    orders_hold_everyone_once(entities, order);
    let ids = ids_of(trackers_at(entities, order));
    if ids.contains(id) {
        let i = choose|i: int| 0 <= i < ids.len() && ids[i] == id;
        assert(order.contains(order[i]));
        assert(entities.contains_key(order[i]));
    }
    if exists|uuid: Uuid| #[trigger]
        entities.contains_key(uuid) && entities[uuid].entity_id_ref == id {
        let uuid = choose|uuid: Uuid| #[trigger]
            entities.contains_key(uuid) && entities[uuid].entity_id_ref == id;
        let i = choose|i: int| 0 <= i < order.len() && order[i] == uuid;
        assert(ids[i] == id);
    }
}

/// Each of several trackers is polled with its own data.
pub proof fn each_is_polled_for_itself<C: CreateEntity>(
    entities: Seq<EntityPositionTracker<C>>,
    data: Seq<EntityData>,
    i: int,
)
    requires
        0 <= i < entities.len() == data.len(),
    ensures
        polled_all(entities, data).len() == entities.len(),
        polled_all(entities, data)[i].entity_id_ref == entities[i].entity_id_ref,
        polled_all(entities, data)[i].state == entities[i].state,
        polled_all(entities, data)[i].last_tracked_location == data[i].entity_location,
{
}

/// An entity that is not known is shown to everyone else. One that is known is shown to
/// those who wait, and its movement is for those who know it.
pub proof fn audiences_are_told_what_they_lack<C: CreateEntity>(
    tracker: EntityPositionTracker<C>,
    data: EntityData,
    client: EntityPositionTracker<C>,
    i: int,
)
    requires
        0 <= i < announcement(tracker, data).len(),
    ensures
        ({
            let broadcast = announcement(tracker, data)[i];
            let new = tracker.state is WaitingForPlayers || tracker.state
                is UnknownNonPlayerEntity;
            let admitted = broadcast.condition is Some && broadcast.condition->0.admits(client);
            &&& new ==> i == 0
            &&& i == 0 ==> broadcast.packet == tracker.polled(data).shown()
            &&& i > 0 ==> broadcast.packet == tracker.movement(data)[i - 1]
            &&& admitted <==> client.entity_id_ref != tracker.entity_id_ref && (new || (if i == 0 {
                client.state is WaitingForPlayers
            } else {
                client.state is Active
            }))
        }),
{
}

/// A tick asks for each entity by its UUID and by where it was last.
pub proof fn entities_are_asked_for_where_they_were<C: CreateEntity>(
    tracker: EntityPositionTracker<C>,
)
    ensures
        tracker.whereabouts().0 == tracker.entity_uuid_ref,
        tracker.whereabouts().1 == tracker.last_tracked_location,
{
}

/// Lists of deliveries and of conditional packets hold what each of them does, in its place.
pub proof fn deliveries_are_held_in_order(
    deliveries: Seq<Delivery>,
    broadcasts: Seq<ConditionalPacket<Audience>>,
)
    ensures
        deliveries_view(deliveries).len() == deliveries.len(),
        forall|i: int|
            0 <= i < deliveries.len() ==> {
                &&& (#[trigger] deliveries_view(deliveries)[i]).packet == deliveries[i].packet@
                &&& deliveries_view(deliveries)[i].recipients == deliveries[i].recipients@
            },
        broadcasts_view(broadcasts).len() == broadcasts.len(),
        forall|i: int|
            0 <= i < broadcasts.len() ==> #[trigger] broadcasts_view(broadcasts)[i]
                == broadcasts[i]@,
{
}

/// What is sent in a tick is each broadcast to those whom it is for, in order.
pub proof fn broadcasts_are_sent_in_order<C: CreateEntity>(
    entities: Seq<EntityPositionTracker<C>>,
    data: Seq<EntityData>,
    removed: Seq<i32>,
    i: int,
)
    requires
        0 <= i < broadcasts_in_tick(entities, data, removed).len(),
    ensures
        ({
            let sent = sent_in_tick(entities, data, removed);
            let broadcasts = broadcasts_in_tick(entities, data, removed);
            &&& sent.len() == broadcasts.len()
            &&& sent[i].packet == broadcasts[i].packet
            &&& sent[i].recipients == recipients_of(
                polled_all(entities, data),
                broadcasts[i].condition,
            )
            &&& broadcasts.last().packet == (PlayPacket::RemoveEntities { entity_ids: removed })
            &&& broadcasts.last().condition is None
            &&& broadcasts.drop_last() == announcements(entities, data)
        }),
{
    assert(broadcasts_in_tick(entities, data, removed).drop_last() =~= announcements(
        entities,
        data,
    ));
}

} // verus!
