use shovel::client::Delivery;
use shovel::entity::tracking::{
    CreateEntity, EntityData, EntityKind, EntityPositionTracker, EntityTracker, TrackableEntity,
    TrackingState,
};
use shovel::protocol::{
    Angle, ClientboundPlayRegistry, Location, PacketSend, PlayPacket, SimpleLocation, Uuid,
};

fn angle(degrees: f32) -> Angle {
    Angle { bits: degrees.to_bits(), steps: f32::floor((degrees * 256.0) / 360.0) as i32 }
}

fn location(x: f64, y: f64, z: f64, yaw: f32, pitch: f32) -> Location {
    Location {
        inner_loc: SimpleLocation { x: x.to_bits(), y: y.to_bits(), z: z.to_bits() },
        yaw: angle(yaw),
        pitch: angle(pitch),
    }
}

fn distance_squared(from: &Location, to: &Location) -> u64 {
    let delta = |a: u64, b: u64| f64::from_bits(a) - f64::from_bits(b);
    let dx = delta(from.inner_loc.x, to.inner_loc.x);
    let dy = delta(from.inner_loc.y, to.inner_loc.y);
    let dz = delta(from.inner_loc.z, to.inner_loc.z);
    ((dx * dx) + (dy * dy) + (dz * dz)).to_bits()
}

fn data(from: &Location, to: Location, on_ground: bool) -> EntityData {
    EntityData {
        entity_location: to,
        entity_on_ground: on_ground,
        distance_squared: distance_squared(from, &to),
    }
}

struct Thing {
    id: i32,
    uuid: Uuid,
    location: Location,
    shape: EntityKind,
}

impl TrackableEntity<EntityKind> for Thing {
    fn particulars(&self) -> (i32, Uuid, Location, bool, EntityKind) {
        unreachable!()
    }

    fn id(&self) -> i32 {
        self.id
    }

    fn uuid(&self) -> Uuid {
        self.uuid
    }

    fn location(&self) -> Location {
        self.location
    }

    fn on_ground(&self) -> bool {
        true
    }

    fn create_entity(&self) -> EntityKind {
        self.shape
    }
}

fn player(id: i32) -> Thing {
    Thing {
        id,
        uuid: id as Uuid,
        location: location(0.0, 64.0, 0.0, 0.0, 0.0),
        shape: EntityKind::Player,
    }
}

fn cow(id: i32) -> Thing {
    Thing { shape: EntityKind::Entity { entity_type: 10 }, ..player(id) }
}

fn channel(n: u64) -> PacketSend {
    PacketSend { channel: n }
}

fn stand_still(_: Uuid, last: Location) -> EntityData {
    data(&last, last, true)
}

fn received(deliveries: &[Delivery], to: PacketSend) -> Vec<&ClientboundPlayRegistry> {
    deliveries.iter().filter(|d| d.recipients.contains(&to)).map(|d| &d.packet).collect()
}

fn tracker_at(location: Location) -> EntityPositionTracker {
    EntityPositionTracker::create_from_initial_location(
        7,
        77,
        location,
        true,
        EntityKind::Player,
        TrackingState::KnownNonPlayerEntity,
    )
}

#[test]
fn first_poll_places_the_entity() {
    let start = location(1.0, 2.0, 3.0, 90.0, 45.0);
    let mut tracker = tracker_at(start);
    assert_eq!(tracker.rot_cache, (32, 64, 32));
    let packets = tracker.poll_location(data(&start, start, true));
    assert_eq!(
        packets,
        vec![
            ClientboundPlayRegistry::TeleportEntity {
                entity_id: 7,
                location: start.inner_loc,
                y_rot: 64,
                x_rot: 32,
                on_ground: true,
            },
            ClientboundPlayRegistry::RotateHead { entity_id: 7, y_head_rot: 64 },
        ]
    );
    assert_eq!(tracker.rot_cache, (64, 32, 64));
}

#[test]
fn still_entity_is_silent_between_twentieth_ticks() {
    let start = location(1.0, 2.0, 3.0, 0.0, 0.0);
    let mut tracker = tracker_at(start);
    tracker.poll_location(data(&start, start, true));
    for tick in 1..60 {
        let packets = tracker.poll_location(data(&start, start, true));
        if tick % 20 == 0 {
            assert_eq!(
                packets,
                vec![ClientboundPlayRegistry::MoveEntityPos {
                    id: 7,
                    xa: 0,
                    ya: 0,
                    za: 0,
                    on_ground: true,
                }]
            );
        } else {
            assert!(packets.is_empty(), "tick {tick}");
        }
    }
}

#[test]
fn short_ways_are_relative_moves() {
    let start = location(0.0, 0.0, 0.0, 0.0, 0.0);
    let mut tracker = tracker_at(start);
    tracker.poll_location(data(&start, start, true));
    let next = location(1.0, -0.5, 7.999, 0.0, 0.0);
    assert_eq!(
        tracker.poll_location(data(&start, next, true)),
        vec![ClientboundPlayRegistry::MoveEntityPos {
            id: 7,
            xa: 4096,
            ya: -2048,
            za: 32764,
            on_ground: true,
        }]
    );
    let turned = location(1.0, 0.5, 7.999, -90.0, 10.0);
    assert_eq!(
        tracker.poll_location(data(&next, turned, true)),
        vec![
            ClientboundPlayRegistry::MoveEntityPosRot {
                id: 7,
                xa: 0,
                ya: 4096,
                za: 0,
                y_rot: 192,
                x_rot: 7,
                on_ground: true,
            },
            ClientboundPlayRegistry::RotateHead { entity_id: 7, y_head_rot: 192 },
        ]
    );
    let nodded = location(1.0, 0.5, 7.999, -90.0, 20.0);
    assert_eq!(
        tracker.poll_location(data(&turned, nodded, true)),
        vec![ClientboundPlayRegistry::MoveEntityRot {
            entity_id: 7,
            y_rot: 192,
            x_rot: 14,
            on_ground: true,
        }]
    );
}

#[test]
fn long_ways_and_landings_are_placed_anew() {
    let start = location(0.0, 0.0, 0.0, 0.0, 0.0);
    let mut tracker = tracker_at(start);
    tracker.poll_location(data(&start, start, true));
    let far = location(8.0, 0.0, 0.0, 0.0, 0.0);
    assert_eq!(
        tracker.poll_location(data(&start, far, true)),
        vec![ClientboundPlayRegistry::TeleportEntity {
            entity_id: 7,
            location: far.inner_loc,
            y_rot: 0,
            x_rot: 0,
            on_ground: true,
        }]
    );
    assert_eq!(
        tracker.poll_location(data(&far, far, false)),
        vec![ClientboundPlayRegistry::TeleportEntity {
            entity_id: 7,
            location: far.inner_loc,
            y_rot: 0,
            x_rot: 0,
            on_ground: false,
        }]
    );
}

#[test]
fn smallest_way_that_counts() {
    let start = location(0.0, 0.0, 0.0, 0.0, 0.0);
    let just = (2.0f64).powi(-17).sqrt();
    let mut tracker = tracker_at(start);
    tracker.poll_location(data(&start, start, true));
    let mut moved = data(&start, start, true);
    moved.distance_squared = 7.62939453125E-6f64.to_bits();
    assert_eq!(tracker.poll_location(moved).len(), 1);
    moved.distance_squared -= 1;
    assert_eq!(tracker.poll_location(moved).len(), 0);
    assert!(just > 0.0);
}

#[test]
fn newcomers_are_shown_everyone_else() {
    let mut tracker = EntityTracker::<EntityKind>::default();
    tracker.add_player(&player(1), channel(1));
    tracker.add_entity(&cow(2));
    tracker.tick(stand_still);
    tracker.add_player(&player(3), channel(3));
    assert!(tracker.contains(&3));
    let deliveries = tracker.tick(stand_still);

    let to_newcomer = received(&deliveries, channel(3));
    let mut shown = Vec::new();
    for packet in &to_newcomer {
        match packet {
            ClientboundPlayRegistry::AddPlayer { entity_id, .. } => shown.push(*entity_id),
            ClientboundPlayRegistry::AddEntity { id, uuid, entity_type, .. } => {
                assert_eq!((*uuid, *entity_type), (2, 10));
                shown.push(*id);
            }
            ClientboundPlayRegistry::RemoveEntities { entity_ids } => {
                assert!(entity_ids.is_empty());
            }
            other => panic!("{other:?}"),
        }
    }
    shown.sort();
    assert_eq!(shown, vec![1, 2]);

    let to_old = received(&deliveries, channel(1));
    assert!(to_old
        .iter()
        .any(|p| matches!(p, ClientboundPlayRegistry::AddPlayer { entity_id: 3, .. })));
    assert!(!to_old
        .iter()
        .any(|p| matches!(p, ClientboundPlayRegistry::AddPlayer { entity_id: 1, .. })));
}

#[test]
fn nobody_hears_of_themselves() {
    let mut tracker = EntityTracker::<EntityKind>::new();
    tracker.add_player(&player(1), channel(1));
    let deliveries = tracker.tick(stand_still);
    assert_eq!(
        received(&deliveries, channel(1)),
        vec![&ClientboundPlayRegistry::RemoveEntities { entity_ids: vec![] }]
    );
}

#[test]
fn ticks_settle_states() {
    let mut tracker = EntityTracker::<EntityKind>::new();
    tracker.add_player(&player(1), channel(1));
    tracker.add_entity(&cow(2));
    assert_eq!(
        tracker.entities[&1].state,
        TrackingState::WaitingForPlayers { packet_sender: channel(1) }
    );
    assert_eq!(tracker.entities[&2].state, TrackingState::UnknownNonPlayerEntity);
    tracker.tick(stand_still);
    assert_eq!(
        tracker.entities[&1].state,
        TrackingState::Active { packet_sender: channel(1) }
    );
    assert_eq!(tracker.entities[&2].state, TrackingState::KnownNonPlayerEntity);
}

#[test]
fn movements_reach_those_who_know_the_entity() {
    let mut tracker = EntityTracker::<EntityKind>::new();
    tracker.add_player(&player(1), channel(1));
    tracker.add_entity(&cow(2));
    tracker.tick(stand_still);
    let to = location(1.0, 64.0, 0.0, 0.0, 0.0);
    let deliveries = tracker.tick(|uuid: Uuid, last: Location| {
        if uuid == 2 {
            data(&last, to, true)
        } else {
            stand_still(uuid, last)
        }
    });
    assert!(received(&deliveries, channel(1)).contains(&&ClientboundPlayRegistry::MoveEntityPos {
        id: 2,
        xa: 4096,
        ya: 0,
        za: 0,
        on_ground: true,
    }));
}

#[test]
fn removals_are_told_once() {
    let mut tracker = EntityTracker::<EntityKind>::new();
    tracker.add_player(&player(1), channel(1));
    tracker.add_entity(&cow(2));
    tracker.tick(stand_still);
    assert!(tracker.remove_entity(2).is_none());
    assert_eq!(tracker.removed_entities_since_last_tick, vec![2]);
    let deliveries = tracker.tick(stand_still);
    assert!(received(&deliveries, channel(1))
        .contains(&&ClientboundPlayRegistry::RemoveEntities { entity_ids: vec![2] }));
    let deliveries = tracker.tick(stand_still);
    assert!(received(&deliveries, channel(1))
        .contains(&&ClientboundPlayRegistry::RemoveEntities { entity_ids: vec![] }));
}

#[test]
fn players_who_leave_forget_everyone() {
    let mut tracker = EntityTracker::<EntityKind>::new();
    tracker.add_player(&player(1), channel(1));
    tracker.add_entity(&cow(2));
    tracker.add_entity(&cow(4));
    tracker.remove_entity(4);
    let farewell = tracker.remove_entity(1).unwrap();
    assert_eq!(farewell.recipients, vec![channel(1)]);
    assert_eq!(
        farewell.packet,
        ClientboundPlayRegistry::RemoveEntities { entity_ids: vec![4, 2] }
    );
    assert_eq!(tracker.removed_entities_since_last_tick, vec![4, 1]);
    assert!(tracker.remove_entity(1).is_none());
    assert_eq!(tracker.removed_entities_since_last_tick, vec![4, 1]);
}

#[test]
fn entities_without_a_uuid_are_shown_with_none() {
    let tracker = EntityPositionTracker {
        create_entity_fn: EntityKind::Anonymous { entity_type: 5 },
        ..tracker_at(location(1.0, 2.0, 3.0, 0.0, 90.0))
    };
    assert_eq!(
        tracker.create_entity(),
        ClientboundPlayRegistry::AddEntity {
            id: 7,
            uuid: 0,
            entity_type: 5,
            location: tracker.last_tracked_location.inner_loc,
            x_rot: 0,
            y_rot: 64,
            y_head_rot: 64,
            data: 0,
            xa: 0,
            ya: 0,
            za: 0,
        }
    );
}

#[test]
fn players_receive_what_they_hear_of_each_entity() {
    let mut tracker = EntityTracker::<EntityKind>::new();
    tracker.add_player(&player(1), channel(1));
    tracker.add_entity(&cow(2));
    tracker.tick(stand_still);
    tracker.add_player(&player(3), channel(3));
    let order = vec![2, 3, 1];
    let to = location(1.0, 64.0, 0.0, 90.0, 0.0);
    let turned: Vec<EntityData> = order
        .iter()
        .map(|uuid| data(&tracker.entities[uuid].last_tracked_location, to, true))
        .collect();
    let deliveries = tracker.tick_in_order(&order, &turned);
    let name = |packet: &ClientboundPlayRegistry| match packet {
        ClientboundPlayRegistry::AddPlayer { entity_id, .. } => ("player", *entity_id),
        ClientboundPlayRegistry::AddEntity { id, .. } => ("entity", *id),
        ClientboundPlayRegistry::MoveEntityPosRot { id, .. } => ("move", *id),
        ClientboundPlayRegistry::RotateHead { entity_id, .. } => ("head", *entity_id),
        ClientboundPlayRegistry::RemoveEntities { .. } => ("removal", 0),
        other => panic!("{other:?}"),
    };
    let names = |to: u64| -> Vec<(&str, i32)> {
        received(&deliveries, channel(to)).into_iter().map(name).collect()
    };
    assert_eq!(names(1), vec![("move", 2), ("head", 2), ("player", 3), ("removal", 0)]);
    assert_eq!(names(3), vec![("entity", 2), ("player", 1), ("removal", 0)]);

    let still: Vec<EntityData> = order.iter().map(|_| data(&to, to, true)).collect();
    let deliveries = tracker.tick_in_order(&order, &still);
    let shown = |to: u64| {
        received(&deliveries, channel(to))
            .into_iter()
            .filter(|packet| {
                matches!(
                    packet,
                    ClientboundPlayRegistry::AddPlayer { .. }
                        | ClientboundPlayRegistry::AddEntity { .. }
                )
            })
            .count()
    };
    assert_eq!((shown(1), shown(3)), (0, 0));
}

#[derive(Clone, Copy, Debug, PartialEq)]
struct Painting {
    motive: i32,
}

impl CreateEntity for Painting {
    fn shows(&self, _: EntityPositionTracker<Self>) -> PlayPacket {
        unreachable!()
    }

    fn create_entity(&self, tracker: &EntityPositionTracker<Self>) -> ClientboundPlayRegistry {
        ClientboundPlayRegistry::RotateHead {
            entity_id: tracker.entity_id_ref + self.motive,
            y_head_rot: 3,
        }
    }
}

struct Framed(i32);

impl TrackableEntity<Painting> for Framed {
    fn particulars(&self) -> (i32, Uuid, Location, bool, Painting) {
        unreachable!()
    }

    fn id(&self) -> i32 {
        self.0
    }

    fn uuid(&self) -> Uuid {
        self.0 as Uuid
    }

    fn location(&self) -> Location {
        location(0.0, 0.0, 0.0, 0.0, 0.0)
    }

    fn on_ground(&self) -> bool {
        false
    }

    fn create_entity(&self) -> Painting {
        Painting { motive: 100 }
    }
}

#[test]
fn entities_can_be_shown_in_other_ways() {
    let mut tracker = EntityTracker::<Painting>::new();
    tracker.add_player(&Framed(1), channel(1));
    tracker.add_entity(&Framed(2));
    let deliveries = tracker.tick(stand_still);
    assert!(received(&deliveries, channel(1))
        .contains(&&ClientboundPlayRegistry::RotateHead { entity_id: 102, y_head_rot: 3 }));
}
