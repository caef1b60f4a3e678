use std::collections::{HashSet, VecDeque};
use std::sync::Arc;

use shovel::client::{PacketReader, PendingPosition, ServerboundPlayRegistry};
use shovel::entity::tracking::{EntityKind, TrackableEntity};
use shovel::inventory::PlayerInventory;
use shovel::phase::play::{ConnectedPlayer, PacketLocker, PacketOutbox, PacketReceiver};
use shovel::phase::{ConnectionInformation, SocketAddr};
use shovel::protocol::{
    Angle, Chat, Chunk, ClientboundPlayRegistry, GameProfile, ItemStack, Location, PacketSend,
    SimpleLocation,
};

fn at(x: f64, y: f64, z: f64) -> Location {
    Location {
        inner_loc: SimpleLocation { x: x.to_bits(), y: y.to_bits(), z: z.to_bits() },
        yaw: Angle { bits: 0, steps: 0 },
        pitch: Angle { bits: 0, steps: 0 },
    }
}

fn player() -> ConnectedPlayer {
    ConnectedPlayer {
        packets: PacketLocker {
            send: PacketSend { channel: 1 },
            outbox: PacketOutbox { queue: vec![], closed: false },
            packet_listener: PacketReceiver { queue: VecDeque::new(), disconnected: false },
            active: true,
            connection_information: ConnectionInformation {
                protocol_version: 761,
                address: SocketAddr::V4 { ip: 1, port: 2 },
                virtual_host: "host".to_string(),
                virtual_port: 3,
                compression_threshold: None,
            },
        },
        entity_id: 5,
        profile: GameProfile { id: 50, name: "Five".to_string(), properties: vec![] },
        is_position_loaded: false,
        position: at(0.0, 64.0, 0.0),
        on_ground: false,
        teleport_id_incr: 0,
        known_chunks: HashSet::new(),
        player_inventory: PlayerInventory::default(),
    }
}

fn pending(location: Location, is_loaded: bool) -> PendingPosition {
    PendingPosition { location, pending_teleport: None, on_ground: false, is_loaded }
}

fn written(player: &ConnectedPlayer) -> Vec<&ClientboundPlayRegistry> {
    player.packets.outbox.queue.iter().map(|packet| &**packet).collect()
}

fn chat(text: &str) -> Chat {
    Chat { json: format!("{{\"text\":\"{text}\"}}") }
}

fn item(item_id: i32) -> Option<ItemStack> {
    Some(ItemStack { item_id, count: 1, tag: None })
}

#[test]
fn packets_go_out_while_someone_receives_them() {
    let mut player = player();
    player.write_packet(Arc::new(ClientboundPlayRegistry::KeepAlive { id: 1 }));
    player.write_owned_packet(ClientboundPlayRegistry::KeepAlive { id: 2 });
    assert_eq!(
        written(&player),
        vec![
            &ClientboundPlayRegistry::KeepAlive { id: 1 },
            &ClientboundPlayRegistry::KeepAlive { id: 2 },
        ]
    );
    player.packets.outbox.closed = true;
    player.write_owned_packet(ClientboundPlayRegistry::KeepAlive { id: 3 });
    assert!(!player.packets.active);
    assert_eq!(written(&player).len(), 2);
    player.packets.outbox.closed = false;
    player.write_owned_packet(ClientboundPlayRegistry::KeepAlive { id: 4 });
    assert_eq!(written(&player).len(), 2);
}

#[test]
fn packets_come_in_in_order() {
    let mut player = player();
    let other = |n: u8| ServerboundPlayRegistry::Other { body: vec![n] };
    player = player.mutate_receiver(|mut receiver: PacketReceiver| {
        receiver.queue.push_back(ServerboundPlayRegistry::Other { body: vec![1] });
        receiver.queue.push_back(ServerboundPlayRegistry::Other { body: vec![2] });
        receiver
    });
    assert_eq!(player.next_packet(), Some(other(1)));
    assert_eq!(player.next_packet(), Some(other(2)));
    assert_eq!(player.next_packet(), None);
    assert!(player.packets.active);
    player.packets.packet_listener.disconnected = true;
    assert_eq!(player.next_packet(), None);
    assert!(!player.packets.active);
}

#[test]
fn inactive_clients_are_not_read() {
    let mut player = player();
    player.packets.packet_listener.queue.push_back(ServerboundPlayRegistry::Other { body: vec![] });
    player.packets.active = false;
    assert_eq!(player.next_packet(), None);
}

#[test]
fn disconnected_clients_are_told_why_and_nothing_more() {
    let mut player = player();
    player.disconnect(chat("bye"));
    player.send_message(chat("hello?"));
    assert_eq!(
        written(&player),
        vec![&ClientboundPlayRegistry::Disconnect { reason: chat("bye") }]
    );
    assert!(!player.packets.active);
}

#[test]
fn messages_are_sent() {
    let mut player = player();
    player.send_message(chat("hello"));
    assert_eq!(
        written(&player),
        vec![&ClientboundPlayRegistry::SystemChat { content: chat("hello"), overlay: false }]
    );
}

#[test]
fn teleports_are_numbered_and_accepted() {
    let mut player = player();
    let mut position = pending(at(0.0, 64.0, 0.0), true);
    let (first, second) = (at(1.0, 2.0, 3.0), at(4.0, 5.0, 6.0));
    player.teleport_local(&mut position, first);
    player.teleport(&mut position, second, true);
    assert_eq!(position.pending_teleport, Some((second, 1)));
    assert!(!position.is_loaded);
    assert!(!player.is_loaded());
    assert_eq!(player.position, second);
    assert_eq!(
        written(&player)[1],
        &ClientboundPlayRegistry::PlayerPosition {
            location: second,
            relative_arguments: 0,
            id: 1,
            dismount: false,
        }
    );
    let mut reader = PacketReader::new();
    reader.receive(
        &mut position,
        ServerboundPlayRegistry::AcceptTeleportation { teleportation_id: 1 },
    );
    assert_eq!(position.location, second);
}

#[test]
fn teleport_numbers_wrap_around() {
    let mut player = player();
    player.teleport_id_incr = i32::MAX;
    let mut position = pending(at(0.0, 0.0, 0.0), true);
    player.teleport_local(&mut position, at(0.0, 0.0, 0.0));
    assert_eq!(position.pending_teleport.map(|t| t.1), Some(i32::MAX));
    assert_eq!(player.teleport_id_incr, i32::MIN);
}

#[test]
fn locations_are_taken_over_once_said() {
    let mut player = player();
    assert!(!player.update_location(&pending(at(100.0, 64.0, 0.0), false)));
    assert_eq!(player.position, at(0.0, 64.0, 0.0));
    assert!(!player.update_location(&pending(at(15.9, 64.0, 0.0), true)));
    assert!(player.is_loaded());
    assert!(player.update_location(&pending(at(16.0, 64.0, 0.0), true)));
    assert!(player.update_location(&pending(at(16.0, 64.0, -0.1), true)));
    assert!(!player.update_location(&pending(at(16.5, 10.0, -15.9), true)));
    assert_eq!(player.position, at(16.5, 10.0, -15.9));
}

#[test]
fn chunks_are_known_between_sending_and_hiding() {
    let mut player = player();
    player.send_chunk(Chunk { x: -3, z: 7, data: vec![1, 2, 3] });
    assert!(player.knows_chunk(-3, 7));
    assert!(!player.knows_chunk(7, -3));
    match written(&player)[0] {
        ClientboundPlayRegistry::LevelChunkWithLight { chunk_data, light_data } => {
            assert_eq!(chunk_data.chunk, Chunk { x: -3, z: 7, data: vec![1, 2, 3] });
            assert!(chunk_data.block_entities.is_empty());
            assert!(!light_data.trust_edges);
            assert!(light_data.sky_y_mask.is_empty() && light_data.empty_block_y_mask.is_empty());
            assert_eq!(light_data.sky_updates, vec![Vec::<u8>::new(); 2048]);
            assert_eq!(light_data.block_updates, vec![Vec::<u8>::new(); 2048]);
        }
        other => panic!("{other:?}"),
    }
    player.forget_chunk(-3, 7);
    assert!(!player.knows_chunk(-3, 7));
    assert_eq!(written(&player)[1], &ClientboundPlayRegistry::ForgetLevelChunk { x: -3, z: 7 });
}

#[test]
fn chunks_at_the_edges_are_told_apart() {
    let mut player = player();
    let edges = [i32::MIN, -1, 0, 1, i32::MAX];
    for x in edges {
        for z in edges {
            assert!(!player.knows_chunk(x, z));
            player.send_chunk(Chunk { x, z, data: vec![] });
            assert!(player.knows_chunk(x, z));
        }
    }
    player.packets.outbox.queue.clear();
    player.clear_known_chunks();
    let mut hidden: Vec<(i32, i32)> = written(&player)
        .iter()
        .map(|packet| match packet {
            ClientboundPlayRegistry::ForgetLevelChunk { x, z } => (*x, *z),
            other => panic!("{other:?}"),
        })
        .collect();
    hidden.sort();
    let expected: Vec<(i32, i32)> =
        edges.iter().flat_map(|x| edges.iter().map(move |z| (*x, *z))).collect();
    assert_eq!(hidden, expected);
    assert!(player.known_chunks.is_empty());
}

#[test]
fn levels_are_rendered_when_the_chunk_changes() {
    let player = player().render_level(
        &pending(at(40.0, 64.0, -20.0), true),
        |mut player: ConnectedPlayer, force: bool| {
            assert!(force);
            player.send_chunk(Chunk { x: 2, z: -2, data: vec![] });
            player
        },
    );
    assert!(player.knows_chunk(2, -2));
    assert_eq!(
        written(&player)[1],
        &ClientboundPlayRegistry::SetChunkCacheCenter { x: 2, z: -2 }
    );
    let player = player.render_level(
        &pending(at(41.0, 64.0, -20.0), true),
        |_: ConnectedPlayer, _: bool| unreachable!(),
    );
    assert_eq!(written(&player).len(), 2);
}

#[test]
fn inventories_are_forwarded() {
    let mut player = player();
    player.set_head(item(1));
    player.set_chest(item(2));
    player.set_legs(item(3));
    player.set_feet(item(4));
    player.set_offhand(item(5));
    player.set_crafting_output(item(6));
    player.set_crafting_slot(item(7), 1, 1);
    player.set_player_inventory_slot(item(8), 8, 3);
    let slots: Vec<(i32, u16)> = written(&player)
        .iter()
        .map(|packet| match packet {
            ClientboundPlayRegistry::ContainerSetSlot { container_id: 0, state_id, slot, .. } => {
                (*state_id, *slot)
            }
            other => panic!("{other:?}"),
        })
        .collect();
    assert_eq!(
        slots,
        vec![(0, 5), (1, 6), (2, 7), (3, 8), (4, 45), (5, 0), (6, 4), (7, 44)]
    );
    player.set_current_slot(3);
    assert_eq!(written(&player)[8], &ClientboundPlayRegistry::SetCarriedItem { slot: 3 });
    player.refresh_player_inventory();
    match written(&player)[9] {
        ClientboundPlayRegistry::ContainerSetContent { state_id, items, .. } => {
            assert_eq!(*state_id, 8);
            assert_eq!(items.len(), 46);
            assert_eq!(items[44], item(8));
            assert_eq!(items[4], item(7));
        }
        other => panic!("{other:?}"),
    }
    player.set_player_inventory(&[item(9)]);
    player.clear_inventory();
    match written(&player)[11] {
        ClientboundPlayRegistry::ContainerSetContent { items, .. } => {
            assert!(items.iter().all(|slot| slot.is_none()));
        }
        other => panic!("{other:?}"),
    }
    assert_eq!(player.player_inventory().current_state_id(), 8);
}

#[test]
fn players_are_tracked_as_players() {
    let player = player();
    assert_eq!(player.id(), 5);
    assert_eq!(player.uuid(), 50);
    assert_eq!(player.location(), player.position);
    assert!(!TrackableEntity::on_ground(&player));
    assert_eq!(player.create_entity(), EntityKind::Player);
    assert_eq!(player.profile().name, "Five");
}

#[test]
fn paused_clients_stay_until_they_say_where_they_are() {
    let mut player = player();
    let mut position = pending(at(50.0, 64.0, 0.0), true);
    player.teleport(&mut position, at(0.0, 70.0, 0.0), true);
    assert!(!player.update_location(&position));
    assert_eq!(player.position, at(0.0, 70.0, 0.0));
    assert!(!player.is_loaded());
}
