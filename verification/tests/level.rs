use std::collections::{HashMap, HashSet, VecDeque};

use shovel::inventory::PlayerInventory;
use shovel::level::{empty_light_data, LevelMediator, LIGHT_SECTIONS};
use shovel::phase::play::{ConnectedPlayer, PacketLocker, PacketOutbox, PacketReceiver};
use shovel::phase::{ConnectionInformation, SocketAddr};
use shovel::protocol::{
    Angle, BlockPos, Chunk, ClientboundPlayRegistry, GameProfile, Location, PacketSend, SectionPos,
    SimpleLocation,
};

fn builder() -> ConnectedPlayer {
    let angle = Angle { bits: 0, steps: 0 };
    ConnectedPlayer {
        packets: PacketLocker {
            send: PacketSend { channel: 1 },
            outbox: PacketOutbox { queue: vec![], closed: false },
            packet_listener: PacketReceiver { queue: VecDeque::new(), disconnected: false },
            active: true,
            connection_information: ConnectionInformation {
                protocol_version: 761,
                address: SocketAddr::V4 { ip: 1, port: 2 },
                virtual_host: String::new(),
                virtual_port: 3,
                compression_threshold: None,
            },
        },
        entity_id: 5,
        profile: GameProfile { id: 50, name: "Five".to_string(), properties: vec![] },
        is_position_loaded: false,
        position: Location {
            inner_loc: SimpleLocation { x: 0, y: 0, z: 0 },
            yaw: angle,
            pitch: angle,
        },
        on_ground: false,
        teleport_id_incr: 0,
        known_chunks: HashSet::new(),
        player_inventory: PlayerInventory::default(),
    }
}

fn pos(x: i32, y: i32, z: i32) -> BlockPos {
    BlockPos { x, y, z }
}

fn told(mediator: LevelMediator) -> HashMap<(i32, i32, i32), HashMap<(i32, i32, i32), i32>> {
    let mut sections = HashMap::new();
    for packet in mediator.into_updates() {
        match &*packet {
            ClientboundPlayRegistry::SectionBlocksUpdate {
                section_pos: SectionPos { x, y, z },
                suppress_light_update: false,
                update_info,
            } => {
                let mut blocks = HashMap::new();
                for update in update_info {
                    let p = update.block_pos;
                    assert!(blocks.insert((p.x, p.y, p.z), update.block_id).is_none());
                }
                assert!(sections.insert((*x, *y, *z), blocks).is_none());
            }
            other => panic!("{other:?}"),
        }
    }
    sections
}

#[test]
fn no_change_is_told_in_no_packet() {
    assert!(LevelMediator::default().into_updates().is_empty());
}

#[test]
fn changes_are_told_by_section() {
    let mut mediator = LevelMediator::default();
    mediator.update(pos(0, 0, 0), 1);
    mediator.update(pos(15, 15, 15), 2);
    mediator.update(pos(16, 0, 0), 3);
    mediator.update(pos(-1, -1, -1), 4);
    mediator.update(pos(i32::MIN, i32::MAX, 5), 6);
    let sections = told(mediator);
    assert_eq!(sections.len(), 4);
    assert_eq!(sections[&(0, 0, 0)], HashMap::from([((0, 0, 0), 1), ((15, 15, 15), 2)]));
    assert_eq!(sections[&(1, 0, 0)], HashMap::from([((16, 0, 0), 3)]));
    assert_eq!(sections[&(-1, -1, -1)], HashMap::from([((-1, -1, -1), 4)]));
    assert_eq!(
        sections[&(-134_217_728, 134_217_727, 0)],
        HashMap::from([((i32::MIN, i32::MAX, 5), 6)])
    );
}

#[test]
fn later_changes_of_a_block_win() {
    let mut mediator = LevelMediator::default();
    mediator.update(pos(1, 2, 3), 1);
    mediator.update(pos(1, 2, 4), 2);
    mediator.update(pos(1, 2, 3), 9);
    assert_eq!(
        told(mediator)[&(0, 0, 0)],
        HashMap::from([((1, 2, 3), 9), ((1, 2, 4), 2)])
    );
}

#[test]
fn changes_need_chunks_that_are_known() {
    let mut player = builder();
    let mut mediator = LevelMediator::default();
    assert!(mediator.validate_positions(&player));
    mediator.update(pos(17, 300, -5), 1);
    assert!(!mediator.validate_positions(&player));
    player.send_chunk(Chunk { x: 1, z: -1, data: vec![] });
    assert!(mediator.validate_positions(&player));
    mediator.update(pos(0, 0, 0), 1);
    assert!(!mediator.validate_positions(&player));
}

#[test]
fn empty_light_tells_of_nothing() {
    let light = empty_light_data();
    assert_eq!(light.sky_updates.len(), LIGHT_SECTIONS);
    assert_eq!(light.block_updates.len(), 2048);
    assert!(light.block_updates.iter().all(|update| update.is_empty()));
    assert!(light.block_y_mask.is_empty() && light.empty_sky_y_mask.is_empty());
}
