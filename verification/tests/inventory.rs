use std::collections::{HashSet, VecDeque};

use shovel::inventory::item::ItemBuilder;
use shovel::inventory::{ClickWith, Clicker, Menu, MenuItem, PlayerInventory};
use shovel::nbt::Tag;
use shovel::phase::play::{ConnectedPlayer, PacketLocker, PacketOutbox, PacketReceiver};
use shovel::phase::{ConnectionInformation, SocketAddr};
use shovel::protocol::{
    Angle, Chat, ClientboundPlayRegistry, GameProfile, ItemStack, Location, MenuType, PacketSend,
    SimpleLocation,
};

fn item(item_id: i32) -> Option<ItemStack> {
    Some(ItemStack { item_id, count: 1, tag: None })
}

fn chat(text: &str) -> Chat {
    Chat { json: format!("{{\"text\":\"{text}\"}}") }
}

fn viewer() -> ConnectedPlayer {
    let angle = Angle { bits: 0, steps: 0 };
    ConnectedPlayer {
        packets: PacketLocker {
            send: PacketSend { channel: 1 },
            outbox: PacketOutbox { queue: vec![], closed: false },
            packet_listener: PacketReceiver { queue: VecDeque::new(), disconnected: false },
            active: true,
            connection_information: ConnectionInformation {
                protocol_version: 761,
                address: SocketAddr::V6 { ip: 1, port: 2, flowinfo: 0, scope_id: 0 },
                virtual_host: String::new(),
                virtual_port: 3,
                compression_threshold: None,
            },
        },
        entity_id: 5,
        profile: GameProfile { id: 50, name: "Five".to_string(), properties: vec![] },
        is_position_loaded: false,
        position: Location {
            inner_loc: SimpleLocation { x: 0, y: 0, z: 0 },
            yaw: angle,
            pitch: angle,
        },
        on_ground: false,
        teleport_id_incr: 0,
        known_chunks: HashSet::new(),
        player_inventory: PlayerInventory::default(),
    }
}

fn contents(packet: &ClientboundPlayRegistry) -> (u8, i32, Vec<Option<i32>>) {
    match packet {
        ClientboundPlayRegistry::ContainerSetContent {
            container_id,
            state_id,
            items,
            carried_item: None,
        } => (
            *container_id,
            *state_id,
            items.iter().map(|slot| slot.as_ref().map(|stack| stack.item_id)).collect(),
        ),
        other => panic!("{other:?}"),
    }
}

#[test]
fn slots_are_numbered_as_the_client_does() {
    let mut inventory = PlayerInventory::default();
    inventory.set_crafting_output(item(100));
    for y in 0..2 {
        for x in 0..2 {
            inventory.set_crafting_slot(item((10 * y + x) as i32), x, y);
        }
    }
    inventory.set_head(item(200));
    inventory.set_feet(item(203));
    for y in 0..4 {
        for x in 0..9 {
            inventory.set(item(1000 + (10 * y + x) as i32), x, y);
        }
    }
    inventory.set_offhand(item(300));
    let (id, state, items) = contents(&inventory.refresh());
    assert_eq!((id, state), (0, 1 + 4 + 2 + 36 + 1));
    let mut expected =
        vec![Some(100), Some(0), Some(1), Some(10), Some(11), Some(200), None, None, Some(203)];
    for y in 0..4 {
        for x in 0..9 {
            expected.push(Some(1000 + 10 * y + x));
        }
    }
    expected.push(Some(300));
    assert_eq!(items, expected);
}

#[test]
fn one_slot_packets_agree_with_the_whole() {
    let mut inventory = PlayerInventory::default();
    let (_, _, mut known) = contents(&inventory.refresh());
    let packets = vec![
        inventory.set(item(1), 0, 0),
        inventory.set(item(2), 8, 3),
        inventory.set_chest(item(3)),
        inventory.set_legs(item(4)),
        inventory.set_crafting_slot(item(5), 1, 0),
        inventory.set_offhand(item(6)),
        inventory.set(None, 0, 0),
    ];
    for (expected_state, packet) in packets.iter().enumerate() {
        match packet {
            ClientboundPlayRegistry::ContainerSetSlot { container_id: 0, state_id, slot, item } => {
                assert_eq!(*state_id, expected_state as i32);
                known[*slot as usize] = item.as_ref().map(|stack| stack.item_id);
            }
            other => panic!("{other:?}"),
        }
    }
    assert_eq!(contents(&inventory.refresh()), (0, 7, known));
}

#[test]
fn carried_items_are_filled_from_the_first_on() {
    let mut inventory = PlayerInventory::default();
    inventory.set(item(7), 3, 1);
    let stacks: Vec<Option<ItemStack>> = (0..11).map(item).collect();
    let (_, state, items) = contents(&inventory.set_all(&stacks));
    assert_eq!(state, 1);
    for i in 0..11 {
        assert_eq!(items[9 + i], Some(i as i32));
    }
    assert_eq!(items[9 + 12], Some(7));
    assert_eq!(items[9 + 11], None);
}

#[test]
fn cleared_inventories_are_empty() {
    let mut inventory = PlayerInventory::default();
    inventory.set_head(item(1));
    inventory.set_current_slot_unaware(4);
    let (_, state, items) = contents(&inventory.clear());
    assert_eq!(state, 1);
    assert_eq!(items, vec![None; 46]);
    assert_eq!(inventory.current_slot, 4);
    assert_eq!(
        inventory.set_current_slot(5),
        ClientboundPlayRegistry::SetCarriedItem { slot: 5 }
    );
    assert_eq!(inventory.next_state_id(), 1);
    assert_eq!(inventory.current_state_id(), 2);
}

#[test]
fn menus_are_opened_and_closed() {
    let mut player = viewer();
    let menu: Menu<u8> = Menu::from_rows(chat("Shop"), 2);
    menu.send_to_player(&mut player);
    menu.close(&mut player);
    assert_eq!(
        *player.packets.outbox.queue[0],
        ClientboundPlayRegistry::OpenScreen {
            container_id: 1,
            container_type: MenuType::Generic9x2,
            title: chat("Shop"),
        }
    );
    assert_eq!(contents(&player.packets.outbox.queue[1]), (1, 0, vec![None; 18]));
    assert_eq!(
        *player.packets.outbox.queue[2],
        ClientboundPlayRegistry::ContainerClose { container_id: 1 }
    );
}

#[test]
fn menus_have_one_to_six_rows() {
    let shapes = [
        MenuType::Generic9x1,
        MenuType::Generic9x2,
        MenuType::Generic9x3,
        MenuType::Generic9x4,
        MenuType::Generic9x5,
        MenuType::Generic9x6,
    ];
    for (i, shape) in shapes.iter().enumerate() {
        let mut player = viewer();
        let menu: Menu<u8> = Menu::from_rows(chat(""), i as u8 + 1);
        menu.send_to_player(&mut player);
        match &*player.packets.outbox.queue[0] {
            ClientboundPlayRegistry::OpenScreen { container_type, .. } => {
                assert_eq!(container_type, shape);
            }
            other => panic!("{other:?}"),
        }
        assert_eq!(contents(&player.packets.outbox.queue[1]).2.len(), 9 * (i + 1));
    }
}

#[test]
fn clicks_are_answered_by_what_is_clicked() {
    let mut menu: Menu<u8> = Menu::from_rows(chat("Shop"), 1);
    assert_eq!((menu.slots(), menu.state_lock()), (9, 0));
    menu.set_click_handler(3, 0, 42);
    assert_eq!(menu.get_clicker(0, 3), Some(Clicker::Handler(42)));
    assert_eq!(menu.get_clicker(0, 4), Some(Clicker::RefreshMenu));
    assert_eq!(menu.get_clicker(0, 10), Some(Clicker::RefreshMenuAndInventory));
    menu.clear_click_handler(3, 0);
    assert_eq!(menu.get_clicker(0, 3), Some(Clicker::RefreshMenu));
    menu.incr_state_lock();
    assert_eq!(menu.get_clicker(0, 3), None);
    assert_eq!(menu.get_clicker(0, 9), None);
    assert_eq!(menu.get_clicker(1, 3), Some(Clicker::RefreshMenu));
}

#[test]
fn unhandled_clicks_show_things_again() {
    let menu: Menu<u8> = Menu::from_rows(chat("Shop"), 1);
    let mut player = viewer();
    assert_eq!(menu.answer(Clicker::Handler(9), &mut player), Some(9));
    assert!(player.packets.outbox.queue.is_empty());
    assert_eq!(menu.answer(Clicker::RefreshMenu, &mut player), None);
    assert_eq!(player.packets.outbox.queue.len(), 1);
    assert_eq!(menu.answer(Clicker::RefreshMenuAndInventory, &mut player), None);
    assert_eq!(contents(&player.packets.outbox.queue[1]).0, 1);
    assert_eq!(contents(&player.packets.outbox.queue[2]).0, 0);
}

#[test]
fn items_that_differ_are_replaced() {
    let mut menu: Menu<u8> = Menu::from_rows(chat("Shop"), 1);
    let items = vec![
        MenuItem::full(item(1).unwrap(), 10),
        MenuItem::empty(),
        MenuItem::item_only(item(3).unwrap()),
    ];
    assert!(menu.set_items_unaware(&items));
    assert!(!menu.set_items_unaware(&items));
    let mut player = viewer();
    menu.refresh_contents(&mut player);
    let (_, state, shown) = contents(&player.packets.outbox.queue[0]);
    assert_eq!(state, 1);
    assert_eq!(shown[..4], [Some(1), None, Some(3), None]);
    assert_eq!(menu.get_clicker(1, 0), Some(Clicker::Handler(10)));
    assert!(menu.set_items_unaware(&[MenuItem::item_only(item(2).unwrap())]));
    assert_eq!(menu.get_clicker(1, 0), None);
    assert_eq!(menu.get_clicker(2, 0), Some(Clicker::RefreshMenu));
}

#[test]
fn items_are_set_where_the_slot_holds_an_equal_one() {
    let mut menu: Menu<u8> = Menu::from_rows(chat("Shop"), 1);
    let mut player = viewer();
    assert!(!menu.set_item(&mut player, 2, 0, item(1)));
    assert!(player.packets.outbox.queue.is_empty());
    menu.set_items_unaware(&[MenuItem::item_only(item(1).unwrap())]);
    assert!(menu.set_item(&mut player, 0, 0, item(1)));
    assert_eq!(
        *player.packets.outbox.queue[0],
        ClientboundPlayRegistry::ContainerSetSlot {
            container_id: 1,
            state_id: 2,
            slot: 0,
            item: item(1),
        }
    );
    assert!(!menu.set_item_unaware(0, 0, None));
    assert!(menu.set_item_unaware(1, 0, None));
    assert_eq!(menu.get_clicker(2, 0), None);
}

#[test]
fn buttons_are_told_apart() {
    assert!(ClickWith::Left != ClickWith::Right);
}

#[test]
fn plain_items_have_no_tag() {
    let stack = ItemBuilder::new(7).build();
    assert_eq!((stack.item_id, stack.count), (7, 1));
    assert!(stack.tag.is_none());
}

#[test]
fn names_and_lore_are_displayed() {
    let stack = ItemBuilder::new(7)
        .display_name(chat("Name"))
        .lore(vec![chat("one"), chat("two")])
        .add_lore(chat("three"))
        .set_lore(1, chat("TWO"))
        .add_all_lore(vec![chat("four")])
        .add_nbt("Unbreakable".to_string(), Tag::TagByte(1))
        .add_all_nbt(vec![("x".to_string(), Tag::TagInt(2))])
        .build();
    let line = |text: &str| Tag::string(chat(text).json);
    let expected = Tag::compound_tag(vec![
        (
            "display".to_string(),
            Tag::compound_tag(vec![
                ("Name".to_string(), line("Name")),
                (
                    "Lore".to_string(),
                    Tag::TagList((
                        8,
                        vec![line("one"), line("TWO"), line("three"), line("four")],
                    )),
                ),
            ]),
        ),
        ("Unbreakable".to_string(), Tag::TagByte(1)),
        ("x".to_string(), Tag::TagInt(2)),
    ]);
    assert!(stack.tag == Some(expected));
}

#[test]
fn lore_can_start_with_a_line() {
    let stack = ItemBuilder::new(7).add_lore(chat("one")).build();
    let expected = Tag::compound_tag(vec![(
        "display".to_string(),
        Tag::compound_tag(vec![(
            "Lore".to_string(),
            Tag::TagList((8, vec![Tag::string(chat("one").json)])),
        )]),
    )]);
    assert!(stack.tag == Some(expected));
    let stack = ItemBuilder::new(7).add_all_lore(vec![]).build();
    assert!(stack.tag.is_some());
}

#[test]
fn stacks_stay_of_one_item() {
    let stack = ItemBuilder::new(7)
        .display_name(chat("name"))
        .lore(vec![chat("a"), chat("b")])
        .set_lore(1, chat("c"))
        .add_nbt("x".to_string(), Tag::TagInt(3))
        .build();
    assert_eq!((stack.item_id, stack.count), (7, 1));
    assert!(stack.tag.is_some());
    let silent = ItemBuilder::new(8).add_all_nbt(vec![]).build();
    assert_eq!((silent.item_id, silent.count, silent.tag), (8, 1, None));
}

#[test]
fn empty_lore_is_displayed() {
    assert_eq!(
        ItemBuilder::new(7).lore(vec![]).build().tag,
        Some(Tag::compound_tag(vec![(
            "display".to_string(),
            Tag::compound_tag(vec![("Lore".to_string(), Tag::TagList((8, vec![])))])
        )]))
    );
}
