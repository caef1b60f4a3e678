//! What players carry, and the menus that they click in.
use crate::phase::play::ConnectedPlayer;
use crate::protocol::{
    copy_slot, same_slot, slot_view, slots_equal, slots_view, Chat, ClickType,
    ClientboundPlayRegistry, ContainerSlot, Item, ItemStack, MenuType, PlayPacket,
};
use vstd::prelude::*;

pub mod item;

verus! {

/// How many slots the inventory of a player has.
pub const SLOTS: usize = 46;

/// The slot of the first of the four pieces of armour.
pub const ARMOUR: usize = 5;

/// The slot of the first of the thirty-six items that a player carries.
pub const CARRIED: usize = 9;

/// The slot of the off hand.
pub const OFFHAND: usize = 45;

/// What a player carries.
pub struct PlayerInventory {
    pub crafting_output: Option<ItemStack>,
    pub crafting_slots: [[Option<ItemStack>; 2]; 2],
    pub equipment_slots: [Option<ItemStack>; 4],
    pub inventory_slots: [[Option<ItemStack>; 9]; 4],
    pub offhand_slot: Option<ItemStack>,
    pub current_slot: u8,
    pub state_id: i32,
}

/// What an inventory holds, slot by slot in the numbering of the client: the crafting
/// output, the crafting slots, the armour, the carried items row by row, the off hand.
#[verifier::ext_equal]
pub struct Inventory {
    pub slots: Seq<Option<Item>>,
    pub current_slot: u8,
    pub state_id: i32,
}

impl PlayerInventory {
    /// What the slot with the given number holds.
    pub open spec fn slot(&self, number: int) -> Option<Item> {
        if number == 0 {
            slot_view(self.crafting_output)
        } else if number < ARMOUR {
            slot_view(self.crafting_slots[(number - 1) / 2][(number - 1) % 2])
        } else if number < CARRIED {
            slot_view(self.equipment_slots[number - ARMOUR])
        } else if number < OFFHAND {
            slot_view(self.inventory_slots[(number - CARRIED) / 9][(number - CARRIED) % 9])
        } else {
            slot_view(self.offhand_slot)
        }
    }
}

impl View for PlayerInventory {
    type V = Inventory;

    open spec fn view(&self) -> Inventory {
        Inventory {
            slots: Seq::new(SLOTS as nat, |number: int| self.slot(number)),
            current_slot: self.current_slot,
            state_id: self.state_id,
        }
    }
}

impl Inventory {
    /// The inventory with nothing in it.
    pub open spec fn emptied(&self) -> Inventory {
        Inventory { slots: Seq::new(SLOTS as nat, |number: int| None), ..*self }
    }

    /// The packet that tells of every slot.
    pub open spec fn content(&self) -> PlayPacket {
        PlayPacket::ContainerSetContent {
            container_id: 0,
            state_id: self.state_id,
            items: self.slots,
            carried_item: None,
        }
    }

    /// The inventory after one slot is filled.
    pub open spec fn filled(&self, number: int, item: Option<Item>) -> Inventory {
        Inventory {
            slots: self.slots.update(number, item),
            state_id: (self.state_id + 1) as i32,
            ..*self
        }
    }

    /// The packet that tells of one slot that is filled.
    pub open spec fn filling(&self, number: int, item: Option<Item>) -> PlayPacket {
        PlayPacket::ContainerSetSlot {
            container_id: 0,
            state_id: self.state_id,
            slot: number as u16,
            item,
        }
    }

    /// The inventory after the carried items are filled from the first on.
    pub open spec fn refilled(&self, items: Seq<Option<Item>>) -> Inventory {
        Inventory {
            slots: Seq::new(
                SLOTS as nat,
                |number: int|
                    if CARRIED <= number < CARRIED + items.len() {
                        items[number - CARRIED]
                    } else {
                        self.slots[number]
                    },
            ),
            ..*self
        }
    }
}

fn empty_row() -> (row: [Option<ItemStack>; 9])
    ensures
        forall|x: int| 0 <= x < 9 ==> (#[trigger] row[x]) is None,
{
    [None, None, None, None, None, None, None, None, None]
}

fn push_slot(items: &mut Vec<Option<ItemStack>>, slot: &Option<ItemStack>)
    ensures
        slots_view(final(items)@) == slots_view(old(items)@).push(slot_view(*slot)),
{
    items.push(copy_slot(slot));
    assert(slots_view(items@) =~= slots_view(old(items)@).push(slot_view(*slot)));
}

impl Default for PlayerInventory {
    fn default() -> (inventory: Self)
        ensures
            inventory@.slots == Seq::new(SLOTS as nat, |number: int| None::<Item>),
            inventory.current_slot == 0,
            inventory.state_id == 0,
    {
        PlayerInventory {
            crafting_output: None,
            crafting_slots: [[None, None], [None, None]],
            equipment_slots: [None, None, None, None],
            inventory_slots: [empty_row(), empty_row(), empty_row(), empty_row()],
            offhand_slot: None,
            current_slot: 0,
            state_id: 0,
        }
    }
}

impl PlayerInventory {
    /// Moves on to the next state, and gives the one before.
    pub fn next_state_id(&mut self) -> (before: i32)
        requires
            old(self).state_id < i32::MAX,
        ensures
            before == old(self).state_id,
            *final(self) == (PlayerInventory { state_id: (before + 1) as i32, ..*old(self) }),
    {
        self.state_id = self.state_id + 1;
        self.state_id - 1
    }

    /// The state that the client knows.
    pub fn current_state_id(&self) -> (state_id: i32)
        ensures
            state_id == self.state_id,
    {
        self.state_id
    }

    /// Empties every slot.
    pub fn clear(&mut self) -> (packet: ClientboundPlayRegistry)
        ensures
            final(self)@ == old(self)@.emptied(),
            packet@ == final(self)@.content(),
    {
        self.crafting_output = None;
        self.crafting_slots = [[None, None], [None, None]];
        self.inventory_slots = [empty_row(), empty_row(), empty_row(), empty_row()];
        self.equipment_slots = [None, None, None, None];
        self.offhand_slot = None;
        self.refresh()
    }

    /// The packet that tells of every slot.
    pub fn refresh(&self) -> (packet: ClientboundPlayRegistry)
        ensures
            packet@ == self@.content(),
    {
        let ghost slots = self@.slots;
        let mut items: Vec<Option<ItemStack>> = Vec::new();
        push_slot(&mut items, &self.crafting_output);
        assert(slots_view(items@) =~= slots.take(1));
        let mut y: usize = 0;
        while y < 2
            invariant
                y <= 2,
                slots == self@.slots,
                slots_view(items@) == slots.take(1 + 2 * y),
            decreases 2 - y,
        {
            let mut x: usize = 0;
            while x < 2
                invariant
                    x <= 2,
                    y < 2,
                    slots == self@.slots,
                    slots_view(items@) == slots.take(1 + 2 * y + x),
                decreases 2 - x,
            {
                push_slot(&mut items, &self.crafting_slots[y][x]);
                assert((2 * y + x) / 2 == y && (2 * y + x) % 2 == x as int);
                assert(slots_view(items@) =~= slots.take(1 + 2 * y + x + 1));
                x = x + 1;
            }
            y = y + 1;
        }
        let mut i: usize = 0;
        while i < 4
            invariant
                i <= 4,
                slots == self@.slots,
                slots_view(items@) == slots.take(ARMOUR + i),
            decreases 4 - i,
        {
            push_slot(&mut items, &self.equipment_slots[i]);
            assert(slots_view(items@) =~= slots.take(ARMOUR + i + 1));
            i = i + 1;
        }
        let mut y: usize = 0;
        while y < 4
            invariant
                y <= 4,
                slots == self@.slots,
                slots_view(items@) == slots.take(CARRIED + 9 * y),
            decreases 4 - y,
        {
            let mut x: usize = 0;
            while x < 9
                invariant
                    x <= 9,
                    y < 4,
                    slots == self@.slots,
                    slots_view(items@) == slots.take(CARRIED + 9 * y + x),
                decreases 9 - x,
            {
                push_slot(&mut items, &self.inventory_slots[y][x]);
                assert((9 * y + x) / 9 == y && (9 * y + x) % 9 == x as int);
                assert(slots_view(items@) =~= slots.take(CARRIED + 9 * y + x + 1));
                x = x + 1;
            }
            y = y + 1;
        }
        push_slot(&mut items, &self.offhand_slot);
        assert(slots_view(items@) =~= slots);
        ClientboundPlayRegistry::ContainerSetContent {
            container_id: 0,
            state_id: self.current_state_id(),
            items,
            carried_item: None,
        }
    }

    /// Fills the carried items from the first on.
    pub fn set_all(&mut self, items: &[Option<ItemStack>]) -> (packet: ClientboundPlayRegistry)
        requires
            items@.len() <= 36,
        ensures
            final(self)@ == old(self)@.refilled(slots_view(items@)),
            packet@ == final(self)@.content(),
    {
        let ghost stacks = slots_view(items@);
        let ghost before = self@;
        let total: usize = items.len();
        let mut i: usize = 0;
        assert(self@ =~= before.refilled(stacks.take(0)));
        while i < total
            invariant
                i <= total,
                total == items@.len(),
                total <= 36,
                stacks == slots_view(items@),
                self@ == before.refilled(stacks.take(i as int)),
            decreases total - i,
        {
            let ghost previous = self@;
            self.inventory_slots[i / 9][i % 9] = copy_slot(&items[i]);
            proof {
                assert forall|number: int|
                    0 <= number < SLOTS implies #[trigger] self@.slots[number]
                    == previous.slots.update(CARRIED + i, stacks[i as int])[number] by {
                    if CARRIED <= number < OFFHAND && number != CARRIED + i {
                        assert((number - CARRIED) / 9 != i / 9 || (number - CARRIED) % 9 != i % 9);
                    }
                }
                assert(stacks.take(i + 1)[i as int] == stacks[i as int]);
                assert(self@ =~= before.refilled(stacks.take(i + 1)));
            }
            i = i + 1;
        }
        assert(stacks.take(i as int) =~= stacks);
        self.refresh()
    }

    /// Fills one of the carried items, given by its column and its row.
    pub fn set(&mut self, item: Option<ItemStack>, slot_x: usize, slot_y: usize) -> (packet:
        ClientboundPlayRegistry)
        requires
            slot_x < 9,
            slot_y < 4,
            old(self).state_id < i32::MAX,
        ensures
            final(self)@ == old(self)@.filled(CARRIED + 9 * slot_y + slot_x, slot_view(item)),
            packet@ == old(self)@.filling(CARRIED + 9 * slot_y + slot_x, slot_view(item)),
    {
        self.inventory_slots[slot_y][slot_x] = copy_slot(&item);
        let state_id: i32 = self.next_state_id();
        proof {
            let number = CARRIED + 9 * slot_y + slot_x;
            assert((number - CARRIED) / 9 == slot_y && (number - CARRIED) % 9 == slot_x as int);
            assert(self@ =~= old(self)@.filled(number, slot_view(item)));
        }
        ClientboundPlayRegistry::ContainerSetSlot {
            container_id: 0,
            state_id,
            slot: (slot_y * 9 + slot_x + 9) as u16,
            item,
        }
    }

    fn set_equipment(&mut self, piece: usize, item: Option<ItemStack>) -> (packet:
        ClientboundPlayRegistry)
        requires
            piece < 4,
            old(self).state_id < i32::MAX,
        ensures
            final(self)@ == old(self)@.filled(ARMOUR + piece, slot_view(item)),
            packet@ == old(self)@.filling(ARMOUR + piece, slot_view(item)),
    {
        self.equipment_slots[piece] = copy_slot(&item);
        let state_id: i32 = self.next_state_id();
        assert(self@ =~= old(self)@.filled(ARMOUR + piece, slot_view(item)));
        ClientboundPlayRegistry::ContainerSetSlot {
            container_id: 0,
            state_id,
            slot: (ARMOUR + piece) as u16,
            item,
        }
    }

    /// Fills the slot of the helmet.
    pub fn set_head(&mut self, item: Option<ItemStack>) -> (packet: ClientboundPlayRegistry)
        requires
            old(self).state_id < i32::MAX,
        ensures
            final(self)@ == old(self)@.filled(5, slot_view(item)),
            packet@ == old(self)@.filling(5, slot_view(item)),
    {
        self.set_equipment(0, item)
    }

    /// Fills the slot of the chestplate.
    pub fn set_chest(&mut self, item: Option<ItemStack>) -> (packet: ClientboundPlayRegistry)
        requires
            old(self).state_id < i32::MAX,
        ensures
            final(self)@ == old(self)@.filled(6, slot_view(item)),
            packet@ == old(self)@.filling(6, slot_view(item)),
    {
        self.set_equipment(1, item)
    }

    /// Fills the slot of the leggings.
    pub fn set_legs(&mut self, item: Option<ItemStack>) -> (packet: ClientboundPlayRegistry)
        requires
            old(self).state_id < i32::MAX,
        ensures
            final(self)@ == old(self)@.filled(7, slot_view(item)),
            packet@ == old(self)@.filling(7, slot_view(item)),
    {
        self.set_equipment(2, item)
    }

    /// Fills the slot of the boots.
    pub fn set_feet(&mut self, item: Option<ItemStack>) -> (packet: ClientboundPlayRegistry)
        requires
            old(self).state_id < i32::MAX,
        ensures
            final(self)@ == old(self)@.filled(8, slot_view(item)),
            packet@ == old(self)@.filling(8, slot_view(item)),
    {
        self.set_equipment(3, item)
    }

    /// Fills the off hand.
    pub fn set_offhand(&mut self, item: Option<ItemStack>) -> (packet: ClientboundPlayRegistry)
        requires
            old(self).state_id < i32::MAX,
        ensures
            final(self)@ == old(self)@.filled(45, slot_view(item)),
            packet@ == old(self)@.filling(45, slot_view(item)),
    {
        self.offhand_slot = copy_slot(&item);
        let state_id: i32 = self.next_state_id();
        assert(self@ =~= old(self)@.filled(45, slot_view(item)));
        ClientboundPlayRegistry::ContainerSetSlot { container_id: 0, state_id, slot: 45, item }
    }

    /// Fills the crafting output.
    pub fn set_crafting_output(&mut self, item: Option<ItemStack>) -> (packet:
        ClientboundPlayRegistry)
        requires
            old(self).state_id < i32::MAX,
        ensures
            final(self)@ == old(self)@.filled(0, slot_view(item)),
            packet@ == old(self)@.filling(0, slot_view(item)),
    {
        self.crafting_output = copy_slot(&item);
        let state_id: i32 = self.next_state_id();
        assert(self@ =~= old(self)@.filled(0, slot_view(item)));
        ClientboundPlayRegistry::ContainerSetSlot { container_id: 0, state_id, slot: 0, item }
    }

    /// Fills one of the crafting slots, given by its column and its row.
    pub fn set_crafting_slot(
        &mut self,
        item: Option<ItemStack>,
        slot_x: usize,
        slot_y: usize,
    ) -> (packet: ClientboundPlayRegistry)
        requires
            slot_x < 2,
            slot_y < 2,
            old(self).state_id < i32::MAX,
        ensures
            final(self)@ == old(self)@.filled(1 + 2 * slot_y + slot_x, slot_view(item)),
            packet@ == old(self)@.filling(1 + 2 * slot_y + slot_x, slot_view(item)),
    {
        self.crafting_slots[slot_y][slot_x] = copy_slot(&item);
        let state_id: i32 = self.next_state_id();
        proof {
            let number = 1 + 2 * slot_y + slot_x;
            assert((number - 1) / 2 == slot_y && (number - 1) % 2 == slot_x as int);
            assert(self@ =~= old(self)@.filled(number, slot_view(item)));
        }
        ClientboundPlayRegistry::ContainerSetSlot {
            container_id: 0,
            state_id,
            slot: (slot_y * 2 + slot_x + 1) as u16,
            item,
        }
    }

    /// Selects a slot of the hotbar, without telling the client.
    pub fn set_current_slot_unaware(&mut self, slot: u8)
        ensures
            *final(self) == (PlayerInventory { current_slot: slot, ..*old(self) }),
    {
        self.current_slot = slot;
    }

    /// Selects a slot of the hotbar.
    pub fn set_current_slot(&mut self, slot: u8) -> (packet: ClientboundPlayRegistry)
        ensures
            *final(self) == (PlayerInventory { current_slot: slot, ..*old(self) }),
            packet@ == (PlayPacket::SetCarriedItem { slot }),
    {
        self.set_current_slot_unaware(slot);
        ClientboundPlayRegistry::SetCarriedItem { slot }
    }
}

/// What the packet of one slot tells, the packet of all slots tells too: after a slot is
/// filled, the client that replaces that one slot holds what a client that is told of
/// every slot holds.
pub proof fn filling_agrees_with_content(inventory: Inventory, number: int, item: Option<Item>)
    requires
        inventory.slots.len() == SLOTS,
        0 <= number < SLOTS,
        inventory.state_id < i32::MAX,
    ensures
        match (
            inventory.filling(number, item),
            inventory.content(),
            inventory.filled(number, item).content(),
        ) {
            (
                PlayPacket::ContainerSetSlot { slot, item: told, state_id, .. },
                PlayPacket::ContainerSetContent { items: before, state_id: known, .. },
                PlayPacket::ContainerSetContent { items: after, state_id: next, .. },
            ) => after == before.update(slot as int, told) && state_id == known && next == known
                + 1,
            _ => false,
        },
{
}

/// The button of a click.
#[derive(Clone, Copy, Debug, PartialEq, Eq, Structural)]
pub enum ClickWith {
    Left,
    Right,
}

/// What a click handler is given.
pub struct ClickContext<'a, C, H> {
    pub extra: &'a mut C,
    pub player: &'a mut ConnectedPlayer,
    pub menu_ref: &'a mut Menu<H>,
    pub click_type: ClickType,
    pub click_with: ClickWith,
    pub slot: u16,
    pub changed_slots: Vec<ContainerSlot>,
    pub carried_item: Option<ItemStack>,
}

/// An item of a menu, and the handler of the clicks on it.
pub struct MenuItem<H> {
    pub item: Option<ItemStack>,
    pub action: Option<H>,
}

/// What an item of a menu is.
pub struct MenuEntry<H> {
    pub item: Option<Item>,
    pub action: Option<H>,
}

impl<H> View for MenuItem<H> {
    type V = MenuEntry<H>;

    open spec fn view(&self) -> MenuEntry<H> {
        MenuEntry { item: slot_view(self.item), action: self.action }
    }
}

impl<H: Copy> Clone for MenuItem<H> {
    fn clone(&self) -> (copy: Self)
        ensures
            copy@ == self@,
    {
        MenuItem { item: copy_slot(&self.item), action: self.action }
    }
}

impl<H> MenuItem<H> {
    /// Nothing to see and nothing to click.
    pub fn empty() -> (entry: Self)
        ensures
            entry == (MenuItem { item: None::<ItemStack>, action: None::<H> }),
    {
        Self { item: None, action: None }
    }

    /// An item whose clicks are not handled.
    pub fn item_only(item: ItemStack) -> (entry: Self)
        ensures
            entry == (MenuItem { item: Some(item), action: None::<H> }),
    {
        Self { item: Some(item), action: None }
    }

    /// An item and the handler of its clicks.
    pub fn full(item: ItemStack, action: H) -> (entry: Self)
        ensures
            entry == (MenuItem { item: Some(item), action: Some(action) }),
    {
        Self { item: Some(item), action: Some(action) }
    }
}

/// What answers a click.
#[derive(Debug, PartialEq)]
pub enum Clicker<H> {
    /// The handler of the item.
    Handler(H),
    /// The menu is shown again.
    RefreshMenu,
    /// The menu and the inventory are shown again.
    RefreshMenuAndInventory,
}

/// A container that a client can click in.
pub struct Menu<H> {
    title: Chat,
    rows: u8,
    container_id: u8,
    container_type: MenuType,
    items: Vec<MenuItem<H>>,
    state_lock: i32,
}

/// What a menu is.
#[verifier::ext_equal]
pub struct MenuState<H> {
    pub title: Seq<char>,
    pub rows: u8,
    pub container_id: u8,
    pub container_type: MenuType,
    pub items: Seq<MenuEntry<H>>,
    pub state_lock: i32,
}

impl<H> View for Menu<H> {
    type V = MenuState<H>;

    closed spec fn view(&self) -> MenuState<H> {
        MenuState {
            title: self.title@,
            rows: self.rows,
            container_id: self.container_id,
            container_type: self.container_type,
            items: entries_of(self.items@),
            state_lock: self.state_lock,
        }
    }
}

/// What a list of menu items holds.
pub open spec fn entries_of<H>(items: Seq<MenuItem<H>>) -> Seq<MenuEntry<H>> {
    Seq::new(items.len(), |i: int| items[i]@)
}

/// The container for a number of rows.
pub open spec fn container_for(rows: u8) -> MenuType {
    match rows {
        1 => MenuType::Generic9x1,
        2 => MenuType::Generic9x2,
        3 => MenuType::Generic9x3,
        4 => MenuType::Generic9x4,
        5 => MenuType::Generic9x5,
        _ => MenuType::Generic9x6,
    }
}

impl<H> MenuState<H> {
    /// A menu has one to six rows of nine items.
    pub open spec fn valid(&self) -> bool {
        &&& 1 <= self.rows <= 6
        &&& self.items.len() == 9 * self.rows
        &&& self.container_type == container_for(self.rows)
    }

    /// Whether the row and the column are those of an item.
    pub open spec fn has(&self, slot_x: usize, slot_y: usize) -> bool {
        9 * slot_y + slot_x < self.items.len()
    }

    /// The packet that tells of every item.
    pub open spec fn content(&self) -> PlayPacket {
        PlayPacket::ContainerSetContent {
            container_id: self.container_id,
            state_id: self.state_lock,
            items: Seq::new(self.items.len(), |i: int| self.items[i].item),
            carried_item: None,
        }
    }

    /// What answers a click, where the client that clicked knows the state of the menu.
    pub open spec fn clicker(&self, state_id: i32, slot: u16) -> Option<Clicker<H>> {
        if self.state_lock > state_id {
            None
        } else if slot < self.items.len() {
            match self.items[slot as int].action {
                Some(handler) => Some(Clicker::Handler(handler)),
                None => Some(Clicker::RefreshMenu),
            }
        } else {
            Some(Clicker::RefreshMenuAndInventory)
        }
    }

    /// Whether the given items differ from those at the start of the menu.
    pub open spec fn differs(&self, entries: Seq<MenuEntry<H>>) -> bool {
        exists|i: int|
            0 <= i < entries.len() && !same_slot(self.items[i].item, (#[trigger] entries[i]).item)
    }

    /// The menu after the items that differ are replaced. Where there is one, the state
    /// moves on.
    pub open spec fn replaced(&self, entries: Seq<MenuEntry<H>>) -> MenuState<H> {
        MenuState {
            items: Seq::new(
                self.items.len(),
                |i: int|
                    if i < entries.len() && !same_slot(self.items[i].item, entries[i].item) {
                        entries[i]
                    } else {
                        self.items[i]
                    },
            ),
            state_lock: if self.differs(entries) {
                (self.state_lock + 1) as i32
            } else {
                self.state_lock
            },
            ..*self
        }
    }

    /// A menu as it is made: with a title, and with nothing in its rows.
    pub open spec fn made(title: Seq<char>, rows: u8) -> MenuState<H> {
        MenuState {
            title,
            rows,
            container_id: 1,
            container_type: container_for(rows),
            items: Seq::new(
                (9 * rows) as nat,
                |i: int| MenuEntry { item: None, action: None::<H> },
            ),
            state_lock: 0,
        }
    }

    /// The menu after the handler of the clicks on an item is set or taken away.
    pub open spec fn handled(&self, index: int, action: Option<H>) -> MenuState<H> {
        MenuState {
            items: self.items.update(index, MenuEntry { item: self.items[index].item, action }),
            ..*self
        }
    }

    /// The menu after an item is set. It is set, and the state moves on, where the slot
    /// holds an equal item.
    pub open spec fn item_set(&self, index: int, item: Option<Item>) -> MenuState<H> {
        if same_slot(self.items[index].item, item) {
            MenuState {
                items: self.items.update(
                    index,
                    MenuEntry { item, action: self.items[index].action },
                ),
                state_lock: (self.state_lock + 1) as i32,
                ..*self
            }
        } else {
            *self
        }
    }
}

impl<H: Copy> Menu<H> {
    fn index(&self, slot_x: usize, slot_y: usize) -> (index: usize)
        requires
            self@.has(slot_x, slot_y),
        ensures
            index == 9 * slot_y + slot_x,
            index < self.items@.len(),
    {
        let total: usize = self.items.len();
        assert(self@.items.len() == total);
        slot_y * 9 + slot_x
    }

    /// How many slots the menu has.
    pub fn slots(&self) -> (slots: usize)
        ensures
            slots == self@.items.len(),
    {
        self.items.len()
    }

    /// The state that clicks have to know.
    pub fn state_lock(&self) -> (state_lock: i32)
        ensures
            state_lock == self@.state_lock,
    {
        self.state_lock
    }

    /// Moves on to the next state.
    pub fn incr_state_lock(&mut self)
        requires
            old(self)@.state_lock < i32::MAX,
        ensures
            final(self)@ == (MenuState {
                state_lock: (old(self)@.state_lock + 1) as i32,
                ..old(self)@
            }),
    {
        self.state_lock = self.state_lock + 1;
    }

    /// Opens the menu.
    pub fn send_to_player(&self, player: &mut ConnectedPlayer)
        requires
            self@.valid(),
        ensures
            final(player)@ == old(player)@.written(
                PlayPacket::OpenScreen {
                    container_id: self@.container_id as i32,
                    container_type: self@.container_type,
                    title: self@.title,
                },
            ).written(self@.content()),
    {
        player.write_owned_packet(
            ClientboundPlayRegistry::OpenScreen {
                container_id: self.container_id as i32,
                container_type: self.container_type,
                title: self.title.clone(),
            },
        );
        self.refresh_contents(player);
    }

    /// Tells the client of every item.
    pub fn refresh_contents(&self, player: &mut ConnectedPlayer)
        requires
            self@.valid(),
        ensures
            final(player)@ == old(player)@.written(self@.content()),
    {
        let ghost told = Seq::new(self@.items.len(), |i: int| self@.items[i].item);
        let mut total_items: Vec<Option<ItemStack>> = Vec::new();
        let rows: usize = self.rows as usize;
        let mut y: usize = 0;
        assert(slots_view(total_items@) =~= told.take(0));
        while y < rows
            invariant
                y <= rows,
                rows == self@.rows,
                self@.valid(),
                told == Seq::new(self@.items.len(), |i: int| self@.items[i].item),
                slots_view(total_items@) == told.take(9 * y),
            decreases rows - y,
        {
            let mut x: usize = 0;
            while x < 9
                invariant
                    x <= 9,
                    y < rows,
                    rows == self@.rows,
                    self@.valid(),
                    told == Seq::new(self@.items.len(), |i: int| self@.items[i].item),
                    slots_view(total_items@) == told.take(9 * y + x),
                decreases 9 - x,
            {
                let ghost index = 9 * y + x;
                push_slot(&mut total_items, &self.items[y * 9 + x].item);
                assert(self@.items[index] == self.items@[index]@);
                assert(slots_view(total_items@) =~= told.take(9 * y + x + 1));
                x = x + 1;
            }
            y = y + 1;
        }
        assert(told.take(9 * y) =~= told);
        player.write_owned_packet(
            ClientboundPlayRegistry::ContainerSetContent {
                container_id: self.container_id,
                state_id: self.state_lock,
                items: total_items,
                carried_item: None,
            },
        );
    }

    /// Finds what answers a click. There is no slot just behind the last item.
    pub fn get_clicker(&self, state_id: i32, slot: u16) -> (clicker: Option<Clicker<H>>)
        requires
            self@.valid(),
            self@.state_lock <= state_id ==> slot != self@.items.len(),
        ensures
            clicker == self@.clicker(state_id, slot),
    {
        if self.state_lock > state_id {
            return None;
        }
        if slot <= self.items.len() as u16 {
            assert(self@.items[slot as int] == self.items@[slot as int]@);
            return match self.items[slot as usize].action {
                Some(handler) => Some(Clicker::Handler(handler)),
                None => Some(Clicker::RefreshMenu),
            };
        }
        Some(Clicker::RefreshMenuAndInventory)
    }

    /// Answers a click where no handler does. A handler is handed back.
    pub fn answer(&self, clicker: Clicker<H>, player: &mut ConnectedPlayer) -> (handler: Option<H>)
        requires
            self@.valid(),
        ensures
            handler == (match clicker {
                Clicker::Handler(h) => Some(h),
                _ => None,
            }),
            final(player)@ == (match clicker {
                Clicker::Handler(_) => old(player)@,
                Clicker::RefreshMenu => old(player)@.written(self@.content()),
                Clicker::RefreshMenuAndInventory => old(player)@.written(
                    self@.content(),
                ).written(old(player)@.inventory.content()),
            }),
    {
        match clicker {
            Clicker::Handler(handler) => Some(handler),
            Clicker::RefreshMenu => {
                self.refresh_contents(player);
                None
            },
            Clicker::RefreshMenuAndInventory => {
                self.refresh_contents(player);
                let update_packet: ClientboundPlayRegistry =
                    player.player_inventory_mut().refresh();
                player.write_owned_packet(update_packet);
                None
            },
        }
    }

    /// Closes the menu.
    pub fn close(&self, player: &mut ConnectedPlayer)
        ensures
            final(player)@ == old(player)@.written(
                PlayPacket::ContainerClose { container_id: self@.container_id },
            ),
    {
        player.write_owned_packet(
            ClientboundPlayRegistry::ContainerClose { container_id: self.container_id },
        );
    }

    /// Sets the handler of the clicks on an item, given by its column and its row.
    pub fn set_click_handler(&mut self, slot_x: usize, slot_y: usize, handler: H)
        requires
            old(self)@.has(slot_x, slot_y),
        ensures
            final(self)@ == old(self)@.handled(9 * slot_y + slot_x, Some(handler)),
            ({
                let index = 9 * slot_y + slot_x;
                let entry = MenuEntry {
                    item: old(self)@.items[index].item,
                    action: Some(handler),
                };
                final(self)@ == (MenuState {
                    items: old(self)@.items.update(index, entry),
                    ..old(self)@
                })
            }),
    {
        let index: usize = self.index(slot_x, slot_y);
        self.items[index].action = Some(handler);
        assert(self@.items =~= old(self)@.items.update(
            index as int,
            MenuEntry { item: old(self)@.items[index as int].item, action: Some(handler) },
        ));
    }

    /// Takes the handler of the clicks on an item away.
    pub fn clear_click_handler(&mut self, slot_x: usize, slot_y: usize)
        requires
            old(self)@.has(slot_x, slot_y),
        ensures
            final(self)@ == old(self)@.handled(9 * slot_y + slot_x, None),
            ({
                let index = 9 * slot_y + slot_x;
                let entry = MenuEntry { item: old(self)@.items[index].item, action: None::<H> };
                final(self)@ == (MenuState {
                    items: old(self)@.items.update(index, entry),
                    ..old(self)@
                })
            }),
    {
        let index: usize = self.index(slot_x, slot_y);
        self.items[index].action = None;
        assert(self@.items =~= old(self)@.items.update(
            index as int,
            MenuEntry { item: old(self)@.items[index as int].item, action: None::<H> },
        ));
    }

    /// Replaces the items that differ from the given ones, without telling the client. The
    /// result tells whether there is one.
    pub fn set_items_unaware(&mut self, items: &[MenuItem<H>]) -> (changed: bool)
        requires
            items@.len() <= old(self)@.items.len(),
            old(self)@.differs(entries_of(items@)) ==> old(self)@.state_lock < i32::MAX,
        ensures
            changed == old(self)@.differs(entries_of(items@)),
            final(self)@ == old(self)@.replaced(entries_of(items@)),
    {
        let ghost before = self@;
        let ghost entries = entries_of(items@);
        let total: usize = items.len();
        let mut changed: bool = false;
        let mut i: usize = 0;
        assert(self@ =~= before.replaced(entries.take(0)));
        while i < total
            invariant
                i <= total,
                total == items@.len(),
                total <= before.items.len(),
                self.items@.len() == before.items.len(),
                entries == entries_of(items@),
                before.differs(entries) ==> before.state_lock < i32::MAX,
                changed == before.differs(entries.take(i as int)),
                self@ == before.replaced(entries.take(i as int)),
            decreases total - i,
        {
            let ghost so_far = entries.take(i as int);
            let ghost next = entries.take(i + 1);
            let ghost current = self@;
            proof {
                assert(next =~= so_far.push(entries[i as int]));
                assert(self@.items[i as int] == self.items@[i as int]@);
                assert(before.differs(next) == (before.differs(so_far) || !same_slot(
                    before.items[i as int].item,
                    entries[i as int].item,
                ))) by {
                    if before.differs(so_far) {
                        let k = choose|k: int|
                            0 <= k < so_far.len() && !same_slot(
                                before.items[k].item,
                                (#[trigger] so_far[k]).item,
                            );
                        assert(next[k] == so_far[k]);
                    }
                    if before.differs(next) {
                        let k = choose|k: int|
                            0 <= k < next.len() && !same_slot(
                                before.items[k].item,
                                (#[trigger] next[k]).item,
                            );
                        if k < i {
                            assert(so_far[k] == next[k]);
                        }
                    }
                    assert(next[i as int] == entries[i as int]);
                }
            }
            if !slots_equal(&self.items[i].item, &items[i].item) {
                proof {
                    assert(entries[i as int] == items@[i as int]@);
                    assert(before.differs(entries));
                }
                self.items[i] = items[i].clone();
                if !changed {
                    self.incr_state_lock();
                    changed = true;
                }
                assert(self@.items =~= current.items.update(i as int, entries[i as int]));
            }
            assert(self@ =~= before.replaced(next));
            i = i + 1;
        }
        assert(entries.take(i as int) =~= entries);
        changed
    }

    /// Sets an item, without telling the client. The result tells whether it was set, which
    /// it is where the slot holds an equal item.
    pub fn set_item_unaware(
        &mut self,
        slot_x: usize,
        slot_y: usize,
        item: Option<ItemStack>,
    ) -> (changed: bool)
        requires
            old(self)@.has(slot_x, slot_y),
            same_slot(old(self)@.items[9 * slot_y + slot_x].item, slot_view(item)) ==> old(
                self,
            )@.state_lock < i32::MAX,
        ensures
            changed == same_slot(old(self)@.items[9 * slot_y + slot_x].item, slot_view(item)),
            final(self)@ == old(self)@.item_set(9 * slot_y + slot_x, slot_view(item)),
    {
        let index: usize = self.index(slot_x, slot_y);
        let changed: bool = slots_equal(&self.items[index].item, &item);
        if changed {
            self.incr_state_lock();
            self.items[index].item = item;
            assert(self@ =~= old(self)@.item_set(index as int, slot_view(item)));
        }
        changed
    }

    /// Sets an item, and tells the client where it was set.
    pub fn set_item(
        &mut self,
        to: &mut ConnectedPlayer,
        slot_x: usize,
        slot_y: usize,
        item: Option<ItemStack>,
    ) -> (changed: bool)
        requires
            old(self)@.valid(),
            old(self)@.has(slot_x, slot_y),
            same_slot(old(self)@.items[9 * slot_y + slot_x].item, slot_view(item)) ==> old(
                self,
            )@.state_lock < i32::MAX,
        ensures
            changed == same_slot(old(self)@.items[9 * slot_y + slot_x].item, slot_view(item)),
            final(self)@ == old(self)@.item_set(9 * slot_y + slot_x, slot_view(item)),
            final(to)@ == (if changed {
                old(to)@.written(
                    PlayPacket::ContainerSetSlot {
                        container_id: old(self)@.container_id,
                        state_id: (old(self)@.state_lock + 1) as i32,
                        slot: (9 * slot_y + slot_x) as u16,
                        item: slot_view(item),
                    },
                )
            } else {
                old(to)@
            }),
    {
        let changed: bool = self.set_item_unaware(slot_x, slot_y, copy_slot(&item));
        if !changed {
            return false;
        }
        let index: usize = self.index(slot_x, slot_y);
        assert(self@.items[index as int] == self.items@[index as int]@);
        to.write_owned_packet(
            ClientboundPlayRegistry::ContainerSetSlot {
                container_id: self.container_id,
                state_id: self.state_lock,
                slot: index as u16,
                item: copy_slot(&self.items[index].item),
            },
        );
        true
    }

    /// An empty menu with the given number of rows.
    pub fn from_rows(title: Chat, rows: u8) -> (menu: Self)
        requires
            1 <= rows <= 6,
        ensures
            menu@.valid(),
            menu@ == MenuState::<H>::made(title@, rows),
            menu@ == (MenuState {
                title: title@,
                rows,
                container_id: 1,
                container_type: container_for(rows),
                items: Seq::new(
                    (9 * rows) as nat,
                    |i: int| MenuEntry { item: None, action: None::<H> },
                ),
                state_lock: 0,
            }),
    {
        let container_type: MenuType = match rows {
            1 => MenuType::Generic9x1,
            2 => MenuType::Generic9x2,
            3 => MenuType::Generic9x3,
            4 => MenuType::Generic9x4,
            5 => MenuType::Generic9x5,
            _ => MenuType::Generic9x6,
        };
        let mut items: Vec<MenuItem<H>> = Vec::new();
        let total: usize = 9 * rows as usize;
        let mut i: usize = 0;
        while i < total
            invariant
                i <= total,
                items@.len() == i,
                forall|k: int|
                    0 <= k < i ==> (#[trigger] items@[k])@ == (MenuEntry {
                        item: None,
                        action: None::<H>,
                    }),
            decreases total - i,
        {
            items.push(MenuItem::empty());
            i = i + 1;
        }
        let menu: Menu<H> = Self {
            title,
            container_id: 1,
            container_type,
            items,
            state_lock: 0,
            rows,
        };
        assert(menu@.items =~= Seq::new(
            (9 * rows) as nat,
            |i: int| MenuEntry { item: None, action: None::<H> },
        ));
        menu
    }
}

/// A menu whose items are replaced by given ones shows items equal to them: nothing is
/// left to replace.
pub proof fn replacing_twice_changes_nothing<H>(menu: MenuState<H>, entries: Seq<MenuEntry<H>>)
    requires
        entries.len() <= menu.items.len(),
        forall|i: int|
            0 <= i < entries.len() ==> same_slot(
                (#[trigger] entries[i]).item,
                entries[i].item,
            ),
    ensures
        !menu.replaced(entries).differs(entries),
{
}

/// A click that was made before an item was set is not answered.
pub proof fn stale_clicks_are_ignored<H>(
    menu: MenuState<H>,
    index: int,
    item: Option<Item>,
    state_id: i32,
    slot: u16,
)
    requires
        0 <= index < menu.items.len(),
        same_slot(menu.items[index].item, item),
        menu.state_lock < i32::MAX,
        state_id <= menu.state_lock,
    ensures
        menu.item_set(index, item).clicker(state_id, slot) is None,
{
}

/// The slots of a player are numbered as the client numbers them: the crafting output is 0,
/// the crafting slots follow row by row from 1, then the helmet, the chestplate, the leggings
/// and the boots from 5, the carried items row by row from 9, and the off hand is 45.
pub proof fn slots_are_numbered_as_clients_do(inventory: PlayerInventory)
    ensures
        inventory@.slots.len() == 46,
        inventory@.slots[0] == slot_view(inventory.crafting_output),
        forall|x: int, y: int|
            0 <= x < 2 && 0 <= y < 2 ==> inventory@.slots[1 + 2 * y + x] == slot_view(
                #[trigger] inventory.crafting_slots[y][x],
            ),
        forall|piece: int|
            0 <= piece < 4 ==> inventory@.slots[5 + piece] == slot_view(
                #[trigger] inventory.equipment_slots[piece],
            ),
        forall|x: int, y: int|
            0 <= x < 9 && 0 <= y < 4 ==> inventory@.slots[9 + 9 * y + x] == slot_view(
                #[trigger] inventory.inventory_slots[y][x],
            ),
        inventory@.slots[45] == slot_view(inventory.offhand_slot),
        inventory@.current_slot == inventory.current_slot,
        inventory@.state_id == inventory.state_id,
{
    assert forall|x: int, y: int|
        0 <= x < 2 && 0 <= y < 2 implies inventory@.slots[1 + 2 * y + x] == slot_view(
        #[trigger] inventory.crafting_slots[y][x],
    ) by {
        assert((2 * y + x) / 2 == y && (2 * y + x) % 2 == x);
    }
    assert forall|x: int, y: int|
        0 <= x < 9 && 0 <= y < 4 implies inventory@.slots[9 + 9 * y + x] == slot_view(
        #[trigger] inventory.inventory_slots[y][x],
    ) by {
        assert((9 * y + x) / 9 == y && (9 * y + x) % 9 == x);
    }
}

/// A slot that is filled holds the item, and the others hold what they held. The client is
/// told of that slot of its own inventory under the state that it knows, and the inventory
/// moves on to the next state.
pub proof fn filling_changes_one_slot(
    inventory: Inventory,
    number: int,
    item: Option<Item>,
    other: int,
)
    requires
        inventory.slots.len() == 46,
        0 <= number < 46,
        0 <= other < 46,
        inventory.state_id < 0x7FFF_FFFF,
    ensures
        ({
            let after = inventory.filled(number, item);
            &&& after.slots.len() == 46
            &&& after.slots[number] == item
            &&& other != number ==> after.slots[other] == inventory.slots[other]
            &&& after.current_slot == inventory.current_slot
            &&& after.state_id == inventory.state_id + 1
            &&& inventory.filling(number, item) matches PlayPacket::ContainerSetSlot {
                container_id,
                state_id,
                slot,
                item: told,
            } && {
                &&& container_id == 0
                &&& state_id == inventory.state_id
                &&& slot == number
                &&& told == item
            }
        }),
{
}

/// The packet on a whole inventory tells what each slot holds, of the client's own inventory
/// and in its present state, and that nothing hangs at the cursor.
pub proof fn contents_tell_every_slot(inventory: Inventory)
    ensures
        inventory.content() matches PlayPacket::ContainerSetContent {
            container_id,
            state_id,
            items,
            carried_item,
        } && {
            &&& container_id == 0
            &&& state_id == inventory.state_id
            &&& items.len() == inventory.slots.len()
            &&& forall|i: int| 0 <= i < items.len() ==> #[trigger] items[i] == inventory.slots[i]
            &&& carried_item is None
        },
{
}

/// An emptied inventory holds nothing in any of its slots. Which slot is selected, and the
/// state, stay.
pub proof fn emptied_inventories_hold_nothing(inventory: Inventory)
    ensures
        ({
            let after = inventory.emptied();
            &&& after.slots.len() == 46
            &&& forall|i: int| 0 <= i < 46 ==> (#[trigger] after.slots[i]) is None
            &&& after.current_slot == inventory.current_slot
            &&& after.state_id == inventory.state_id
        }),
{
}

/// Items that are set all at once stand one after the other from the first carried item on;
/// the slots before and behind them, which slot is selected, and the state stay.
pub proof fn refilled_inventories_carry_the_items(
    inventory: Inventory,
    items: Seq<Option<Item>>,
    i: int,
    other: int,
)
    requires
        inventory.slots.len() == 46,
        items.len() <= 36,
        0 <= i < items.len(),
        0 <= other < 9 || 9 + items.len() <= other < 46,
    ensures
        ({
            let after = inventory.refilled(items);
            &&& after.slots.len() == 46
            &&& after.slots[9 + i] == items[i]
            &&& after.slots[other] == inventory.slots[other]
            &&& after.current_slot == inventory.current_slot
            &&& after.state_id == inventory.state_id
        }),
{
}

/// The column count of a container shape is nine; this is its row count.
pub open spec fn rows_of(container: MenuType) -> int {
    match container {
        MenuType::Generic9x1 => 1,
        MenuType::Generic9x2 => 2,
        MenuType::Generic9x3 => 3,
        MenuType::Generic9x4 => 4,
        MenuType::Generic9x5 => 5,
        MenuType::Generic9x6 => 6,
    }
}

/// A menu has the shape of its rows, and nine slots in each.
pub proof fn menus_have_nine_slots_in_a_row<H>(menu: MenuState<H>, slot_x: usize, slot_y: usize)
    ensures
        menu.valid() <==> {
            &&& 1 <= menu.rows <= 6
            &&& rows_of(menu.container_type) == menu.rows
            &&& menu.items.len() == 9 * menu.rows
        },
        1 <= menu.rows <= 6 ==> rows_of(container_for(menu.rows)) == menu.rows,
        menu.has(slot_x, slot_y) <==> 9 * slot_y + slot_x < menu.items.len(),
        menu.valid() && slot_x < 9 ==> (menu.has(slot_x, slot_y) <==> slot_y < menu.rows),
{
}

/// The packet on a menu tells what each slot holds, under the menu's own id and its present
/// state.
pub proof fn menus_tell_every_slot<H>(menu: MenuState<H>)
    ensures
        menu.content() matches PlayPacket::ContainerSetContent {
            container_id,
            state_id,
            items,
            carried_item,
        } && {
            &&& container_id == menu.container_id
            &&& state_id == menu.state_lock
            &&& items.len() == menu.items.len()
            &&& forall|i: int|
                0 <= i < items.len() ==> #[trigger] items[i] == menu.items[i].item
            &&& carried_item is None
        },
{
}

/// A click of an earlier state is ignored. Any other reaches the handler of the slot, or has
/// the menu told again where the slot has none, or the inventory too where the menu has no
/// such slot.
pub proof fn clicks_reach_their_handler<H>(menu: MenuState<H>, state_id: i32, slot: u16)
    ensures
        menu.clicker(state_id, slot) is None <==> state_id < menu.state_lock,
        state_id >= menu.state_lock ==> {
            let clicker = menu.clicker(state_id, slot)->0;
            &&& clicker is RefreshMenuAndInventory <==> slot >= menu.items.len()
            &&& slot < menu.items.len() ==> match menu.items[slot as int].action {
                Some(handler) => clicker == Clicker::Handler(handler),
                None => clicker is RefreshMenu,
            }
        },
{
}

/// Where entries are put into a menu, those whose item differs take the place of what stood
/// there, item and handler. Everything else stays, and the menu moves on by one state exactly
/// where something differs.
pub proof fn replacing_takes_what_differs<H>(
    menu: MenuState<H>,
    entries: Seq<MenuEntry<H>>,
    i: int,
)
    requires
        entries.len() <= menu.items.len(),
        0 <= i < menu.items.len(),
        menu.state_lock < 0x7FFF_FFFF,
    ensures
        ({
            let after = menu.replaced(entries);
            let differs = exists|k: int|
                0 <= k < entries.len() && !same_slot(
                    menu.items[k].item,
                    (#[trigger] entries[k]).item,
                );
            &&& after.items.len() == menu.items.len()
            &&& i < entries.len() && !same_slot(menu.items[i].item, entries[i].item) ==> {
                &&& after.items[i].item == entries[i].item
                &&& after.items[i].action == entries[i].action
            }
            &&& !(i < entries.len() && !same_slot(menu.items[i].item, entries[i].item)) ==> {
                &&& after.items[i].item == menu.items[i].item
                &&& after.items[i].action == menu.items[i].action
            }
            &&& menu.differs(entries) <==> differs
            &&& differs ==> after.state_lock == menu.state_lock + 1
            &&& !differs ==> after.state_lock == menu.state_lock
            &&& after.title == menu.title
            &&& after.rows == menu.rows
            &&& after.container_id == menu.container_id
            &&& after.container_type == menu.container_type
        }),
{
}

/// Setting one item leaves every handler and every other slot. Where the item equals the one
/// in the slot, it is taken and the menu moves on by one state; else nothing changes.
pub proof fn setting_an_item_leaves_the_others<H>(
    menu: MenuState<H>,
    index: int,
    item: Option<Item>,
    other: int,
)
    requires
        0 <= index < menu.items.len(),
        0 <= other < menu.items.len(),
        menu.state_lock < 0x7FFF_FFFF,
    ensures
        ({
            let after = menu.item_set(index, item);
            let same = same_slot(menu.items[index].item, item);
            &&& !same ==> after == menu
            &&& same ==> after.items[index].item == item
            &&& same ==> after.state_lock == menu.state_lock + 1
            &&& after.items.len() == menu.items.len()
            &&& after.items[other].action == menu.items[other].action
            &&& other != index ==> after.items[other].item == menu.items[other].item
            &&& after.title == menu.title
            &&& after.rows == menu.rows
            &&& after.container_id == menu.container_id
            &&& after.container_type == menu.container_type
        }),
{
}

/// A menu holds what each of its entries does, in its place.
pub proof fn entries_are_held_in_order<H>(items: Seq<MenuItem<H>>, i: int)
    requires
        0 <= i < items.len(),
    ensures
        entries_of(items).len() == items.len(),
        entries_of(items)[i].item == slot_view(items[i].item),
        entries_of(items)[i].action == items[i].action,
{
}

/// A click on a slot reaches the handler that was last set for it, and none where it was taken
/// away. Clicks on other slots, what the slots hold and the state stay as they were.
pub proof fn handlers_get_the_clicks<H>(
    menu: MenuState<H>,
    slot: u16,
    handler: H,
    state_id: i32,
    other: u16,
)
    requires
        slot < menu.items.len(),
        state_id >= menu.state_lock,
        other != slot,
    ensures
        ({
            let set = menu.handled(slot as int, Some(handler));
            let cleared = menu.handled(slot as int, None);
            &&& set.clicker(state_id, slot) == Some(Clicker::Handler(handler))
            &&& cleared.clicker(state_id, slot) matches Some(Clicker::RefreshMenu)
            &&& set.clicker(state_id, other) == menu.clicker(state_id, other)
            &&& cleared.clicker(state_id, other) == menu.clicker(state_id, other)
            &&& set.content() == menu.content()
            &&& cleared.content() == menu.content()
            &&& set.title == menu.title && cleared.title == menu.title
            &&& set.rows == menu.rows && cleared.rows == menu.rows
            &&& set.container_type == menu.container_type
            &&& cleared.container_type == menu.container_type
        }),
{
    let set = menu.handled(slot as int, Some(handler));
    let cleared = menu.handled(slot as int, None);
    let told = Seq::new(menu.items.len(), |i: int| menu.items[i].item);
    assert(Seq::new(set.items.len(), |i: int| set.items[i].item) =~= told);
    assert(Seq::new(cleared.items.len(), |i: int| cleared.items[i].item) =~= told);
}

/// A menu is made with its title and its rows, and with nothing in any of its slots. It is the
/// container 1, in its state 0.
pub proof fn menus_are_made_empty<H>(title: Seq<char>, rows: u8)
    requires
        1 <= rows <= 6,
    ensures
        ({
            let menu = MenuState::<H>::made(title, rows);
            &&& menu.valid()
            &&& menu.title == title
            &&& menu.rows == rows
            &&& rows_of(menu.container_type) == rows
            &&& menu.items.len() == 9 * rows
            &&& forall|i: int|
                0 <= i < menu.items.len() ==> (#[trigger] menu.items[i]).item is None
                    && menu.items[i].action is None
            &&& menu.container_id == 1
            &&& menu.state_lock == 0
        }),
{
}

} // verus!
