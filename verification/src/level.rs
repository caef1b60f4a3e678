//! Changes to the blocks of a level.
use std::collections::HashMap;
use std::sync::Arc;

use crate::math::section_coordinate;
use crate::phase::play::{ConnectedPlayer, Player};
use crate::protocol::{
    byte_strings_view, shared_packets_view, BlockPos, BlockUpdate, ClientboundPlayRegistry, Light,
    LightUpdateData, PlayPacket, SectionPos,
};
use vstd::arithmetic::div_mod::lemma_fundamental_div_mod_converse;
use vstd::prelude::*;

verus! {

/// How many sections a light update tells of.
pub const LIGHT_SECTIONS: usize = 2048;

/// No light at all.
pub open spec fn empty_light() -> Light {
    Light {
        trust_edges: false,
        sky_y_mask: Seq::empty(),
        block_y_mask: Seq::empty(),
        empty_sky_y_mask: Seq::empty(),
        empty_block_y_mask: Seq::empty(),
        sky_updates: Seq::new(LIGHT_SECTIONS as nat, |i: int| Seq::empty()),
        block_updates: Seq::new(LIGHT_SECTIONS as nat, |i: int| Seq::empty()),
    }
}

fn empty_updates() -> (updates: Vec<Vec<u8>>)
    ensures
        byte_strings_view(updates@) == Seq::new(
            LIGHT_SECTIONS as nat,
            |i: int| Seq::<u8>::empty(),
        ),
{
    let mut updates: Vec<Vec<u8>> = Vec::new();
    let mut i: usize = 0;
    while i < LIGHT_SECTIONS
        invariant
            i <= LIGHT_SECTIONS,
            updates@.len() == i,
            forall|k: int| 0 <= k < i ==> (#[trigger] updates@[k])@.len() == 0,
        decreases LIGHT_SECTIONS - i,
    {
        updates.push(Vec::new());
        i = i + 1;
    }
    assert(byte_strings_view(updates@) =~~= Seq::new(
        LIGHT_SECTIONS as nat,
        |i: int| Seq::<u8>::empty(),
    ));
    updates
}

/// A light update that tells of no light at all.
pub fn empty_light_data() -> (light: LightUpdateData)
    ensures
        light@ == empty_light(),
{
    LightUpdateData {
        trust_edges: false,
        sky_y_mask: Vec::new(),
        block_y_mask: Vec::new(),
        empty_sky_y_mask: Vec::new(),
        empty_block_y_mask: Vec::new(),
        sky_updates: empty_updates(),
        block_updates: empty_updates(),
    }
}

/// The section that a block lies in.
pub open spec fn section_of(pos: BlockPos) -> SectionPos {
    SectionPos {
        x: (pos.x as int / 16) as i32,
        y: (pos.y as int / 16) as i32,
        z: (pos.z as int / 16) as i32,
    }
}

fn section(pos: &BlockPos) -> (section: SectionPos)
    ensures
        section == section_of(*pos),
{
    SectionPos {
        x: section_coordinate(pos.x),
        y: section_coordinate(pos.y),
        z: section_coordinate(pos.z),
    }
}

/// The key of a point.
#[verifier::opaque]
pub open spec fn point_key(x: i32, y: i32, z: i32) -> u128 {
    ((x + 0x8000_0000) * 0x1_0000_0000_0000_0000 + (y + 0x8000_0000) * 0x1_0000_0000 + (z
        + 0x8000_0000)) as u128
}

/// The point that has the given key.
#[verifier::opaque]
pub open spec fn point_of_key(key: u128) -> (i32, i32, i32) {
    (
        (key as int / 0x1_0000_0000_0000_0000 - 0x8000_0000) as i32,
        (key as int / 0x1_0000_0000 % 0x1_0000_0000 - 0x8000_0000) as i32,
        (key as int % 0x1_0000_0000 - 0x8000_0000) as i32,
    )
}

/// A point is the one that has its key.
proof fn lemma_point_of_key(x: i32, y: i32, z: i32)
    ensures
        point_of_key(point_key(x, y, z)) == (x, y, z),
        point_key(x, y, z) < 0x1_0000_0000_0000_0000_0000_0000,
{
    reveal(point_key);
    reveal(point_of_key);
    let (a, b, c) = (x + 0x8000_0000, y + 0x8000_0000, z + 0x8000_0000);
    let key = a * 0x1_0000_0000_0000_0000 + b * 0x1_0000_0000 + c;
    lemma_fundamental_div_mod_converse(
        key,
        0x1_0000_0000_0000_0000,
        a,
        b * 0x1_0000_0000 + c,
    );
    lemma_fundamental_div_mod_converse(key, 0x1_0000_0000, a * 0x1_0000_0000 + b, c);
    lemma_fundamental_div_mod_converse(a * 0x1_0000_0000 + b, 0x1_0000_0000, a, b);
}

fn key_of_point(x: i32, y: i32, z: i32) -> (key: u128)
    ensures
        key == point_key(x, y, z),
{
    reveal(point_key);
    let a: u128 = (x as i64 + 0x8000_0000) as u128;
    let b: u128 = (y as i64 + 0x8000_0000) as u128;
    let c: u128 = (z as i64 + 0x8000_0000) as u128;
    a * 0x1_0000_0000_0000_0000 + b * 0x1_0000_0000 + c
}

fn point_from_key(key: u128) -> (point: (i32, i32, i32))
    requires
        key < 0x1_0000_0000_0000_0000_0000_0000,
    ensures
        point == point_of_key(key),
{
    reveal(point_of_key);
    let x: i64 = (key / 0x1_0000_0000_0000_0000) as i64 - 0x8000_0000;
    let y: i64 = (key / 0x1_0000_0000 % 0x1_0000_0000) as i64 - 0x8000_0000;
    let z: i64 = (key % 0x1_0000_0000) as i64 - 0x8000_0000;
    (x as i32, y as i32, z as i32)
}

/// The keys of a map, in whatever order it walks them.
fn keys_of<V>(map: &HashMap<u128, V>) -> (order: Vec<u128>)
    ensures
        lists(order@, map@.dom()),
{
    broadcast use vstd::std_specs::hash::group_hash_axioms;

    let mut order: Vec<u128> = Vec::new();
    for key in it: map.keys()
        invariant
            it.seq().unref().to_set() == map@.dom(),
            it.seq().no_duplicates(),
            order@ == it.seq().unref().take(it.index() as int),
            it.index() == it.seq().len() ==> order@ == it.seq().unref(),
    {
        order.push(*key);
        assert(order@ =~= it.seq().unref().take(it.index() + 1));
        assert(it.index() + 1 == it.seq().len() ==> order@ =~= it.seq().unref());
    }
    order
}

/// The change of the block that has the given key.
spec fn change_at(blocks: Map<u128, i32>, key: u128) -> BlockUpdate {
    let (x, y, z) = point_of_key(key);
    BlockUpdate { block_id: blocks[key], block_pos: BlockPos { x, y, z } }
}

fn block_updates(blocks: &HashMap<u128, i32>, keys: &Vec<u128>) -> (updates: Vec<BlockUpdate>)
    requires
        forall|i: int|
            0 <= i < keys@.len() ==> blocks@.dom().contains(#[trigger] keys@[i]) && keys@[i]
                < 0x1_0000_0000_0000_0000_0000_0000,
    ensures
        updates@ == Seq::new(keys@.len(), |i: int| change_at(blocks@, keys@[i])),
{
    broadcast use vstd::std_specs::hash::group_hash_axioms;

    let mut updates: Vec<BlockUpdate> = Vec::new();
    let mut i: usize = 0;
    while i < keys.len()
        invariant
            i <= keys.len(),
            updates@ == Seq::new(i as nat, |k: int| change_at(blocks@, keys@[k])),
            forall|k: int|
                0 <= k < keys@.len() ==> blocks@.dom().contains(#[trigger] keys@[k]) && keys@[k]
                    < 0x1_0000_0000_0000_0000_0000_0000,
        decreases keys.len() - i,
    {
        let key: u128 = keys[i];
        if let Some(block_id) = blocks.get(&key) {
            let (x, y, z) = point_from_key(key);
            updates.push(BlockUpdate { block_id: *block_id, block_pos: BlockPos { x, y, z } });
        }
        i = i + 1;
        assert(updates@ =~= Seq::new(i as nat, |k: int| change_at(blocks@, keys@[k])));
    }
    updates
}

/// Blocks that are to change, by the keys of their sections and then by their own.
pub struct LevelMediator {
    updates: HashMap<u128, HashMap<u128, i32>>,
}

/// The key of a section.
pub open spec fn section_key(section: SectionPos) -> u128 {
    point_key(section.x, section.y, section.z)
}

/// The key of a block.
pub open spec fn block_key(pos: BlockPos) -> u128 {
    point_key(pos.x, pos.y, pos.z)
}

impl View for LevelMediator {
    type V = Map<BlockPos, i32>;

    /// The blocks that are to change, and what each becomes.
    closed spec fn view(&self) -> Map<BlockPos, i32> {
        Map::new(
            |pos: BlockPos| self.changes(pos),
            |pos: BlockPos| self.updates@[section_key(section_of(pos))]@[block_key(pos)],
        )
    }
}

impl LevelMediator {
    spec fn changes(&self, pos: BlockPos) -> bool {
        let key = section_key(section_of(pos));
        self.updates@.dom().contains(key) && self.updates@[key]@.dom().contains(block_key(pos))
    }

    spec fn fits(section: u128, blocks: Map<u128, i32>) -> bool {
        &&& exists|pos: BlockPos| blocks.dom().contains(#[trigger] block_key(pos))
        &&& forall|block: u128| #[trigger]
            blocks.dom().contains(block) ==> exists|pos: BlockPos|
                block == #[trigger] block_key(pos) && section_key(section_of(pos)) == section
    }

    /// Every section has a block that is to change, and holds only blocks of its own.
    pub closed spec fn valid(&self) -> bool {
        forall|section: u128| #[trigger]
            self.updates@.dom().contains(section) ==> Self::fits(section, self.updates@[section]@)
    }
}

impl Default for LevelMediator {
    fn default() -> (mediator: Self)
        ensures
            mediator.valid(),
            mediator@ == Map::<BlockPos, i32>::empty(),
    {
        broadcast use vstd::std_specs::hash::group_hash_axioms;

        let mediator: LevelMediator = LevelMediator { updates: HashMap::new() };
        assert(mediator@ =~= Map::<BlockPos, i32>::empty());
        mediator
    }
}

impl LevelMediator {
    /// Changes a block.
    pub fn update(&mut self, pos: BlockPos, block_id: i32)
        requires
            old(self).valid(),
        ensures
            final(self).valid(),
            final(self)@ == old(self)@.insert(pos, block_id),
    {
        broadcast use vstd::std_specs::hash::group_hash_axioms;

        let section_pos: SectionPos = section(&pos);
        let key: u128 = key_of_point(section_pos.x, section_pos.y, section_pos.z);
        let mut section_updates: HashMap<u128, i32> = match self.updates.remove(&key) {
            Some(updates) => updates,
            None => HashMap::new(),
        };
        let ghost known = section_updates@;
        let block: u128 = key_of_point(pos.x, pos.y, pos.z);
        let _ = section_updates.insert(block, block_id);
        let ghost blocks = section_updates@;
        let _ = self.updates.insert(key, section_updates);
        proof {
            assert(blocks == known.insert(block, block_id));
            assert(blocks.dom().contains(block_key(pos)));
            assert(Self::fits(key, blocks)) by {
                assert forall|b: u128| #[trigger] blocks.dom().contains(b) implies exists|
                    p: BlockPos,
                | b == #[trigger] block_key(p) && section_key(section_of(p)) == key by {
                    if b == block {
                        assert(b == block_key(pos) && section_key(section_of(pos)) == key);
                    } else {
                        assert(old(self).updates@.dom().contains(key));
                        assert(old(self).updates@[key]@.dom().contains(b));
                    }
                }
            }
            assert forall|s: u128| #[trigger] self.updates@.dom().contains(s) implies Self::fits(
                s,
                self.updates@[s]@,
            ) by {
                if s != key {
                    assert(old(self).updates@.dom().contains(s));
                }
            }
            assert forall|p: BlockPos|
                self.changes(p) <==> #[trigger] old(self)@.insert(pos, block_id).dom().contains(
                    p,
                ) by {
                lemma_point_of_key(p.x, p.y, p.z);
                lemma_point_of_key(pos.x, pos.y, pos.z);
            }
            assert forall|p: BlockPos| self.changes(p) implies self@[p] == #[trigger] old(
                self,
            )@.insert(pos, block_id)[p] by {
                lemma_point_of_key(p.x, p.y, p.z);
                lemma_point_of_key(pos.x, pos.y, pos.z);
            }
            assert(self@ =~= old(self)@.insert(pos, block_id));
        }
    }

    /// Whether the client knows the chunk of every block that is to change.
    pub fn validate_positions(&self, player: &ConnectedPlayer) -> (known: bool)
        requires
            self.valid(),
        ensures
            known == all_known(self@.dom(), player@),
    {
        let sections: Vec<u128> = self.sections();
        let mut i: usize = 0;
        while i < sections.len()
            invariant
                i <= sections.len(),
                self.valid(),
                lists(sections@, self.updates@.dom()),
                forall|k: int|
                    0 <= k < i ==> player@.knows(
                        point_of_key(#[trigger] sections@[k]).0,
                        point_of_key(sections@[k]).2,
                    ),
            decreases sections.len() - i,
        {
            let ghost key = sections@[i as int];
            proof {
                assert(sections@.contains(key));
                self.lemma_section(key);
            }
            let (x, _, z) = point_from_key(sections[i]);
            if !player.knows_chunk(x, z) {
                proof {
                    let pos = self.witness(key);
                    assert(self@.dom().contains(pos));
                }
                return false;
            }
            i = i + 1;
        }
        proof {
            assert forall|pos: BlockPos| #[trigger] self@.dom().contains(pos) implies player@.knows(
                section_of(pos).x,
                section_of(pos).z,
            ) by {
                let key = section_key(section_of(pos));
                assert(sections@.contains(key));
                let k = choose|k: int| 0 <= k < sections@.len() && sections@[k] == key;
                let s = section_of(pos);
                lemma_point_of_key(s.x, s.y, s.z);
            }
        }
        true
    }

    /// A block that is to change in a section.
    spec fn witness(&self, section: u128) -> BlockPos {
        choose|pos: BlockPos|
            self.updates@[section]@.dom().contains(#[trigger] block_key(pos)) && section_key(
                section_of(pos),
            ) == section
    }

    proof fn lemma_section(&self, key: u128)
        requires
            self.valid(),
            self.updates@.dom().contains(key),
        ensures
            key < 0x1_0000_0000_0000_0000_0000_0000,
            self@.dom().contains(self.witness(key)),
            section_key(section_of(self.witness(key))) == key,
            point_of_key(key) == (
                section_of(self.witness(key)).x,
                section_of(self.witness(key)).y,
                section_of(self.witness(key)).z,
            ),
    {
        let blocks = self.updates@[key]@;
        assert(Self::fits(key, blocks));
        let p = choose|pos: BlockPos| blocks.dom().contains(#[trigger] block_key(pos));
        let q = choose|pos: BlockPos|
            block_key(p) == #[trigger] block_key(pos) && section_key(section_of(pos)) == key;
        assert(blocks.dom().contains(block_key(q)));
        let s = section_of(self.witness(key));
        lemma_point_of_key(s.x, s.y, s.z);
    }

    proof fn lemma_block(&self, key: u128, block: u128)
        requires
            self.valid(),
            self.updates@.dom().contains(key),
            self.updates@[key]@.dom().contains(block),
        ensures
            block < 0x1_0000_0000_0000_0000_0000_0000,
            ({
                let update = change_at(self.updates@[key]@, block);
                let (x, y, z) = point_of_key(key);
                &&& block_key(update.block_pos) == block
                &&& section_of(update.block_pos) == (SectionPos { x, y, z })
                &&& self@.dom().contains(update.block_pos)
                &&& self@[update.block_pos] == update.block_id
            }),
    {
        let blocks = self.updates@[key]@;
        assert(Self::fits(key, blocks));
        let pos = choose|pos: BlockPos|
            block == #[trigger] block_key(pos) && section_key(section_of(pos)) == key;
        lemma_point_of_key(pos.x, pos.y, pos.z);
        let s = section_of(pos);
        lemma_point_of_key(s.x, s.y, s.z);
    }

    proof fn lemma_blocks(&self, key: u128, block_keys: Seq<u128>)
        requires
            self.valid(),
            self.updates@.dom().contains(key),
            lists(block_keys, self.updates@[key]@.dom()),
        ensures
            forall|i: int|
                0 <= i < block_keys.len() ==> self.updates@[key]@.dom().contains(
                    #[trigger] block_keys[i],
                ) && block_keys[i] < 0x1_0000_0000_0000_0000_0000_0000,
            ({
                let (x, y, z) = point_of_key(key);
                tells_of(
                    PlayPacket::SectionBlocksUpdate {
                        section_pos: SectionPos { x, y, z },
                        suppress_light_update: false,
                        update_info: Seq::new(
                            block_keys.len(),
                            |i: int| change_at(self.updates@[key]@, block_keys[i]),
                        ),
                    },
                    SectionPos { x, y, z },
                    self@,
                )
            }),
    {
        let blocks = self.updates@[key]@;
        let (x, y, z) = point_of_key(key);
        let section = SectionPos { x, y, z };
        let told = Seq::new(block_keys.len(), |i: int| change_at(blocks, block_keys[i]));
        assert(Self::fits(key, blocks));
        self.lemma_section(key);
        assert forall|i: int| 0 <= i < block_keys.len() implies {
            &&& blocks.dom().contains(#[trigger] block_keys[i])
            &&& block_keys[i] < 0x1_0000_0000_0000_0000_0000_0000
            &&& block_key(told[i].block_pos) == block_keys[i]
            &&& section_of(told[i].block_pos) == section
            &&& self@.dom().contains(told[i].block_pos)
            &&& self@[told[i].block_pos] == told[i].block_id
        } by {
            assert(block_keys.contains(block_keys[i]));
            self.lemma_block(key, block_keys[i]);
        }
        assert forall|i: int, j: int| 0 <= i < j < told.len() implies (
        #[trigger] told[i]).block_pos != (#[trigger] told[j]).block_pos by {
            assert(block_keys[i] != block_keys[j]);
        }
        assert forall|pos: BlockPos| #[trigger]
            self@.dom().contains(pos) && section_of(pos) == section implies told.contains(
            BlockUpdate { block_id: self@[pos], block_pos: pos },
        ) by {
            let block = block_key(pos);
            assert(block_keys.contains(block));
            let i = choose|i: int| 0 <= i < block_keys.len() && block_keys[i] == block;
            lemma_point_of_key(pos.x, pos.y, pos.z);
            assert(told[i] == (BlockUpdate { block_id: self@[pos], block_pos: pos }));
        }
    }

    /// The keys of the sections, in whatever order the map walks them.
    fn sections(&self) -> (sections: Vec<u128>)
        ensures
            lists(sections@, self.updates@.dom()),
    {
        keys_of(&self.updates)
    }

    /// The packets that tell of every change: one for each section that has a changed
    /// block, in no particular order.
    pub fn into_updates(self) -> (packets: Vec<Arc<ClientboundPlayRegistry>>)
        requires
            self.valid(),
        ensures
            exists|sections: Seq<SectionPos>| #[trigger]
                tell_of(shared_packets_view(packets@), sections, self@),
    {
        broadcast use vstd::std_specs::hash::group_hash_axioms;

        let ghost changes = self@;
        let keys: Vec<u128> = self.sections();
        let mut packets: Vec<Arc<ClientboundPlayRegistry>> = Vec::new();
        let ghost mut sections: Seq<SectionPos> = Seq::empty();
        let mut i: usize = 0;
        while i < keys.len()
            invariant
                i <= keys.len(),
                self.valid(),
                changes == self@,
                lists(keys@, self.updates@.dom()),
                packets@.len() == i,
                sections.len() == i,
                forall|k: int|
                    0 <= k < i ==> section_key(#[trigger] sections[k]) == keys@[k] && tells_of(
                        (*packets@[k])@,
                        sections[k],
                        changes,
                    ),
            decreases keys.len() - i,
        {
            let key: u128 = keys[i];
            proof {
                assert(keys@.contains(key));
                self.lemma_section(key);
            }
            let (x, y, z) = point_from_key(key);
            let section_pos: SectionPos = SectionPos { x, y, z };
            if let Some(blocks) = self.updates.get(&key) {
                let block_keys: Vec<u128> = keys_of(blocks);
                proof {
                    self.lemma_blocks(key, block_keys@);
                }
                let update_info: Vec<BlockUpdate> = block_updates(blocks, &block_keys);
                let ghost told = update_info@;
                let packet: ClientboundPlayRegistry = ClientboundPlayRegistry::SectionBlocksUpdate {
                    section_pos,
                    suppress_light_update: false,
                    update_info,
                };
                assert(packet@ == (PlayPacket::SectionBlocksUpdate {
                    section_pos,
                    suppress_light_update: false,
                    update_info: told,
                }));
                packets.push(Arc::new(packet));
                proof {
                    sections = sections.push(section_pos);
                }
            }
            i = i + 1;
        }
        proof {
            let told = shared_packets_view(packets@);
            assert forall|j: int, k: int| 0 <= j < sections.len() && 0 <= k < sections.len() && j
                != k implies sections[j] != sections[k] by {
                assert(keys@[j] != keys@[k]);
            }
            assert forall|pos: BlockPos| #[trigger]
                changes.dom().contains(pos) implies sections.contains(section_of(pos)) by {
                let key = section_key(section_of(pos));
                assert(keys@.contains(key));
                let k = choose|k: int| 0 <= k < keys@.len() && keys@[k] == key;
                let (s, t) = (section_of(pos), sections[k]);
                lemma_point_of_key(s.x, s.y, s.z);
                lemma_point_of_key(t.x, t.y, t.z);
            }
            assert forall|k: int| 0 <= k < sections.len() implies tells_of(
                #[trigger] told[k],
                sections[k],
                changes,
            ) && exists|pos: BlockPos| #[trigger]
                changes.dom().contains(pos) && section_of(pos) == sections[k] by {
                let key = keys@[k];
                assert(keys@.contains(key));
                self.lemma_section(key);
                let (s, t) = (section_of(self.witness(key)), sections[k]);
                lemma_point_of_key(s.x, s.y, s.z);
                lemma_point_of_key(t.x, t.y, t.z);
                assert(changes.dom().contains(self.witness(key)));
            }
            assert(tell_of(told, sections, changes));
        }
        packets
    }
}

/// Whether a client knows the chunks of all the given blocks.
pub open spec fn all_known(blocks: Set<BlockPos>, player: Player) -> bool {
    forall|pos: BlockPos| #[trigger]
        blocks.contains(pos) ==> player.knows(section_of(pos).x, section_of(pos).z)
}

/// Whether a list holds each member of a set once.
pub open spec fn lists(order: Seq<u128>, members: Set<u128>) -> bool {
    order.no_duplicates() && order.to_set() == members
}

/// Whether a packet tells of every change in a section, and of each once.
pub open spec fn tells_of(
    packet: PlayPacket,
    section: SectionPos,
    changes: Map<BlockPos, i32>,
) -> bool {
    match packet {
        PlayPacket::SectionBlocksUpdate { section_pos, suppress_light_update, update_info } => {
            &&& section_pos == section
            &&& !suppress_light_update
            &&& forall|i: int, j: int|
                0 <= i < j < update_info.len() ==> (#[trigger] update_info[i]).block_pos != (
                #[trigger] update_info[j]).block_pos
            &&& forall|i: int|
                0 <= i < update_info.len() ==> {
                    let update = #[trigger] update_info[i];
                    &&& section_of(update.block_pos) == section
                    &&& changes.dom().contains(update.block_pos)
                    &&& changes[update.block_pos] == update.block_id
                }
            &&& forall|pos: BlockPos| #[trigger]
                changes.dom().contains(pos) && section_of(pos) == section ==> update_info.contains(
                    BlockUpdate { block_id: changes[pos], block_pos: pos },
                )
        },
        _ => false,
    }
}

/// Whether packets tell of all changes, section by section.
pub open spec fn tell_of(
    packets: Seq<PlayPacket>,
    sections: Seq<SectionPos>,
    changes: Map<BlockPos, i32>,
) -> bool {
    &&& packets.len() == sections.len()
    &&& sections.no_duplicates()
    &&& forall|pos: BlockPos| #[trigger]
        changes.dom().contains(pos) ==> sections.contains(section_of(pos))
    &&& forall|i: int|
        0 <= i < sections.len() ==> {
            &&& tells_of(#[trigger] packets[i], sections[i], changes)
            &&& exists|pos: BlockPos| #[trigger]
                changes.dom().contains(pos) && section_of(pos) == sections[i]
        }
}

/// Of two changes of one block, the later one is told; a change of one block leaves those of
/// others as they are.
pub proof fn later_changes_win(
    changes: Map<BlockPos, i32>,
    pos: BlockPos,
    other: BlockPos,
    earlier: i32,
    later: i32,
)
    ensures
        changes.insert(pos, earlier).insert(pos, later) == changes.insert(pos, later),
        other != pos && changes.dom().contains(other) ==> changes.insert(pos, later)[other]
            == changes[other],
{
    assert(changes.insert(pos, earlier).insert(pos, later) =~= changes.insert(pos, later));
}

/// A change is told in exactly one packet, and there just once.
pub proof fn changes_are_told_once(
    packets: Seq<PlayPacket>,
    sections: Seq<SectionPos>,
    changes: Map<BlockPos, i32>,
    pos: BlockPos,
    i: int,
    j: int,
)
    requires
        tell_of(packets, sections, changes),
        changes.dom().contains(pos),
        0 <= i < packets.len(),
        0 <= j < packets.len(),
        mentions(packets[i], pos),
        mentions(packets[j], pos),
    ensures
        i == j,
{
    assert(tells_of(packets[i], sections[i], changes));
    assert(tells_of(packets[j], sections[j], changes));
}

/// Whether a packet tells of a block.
pub open spec fn mentions(packet: PlayPacket, pos: BlockPos) -> bool {
    match packet {
        PlayPacket::SectionBlocksUpdate { update_info, .. } => exists|k: int|
            0 <= k < update_info.len() && (#[trigger] update_info[k]).block_pos == pos,
        _ => false,
    }
}

/// Whether a block lies in the cube of sixteen blocks along each edge at a section's position.
pub open spec fn lies_in(pos: BlockPos, section: SectionPos) -> bool {
    &&& 16 * section.x <= pos.x < 16 * section.x + 16
    &&& 16 * section.y <= pos.y < 16 * section.y + 16
    &&& 16 * section.z <= pos.z < 16 * section.z + 16
}

/// A block lies in its section, and in no other.
pub proof fn blocks_lie_in_their_section(pos: BlockPos, section: SectionPos)
    ensures
        lies_in(pos, section) <==> section == section_of(pos),
{
}

/// What is told in a packet of a section is told of blocks that lie in it: along each axis
/// they are among the sixteen blocks from sixteen times the section's coordinate on. There is
/// at least one, each becomes what it was changed to, and light is told of anew.
pub proof fn told_blocks_lie_in_their_section(
    packets: Seq<PlayPacket>,
    sections: Seq<SectionPos>,
    changes: Map<BlockPos, i32>,
    i: int,
)
    requires
        tell_of(packets, sections, changes),
        0 <= i < packets.len(),
    ensures
        packets[i] matches PlayPacket::SectionBlocksUpdate {
            section_pos,
            suppress_light_update,
            update_info,
        } && {
            &&& !suppress_light_update
            &&& update_info.len() > 0
            &&& forall|k: int|
                0 <= k < update_info.len() ==> {
                    let update = #[trigger] update_info[k];
                    &&& 16 * section_pos.x <= update.block_pos.x < 16 * section_pos.x + 16
                    &&& 16 * section_pos.y <= update.block_pos.y < 16 * section_pos.y + 16
                    &&& 16 * section_pos.z <= update.block_pos.z < 16 * section_pos.z + 16
                    &&& changes.contains_key(update.block_pos)
                    &&& changes[update.block_pos] == update.block_id
                }
            &&& forall|k: int, n: int|
                0 <= k < n < update_info.len() ==> (#[trigger] update_info[k]).block_pos != (
                #[trigger] update_info[n]).block_pos
        },
{
    assert(tells_of(packets[i], sections[i], changes));
    let pos = choose|pos: BlockPos| #[trigger]
        changes.dom().contains(pos) && section_of(pos) == sections[i];
    assert(changes.dom().contains(pos));
}

/// Every change is told: some packet names the section that the block lies in, and gives what
/// the block becomes.
pub proof fn every_change_is_told(
    packets: Seq<PlayPacket>,
    sections: Seq<SectionPos>,
    changes: Map<BlockPos, i32>,
    pos: BlockPos,
)
    requires
        tell_of(packets, sections, changes),
        changes.contains_key(pos),
    ensures
        exists|i: int|
            0 <= i < packets.len() && (#[trigger] packets[i] matches PlayPacket::SectionBlocksUpdate {
                section_pos,
                update_info,
                ..
            } && lies_in(pos, section_pos) && update_info.contains(
                BlockUpdate { block_id: changes[pos], block_pos: pos },
            )),
{
    assert(changes.dom().contains(pos));
    let section = section_of(pos);
    assert(sections.contains(section));
    let i = choose|i: int| 0 <= i < sections.len() && sections[i] == section;
    assert(tells_of(packets[i], sections[i], changes));
    blocks_lie_in_their_section(pos, section);
}

/// No section has two packets.
pub proof fn sections_are_told_once(
    packets: Seq<PlayPacket>,
    sections: Seq<SectionPos>,
    changes: Map<BlockPos, i32>,
    i: int,
    j: int,
)
    requires
        tell_of(packets, sections, changes),
        0 <= i < j < packets.len(),
    ensures
        packets[i]->SectionBlocksUpdate_section_pos != packets[j]->SectionBlocksUpdate_section_pos,
{
    assert(tells_of(packets[i], sections[i], changes));
    assert(tells_of(packets[j], sections[j], changes));
}

/// Whether a block is among the sixteen of a chunk along `x` and along `z`.
pub open spec fn lies_in_chunk(pos: BlockPos, chunk_x: i32, chunk_z: i32) -> bool {
    &&& 16 * chunk_x <= pos.x < 16 * chunk_x + 16
    &&& 16 * chunk_z <= pos.z < 16 * chunk_z + 16
}

/// Changes are valid for a client exactly where it knows the chunk that each block lies in.
pub proof fn valid_changes_are_in_known_chunks(blocks: Set<BlockPos>, player: Player)
    ensures
        all_known(blocks, player) <==> forall|pos: BlockPos, chunk_x: i32, chunk_z: i32|
            blocks.contains(pos) && #[trigger] lies_in_chunk(pos, chunk_x, chunk_z)
                ==> player.knows(chunk_x, chunk_z),
        forall|pos: BlockPos| #[trigger]
            blocks.contains(pos) ==> exists|chunk_x: i32, chunk_z: i32| #[trigger]
                lies_in_chunk(pos, chunk_x, chunk_z),
{
    assert forall|pos: BlockPos| #[trigger] blocks.contains(pos) implies exists|
        chunk_x: i32,
        chunk_z: i32,
    | #[trigger] lies_in_chunk(pos, chunk_x, chunk_z) by {
        assert(lies_in_chunk(pos, section_of(pos).x, section_of(pos).z));
    }
    if all_known(blocks, player) {
        assert forall|pos: BlockPos, chunk_x: i32, chunk_z: i32|
            blocks.contains(pos) && #[trigger] lies_in_chunk(
                pos,
                chunk_x,
                chunk_z,
            ) implies player.knows(chunk_x, chunk_z) by {
            assert(section_of(pos).x == chunk_x && section_of(pos).z == chunk_z);
        }
    } else {
        let pos = choose|pos: BlockPos| #[trigger]
            blocks.contains(pos) && !player.knows(section_of(pos).x, section_of(pos).z);
        assert(lies_in_chunk(pos, section_of(pos).x, section_of(pos).z));
    }
}

/// A chunk is sent with no light: its masks are empty, and of each of 2048 sections it tells
/// nothing, for the sky and for blocks.
pub proof fn chunks_are_dark()
    ensures
        ({
            let light = empty_light();
            &&& !light.trust_edges
            &&& light.sky_y_mask.len() == 0
            &&& light.block_y_mask.len() == 0
            &&& light.empty_sky_y_mask.len() == 0
            &&& light.empty_block_y_mask.len() == 0
            &&& light.sky_updates.len() == 2048
            &&& light.block_updates.len() == 2048
            &&& forall|i: int| 0 <= i < 2048 ==> (#[trigger] light.sky_updates[i]).len() == 0
            &&& forall|i: int| 0 <= i < 2048 ==> (#[trigger] light.block_updates[i]).len() == 0
        }),
{
}

/// Blocks are kept apart, and so are sections.
pub proof fn points_are_kept_apart(a: (i32, i32, i32), b: (i32, i32, i32))
    ensures
        point_key(a.0, a.1, a.2) == point_key(b.0, b.1, b.2) <==> a == b,
        point_of_key(point_key(a.0, a.1, a.2)) == a,
{
    lemma_point_of_key(a.0, a.1, a.2);
    lemma_point_of_key(b.0, b.1, b.2);
}

} // verus!
