//! What clients can rely on when they are told of entities.
use crate::client::{recipients_of, Broadcast, Condition, Recipient, Sent};
use crate::entity::tracking::{
    announcement, announcements, broadcasts_in_tick, polled_all, sent_in_tick, ticked, Audience, CreateEntity,
    EntityData, EntityPositionTracker, TrackingState,
};
use crate::math::displacement;
use crate::protocol::{PacketSend, PlayPacket, SimpleLocation};
use vstd::prelude::*;

verus! {

/// An entity that stands still, on a tick between those on which its place is told anyway,
/// is not spoken of.
pub proof fn still_entities_are_silent<C: CreateEntity>(tracker: EntityPositionTracker<C>, data: EntityData)
    requires
        tracker.tick % 20 != 0,
        !tracker.shifted(data),
        !tracker.turned(data),
        !tracker.head_turned(data),
        !tracker.far(data.entity_location.inner_loc),
        tracker.was_on_ground == data.entity_on_ground,
    ensures
        tracker.movement(data) == Seq::<PlayPacket>::empty(),
{
}

/// A relative move says exactly how far the entity has moved.
pub proof fn relative_moves_are_exact<C: CreateEntity>(tracker: EntityPositionTracker<C>, data: EntityData)
    ensures
        ({
            let d = displacement(
                tracker.last_tracked_location.inner_loc,
                data.entity_location.inner_loc,
            );
            forall|i: int| #![trigger tracker.movement(data)[i]]
                0 <= i < tracker.movement(data).len() ==> match tracker.movement(data)[i] {
                    PlayPacket::MoveEntityPos { xa, ya, za, .. } => xa == d.0 && ya == d.1 && za
                        == d.2,
                    PlayPacket::MoveEntityPosRot { xa, ya, za, .. } => xa == d.0 && ya == d.1
                        && za == d.2,
                    _ => true,
                }
        }),
{
}

/// Ways add up: what a client adds together from relative moves is the way from the first
/// place to the last.
pub proof fn relative_moves_add_up(a: SimpleLocation, b: SimpleLocation, c: SimpleLocation)
    ensures
        displacement(a, b).0 + displacement(b, c).0 == displacement(a, c).0,
        displacement(a, b).1 + displacement(b, c).1 == displacement(a, c).1,
        displacement(a, b).2 + displacement(b, c).2 == displacement(a, c).2,
{
}

/// After a tick every player knows the entities, and every entity has been shown.
pub proof fn ticks_settle_everyone<C: CreateEntity>(tracker: EntityPositionTracker<C>, data: EntityData)
    ensures
        ticked(tracker, data).state is Active || ticked(tracker, data).state
            is KnownNonPlayerEntity,
        ticked(tracker, data).connection() == tracker.connection(),
{
}

/// A packet goes to a connection exactly where it is that of a client who is chosen.
pub proof fn recipients_are_the_chosen<T: Recipient, C: Condition<T>>(
    clients: Seq<T>,
    condition: Option<C>,
    sender: PacketSend,
)
    ensures
        recipients_of(clients, condition).contains(sender) <==> exists|k: int|
            0 <= k < clients.len() && (#[trigger] clients[k]).connection() == Some(sender) && (
            condition matches Some(c) ==> c.admits(clients[k])),
    decreases clients.len(),
{
    if clients.len() > 0 {
        let rest = clients.drop_last();
        let before = recipients_of(rest, condition);
        let all = recipients_of(clients, condition);
        recipients_are_the_chosen(rest, condition, sender);
        let last = clients.last();
        let chosen = match condition {
            Some(c) => c.admits(last),
            None => true,
        };
        if all.contains(sender) {
            let i = choose|i: int| 0 <= i < all.len() && all[i] == sender;
            if i < before.len() {
                assert(before[i] == sender);
                let k = choose|k: int|
                    0 <= k < rest.len() && (#[trigger] rest[k]).connection() == Some(sender) && (
                    condition matches Some(c) ==> c.admits(rest[k]));
                assert(clients[k] == rest[k]);
            } else {
                assert(clients[clients.len() - 1] == last);
            }
        }
        if exists|k: int|
            0 <= k < clients.len() && (#[trigger] clients[k]).connection() == Some(sender) && (
            condition matches Some(c) ==> c.admits(clients[k])) {
            let k = choose|k: int|
                0 <= k < clients.len() && (#[trigger] clients[k]).connection() == Some(sender) && (
                condition matches Some(c) ==> c.admits(clients[k]));
            if k < rest.len() {
                assert(rest[k] == clients[k]);
                let i = choose|i: int| 0 <= i < before.len() && before[i] == sender;
                assert(all[i] == sender);
            } else {
                assert(all[before.len() as int] == sender);
            }
        }
    }
}

/// What is broadcast on an entity is for others: whoever receives it has another entity id.
pub proof fn entities_hear_nothing_of_themselves<C: CreateEntity>(
    tracker: EntityPositionTracker<C>,
    data: EntityData,
    clients: Seq<EntityPositionTracker<C>>,
    i: int,
    sender: PacketSend,
)
    requires
        0 <= i < announcement(tracker, data).len(),
        recipients_of(clients, announcement(tracker, data)[i].condition).contains(sender),
    ensures
        exists|k: int|
            0 <= k < clients.len() && (#[trigger] clients[k]).connection() == Some(sender)
                && clients[k].entity_id_ref != tracker.entity_id_ref,
{
    recipients_are_the_chosen(clients, announcement(tracker, data)[i].condition, sender);
}

proof fn lemma_announced<C: CreateEntity>(
    entities: Seq<EntityPositionTracker<C>>,
    data: Seq<EntityData>,
    i: int,
    j: int,
)
    requires
        entities.len() == data.len(),
        0 <= i < entities.len(),
        0 <= j < announcement(entities[i], data[i]).len(),
    ensures
        announcements(entities, data).contains(announcement(entities[i], data[i])[j]),
    decreases entities.len(),
{
    let before = announcements(entities.drop_last(), data.drop_last());
    let last = announcement(entities.last(), data.last());
    let all = announcements(entities, data);
    if i < entities.len() - 1 {
        lemma_announced(entities.drop_last(), data.drop_last(), i, j);
        let k = choose|k: int|
            0 <= k < before.len() && before[k] == announcement(entities[i], data[i])[j];
        assert(all[k] == before[k]);
    } else {
        assert(all[before.len() + j] == last[j]);
    }
}

/// Whether a packet reaches a connection among what is sent.
pub open spec fn reaches(sent: Seq<Sent>, packet: PlayPacket, sender: PacketSend) -> bool {
    exists|i: int|
        0 <= i < sent.len() && (#[trigger] sent[i]).packet == packet && sent[i].recipients.contains(
            sender,
        )
}

proof fn lemma_reaches<C: CreateEntity>(
    entities: Seq<EntityPositionTracker<C>>,
    data: Seq<EntityData>,
    removed: Seq<i32>,
    i: int,
    j: int,
    k: int,
    sender: PacketSend,
)
    requires
        entities.len() == data.len(),
        0 <= i < entities.len(),
        0 <= j < announcement(entities[i], data[i]).len(),
        0 <= k < entities.len(),
        entities[k].connection() == Some(sender),
        announcement(entities[i], data[i])[j].condition matches Some(c) && c.admits(
            entities[k].polled(data[k]),
        ),
    ensures
        reaches(
            sent_in_tick(entities, data, removed),
            announcement(entities[i], data[i])[j].packet,
            sender,
        ),
{
    let broadcast = announcement(entities[i], data[i])[j];
    let all = announcements(entities, data);
    let clients = polled_all(entities, data);
    let sent = sent_in_tick(entities, data, removed);
    lemma_announced(entities, data, i, j);
    let n = choose|n: int| 0 <= n < all.len() && all[n] == broadcast;
    assert(sent[n].packet == broadcast.packet);
    assert(clients[k].connection() == Some(sender));
    recipients_are_the_chosen(clients, broadcast.condition, sender);
}

/// A player who has just come is shown every other entity in the next tick.
pub proof fn newcomers_are_shown_everyone<C: CreateEntity>(
    entities: Seq<EntityPositionTracker<C>>,
    data: Seq<EntityData>,
    removed: Seq<i32>,
    newcomer: int,
    other: int,
    sender: PacketSend,
)
    requires
        entities.len() == data.len(),
        0 <= newcomer < entities.len(),
        0 <= other < entities.len(),
        entities[newcomer].entity_id_ref != entities[other].entity_id_ref,
        entities[newcomer].state == (TrackingState::WaitingForPlayers { packet_sender: sender }),
    ensures
        reaches(
            sent_in_tick(entities, data, removed),
            entities[other].polled(data[other]).shown(),
            sender,
        ),
{
    lemma_reaches(entities, data, removed, other, 0, newcomer, sender);
}

/// An entity that has not been shown yet is shown to every other player in the next tick.
pub proof fn new_entities_are_shown_to_everyone<C: CreateEntity>(
    entities: Seq<EntityPositionTracker<C>>,
    data: Seq<EntityData>,
    removed: Seq<i32>,
    new: int,
    player: int,
    sender: PacketSend,
)
    requires
        entities.len() == data.len(),
        0 <= new < entities.len(),
        0 <= player < entities.len(),
        entities[new].entity_id_ref != entities[player].entity_id_ref,
        entities[new].state is WaitingForPlayers || entities[new].state is UnknownNonPlayerEntity,
        entities[player].connection() == Some(sender),
    ensures
        reaches(
            sent_in_tick(entities, data, removed),
            entities[new].polled(data[new]).shown(),
            sender,
        ),
{
    lemma_reaches(entities, data, removed, new, 0, player, sender);
}

/// A player who knows the entities is told of every movement of the others.
pub proof fn movements_reach_every_other_player<C: CreateEntity>(
    entities: Seq<EntityPositionTracker<C>>,
    data: Seq<EntityData>,
    removed: Seq<i32>,
    mover: int,
    step: int,
    player: int,
    sender: PacketSend,
)
    requires
        entities.len() == data.len(),
        0 <= mover < entities.len(),
        0 <= player < entities.len(),
        entities[mover].entity_id_ref != entities[player].entity_id_ref,
        entities[mover].state is Active || entities[mover].state is KnownNonPlayerEntity,
        0 <= step < entities[mover].movement(data[mover]).len(),
        entities[player].state == (TrackingState::Active { packet_sender: sender }),
    ensures
        reaches(
            sent_in_tick(entities, data, removed),
            entities[mover].movement(data[mover])[step],
            sender,
        ),
{
    lemma_reaches(entities, data, removed, mover, step + 1, player, sender);
}

/// Every player is told in the next tick which entities were removed.
pub proof fn removals_reach_every_player<C: CreateEntity>(
    entities: Seq<EntityPositionTracker<C>>,
    data: Seq<EntityData>,
    removed: Seq<i32>,
    player: int,
    sender: PacketSend,
)
    requires
        entities.len() == data.len(),
        0 <= player < entities.len(),
        entities[player].connection() == Some(sender),
    ensures
        reaches(
            sent_in_tick(entities, data, removed),
            PlayPacket::RemoveEntities { entity_ids: removed },
            sender,
        ),
{
    let n = announcements(entities, data).len() as int;
    let clients = polled_all(entities, data);
    assert(clients[player].connection() == Some(sender));
    recipients_are_the_chosen(clients, None::<Audience>, sender);
    assert(sent_in_tick(entities, data, removed)[n].packet == (PlayPacket::RemoveEntities {
        entity_ids: removed,
    }));
}

/// How often a connection is among the recipients.
pub open spec fn times(recipients: Seq<PacketSend>, sender: PacketSend) -> nat
    decreases recipients.len(),
{
    if recipients.len() == 0 {
        0
    } else {
        times(recipients.drop_last(), sender) + (if recipients.last() == sender {
            1nat
        } else {
            0nat
        })
    }
}

/// The packets that a connection receives, in the order in which they are sent, each as often
/// as it is sent there.
pub open spec fn received(sent: Seq<Sent>, sender: PacketSend) -> Seq<PlayPacket>
    decreases sent.len(),
{
    if sent.len() == 0 {
        Seq::empty()
    } else {
        received(sent.drop_last(), sender) + Seq::new(
            times(sent.last().recipients, sender),
            |i: int| sent.last().packet,
        )
    }
}

/// Whether an entity has not been shown to anyone yet.
pub open spec fn unknown<C>(entity: EntityPositionTracker<C>) -> bool {
    entity.state is WaitingForPlayers || entity.state is UnknownNonPlayerEntity
}

/// What a player hears of an entity in a tick. Of itself it hears nothing. Another entity is
/// shown to it where it is not known yet, or where the player knows none; else the player is
/// told how it has moved.
pub open spec fn heard_of<C: CreateEntity>(
    entity: EntityPositionTracker<C>,
    data: EntityData,
    player: EntityPositionTracker<C>,
) -> Seq<PlayPacket> {
    if entity.entity_id_ref == player.entity_id_ref {
        Seq::empty()
    } else if unknown(entity) || player.state is WaitingForPlayers {
        seq![entity.polled(data).shown()]
    } else {
        entity.movement(data)
    }
}

/// What a player hears of several entities, one after the other.
pub open spec fn heard_of_all<C: CreateEntity>(
    entities: Seq<EntityPositionTracker<C>>,
    data: Seq<EntityData>,
    player: EntityPositionTracker<C>,
) -> Seq<PlayPacket>
    decreases entities.len(),
{
    if entities.len() == 0 {
        Seq::empty()
    } else {
        heard_of_all(entities.drop_last(), data.drop_last(), player) + heard_of(
            entities.last(),
            data.last(),
            player,
        )
    }
}

/// Whether a packet is for a client.
pub open spec fn is_for<C>(
    broadcast: Broadcast<Audience>,
    client: EntityPositionTracker<C>,
) -> bool {
    broadcast.condition matches Some(c) ==> c.admits(client)
}

/// The packets that a client is sent, in the order in which they are broadcast.
pub open spec fn told<C>(
    broadcasts: Seq<Broadcast<Audience>>,
    client: EntityPositionTracker<C>,
) -> Seq<PlayPacket>
    decreases broadcasts.len(),
{
    if broadcasts.len() == 0 {
        Seq::empty()
    } else {
        let before = told(broadcasts.drop_last(), client);
        if is_for(broadcasts.last(), client) {
            before.push(broadcasts.last().packet)
        } else {
            before
        }
    }
}

/// The packets that the player at an index is sent in a tick.
pub open spec fn told_in_tick<C: CreateEntity>(
    entities: Seq<EntityPositionTracker<C>>,
    data: Seq<EntityData>,
    removed: Seq<i32>,
    player: int,
) -> Seq<PlayPacket> {
    told(broadcasts_in_tick(entities, data, removed), entities[player].polled(data[player]))
}

/// How often a packet is among others.
pub open spec fn occurrences(packets: Seq<PlayPacket>, packet: PlayPacket) -> nat
    decreases packets.len(),
{
    if packets.len() == 0 {
        0
    } else {
        occurrences(packets.drop_last(), packet) + (if packets.last() == packet {
            1nat
        } else {
            0nat
        })
    }
}

/// How often a packet is sent to the clients with a connection, all of them taken together.
pub open spec fn told_to_owners<C>(
    broadcasts: Seq<Broadcast<Audience>>,
    clients: Seq<EntityPositionTracker<C>>,
    sender: PacketSend,
    packet: PlayPacket,
) -> nat
    decreases clients.len(),
{
    if clients.len() == 0 {
        0
    } else {
        told_to_owners(broadcasts, clients.drop_last(), sender, packet) + (
        if clients.last().connection() == Some(sender) {
            occurrences(told(broadcasts, clients.last()), packet)
        } else {
            0
        })
    }
}

proof fn lemma_absent<T: Recipient, C: Condition<T>>(
    clients: Seq<T>,
    condition: Option<C>,
    sender: PacketSend,
)
    requires
        forall|k: int|
            0 <= k < clients.len() ==> (#[trigger] clients[k]).connection() != Some(sender),
    ensures
        times(recipients_of(clients, condition), sender) == 0,
    decreases clients.len(),
{
    if clients.len() > 0 {
        let rest = clients.drop_last();
        assert forall|k: int| 0 <= k < rest.len() implies (#[trigger] rest[k]).connection()
            != Some(sender) by {
            assert(rest[k] == clients[k]);
        }
        lemma_absent(rest, condition, sender);
        lemma_times_push(clients, condition, sender);
    }
}

proof fn lemma_times_push<T: Recipient, C: Condition<T>>(
    clients: Seq<T>,
    condition: Option<C>,
    sender: PacketSend,
)
    requires
        clients.len() > 0,
    ensures
        times(recipients_of(clients, condition), sender) == times(
            recipients_of(clients.drop_last(), condition),
            sender,
        ) + (if clients.last().connection() == Some(sender) && (condition matches Some(c)
            ==> c.admits(clients.last())) {
            1nat
        } else {
            0nat
        }),
{
    let before = recipients_of(clients.drop_last(), condition);
    match clients.last().connection() {
        Some(other) => {
            assert(before.push(other).drop_last() =~= before);
        },
        None => {},
    }
}

/// A packet goes to a connection as often as there are clients with this connection that are
/// chosen: once to each of them.
pub proof fn packets_go_once_to_each_chosen<T: Recipient, C: Condition<T>>(
    clients: Seq<T>,
    condition: Option<C>,
    sender: PacketSend,
)
    ensures
        times(recipients_of(clients, condition), sender) == clients.filter(
            |client: T|
                client.connection() == Some(sender) && (condition matches Some(c) ==> c.admits(
                    client,
                )),
        ).len(),
    decreases clients.len(),
{
    reveal(Seq::filter);
    if clients.len() > 0 {
        lemma_times_push(clients, condition, sender);
        packets_go_once_to_each_chosen(clients.drop_last(), condition, sender);
    }
}

/// A packet reaches a connection that is that of one client alone once where the client is
/// chosen, and else not at all.
proof fn lemma_once<T: Recipient, C: Condition<T>>(
    clients: Seq<T>,
    condition: Option<C>,
    player: int,
    sender: PacketSend,
)
    requires
        0 <= player < clients.len(),
        forall|k: int|
            0 <= k < clients.len() ==> ((#[trigger] clients[k]).connection() == Some(sender) <==> k
                == player),
    ensures
        times(recipients_of(clients, condition), sender) == (if condition matches Some(c)
            ==> c.admits(clients[player]) {
            1nat
        } else {
            0nat
        }),
    decreases clients.len(),
{
    let rest = clients.drop_last();
    assert forall|k: int| 0 <= k < rest.len() implies ((#[trigger] rest[k]).connection() == Some(
        sender,
    ) <==> k == player) by {
        assert(rest[k] == clients[k]);
    }
    assert(clients[clients.len() - 1] == clients.last());
    lemma_times_push(clients, condition, sender);
    if player == clients.len() - 1 {
        lemma_absent(rest, condition, sender);
    } else {
        lemma_once(rest, condition, player, sender);
    }
}

/// What is sent where broadcasts are delivered to clients.
spec fn sent_of<C>(
    broadcasts: Seq<Broadcast<Audience>>,
    clients: Seq<EntityPositionTracker<C>>,
) -> Seq<Sent> {
    Seq::new(
        broadcasts.len(),
        |i: int|
            Sent {
                packet: broadcasts[i].packet,
                recipients: recipients_of(clients, broadcasts[i].condition),
            },
    )
}

proof fn lemma_repeated(packets: Seq<PlayPacket>, more: PlayPacket, n: nat, packet: PlayPacket)
    ensures
        occurrences(packets + Seq::new(n, |i: int| more), packet) == occurrences(packets, packet)
            + (if more == packet {
            n
        } else {
            0
        }),
    decreases n,
{
    let all = packets + Seq::new(n, |i: int| more);
    if n == 0 {
        assert(all =~= packets);
    } else {
        lemma_repeated(packets, more, (n - 1) as nat, packet);
        assert(all.drop_last() =~= packets + Seq::new((n - 1) as nat, |i: int| more));
    }
}

proof fn lemma_owners_push<C>(
    broadcasts: Seq<Broadcast<Audience>>,
    clients: Seq<EntityPositionTracker<C>>,
    sender: PacketSend,
    packet: PlayPacket,
)
    requires
        broadcasts.len() > 0,
    ensures
        told_to_owners(broadcasts, clients, sender, packet) == told_to_owners(
            broadcasts.drop_last(),
            clients,
            sender,
            packet,
        ) + (if broadcasts.last().packet == packet {
            times(recipients_of(clients, broadcasts.last().condition), sender)
        } else {
            0
        }),
    decreases clients.len(),
{
    if clients.len() > 0 {
        let last = broadcasts.last();
        let before = told(broadcasts.drop_last(), clients.last());
        lemma_owners_push(broadcasts, clients.drop_last(), sender, packet);
        lemma_times_push(clients, last.condition, sender);
        assert(before.push(last.packet).drop_last() =~= before);
    }
}

proof fn lemma_received_by_owners<C>(
    broadcasts: Seq<Broadcast<Audience>>,
    clients: Seq<EntityPositionTracker<C>>,
    sender: PacketSend,
    packet: PlayPacket,
)
    ensures
        occurrences(received(sent_of(broadcasts, clients), sender), packet) == told_to_owners(
            broadcasts,
            clients,
            sender,
            packet,
        ),
    decreases broadcasts.len(),
{
    let sent = sent_of(broadcasts, clients);
    if broadcasts.len() == 0 {
        lemma_nothing_told(broadcasts, clients, sender, packet);
    } else {
        let rest = broadcasts.drop_last();
        lemma_received_by_owners(rest, clients, sender, packet);
        lemma_owners_push(broadcasts, clients, sender, packet);
        assert(sent.drop_last() =~= sent_of(rest, clients));
        lemma_repeated(
            received(sent.drop_last(), sender),
            sent.last().packet,
            times(sent.last().recipients, sender),
            packet,
        );
    }
}

proof fn lemma_nothing_told<C>(
    broadcasts: Seq<Broadcast<Audience>>,
    clients: Seq<EntityPositionTracker<C>>,
    sender: PacketSend,
    packet: PlayPacket,
)
    requires
        broadcasts.len() == 0,
    ensures
        told_to_owners(broadcasts, clients, sender, packet) == 0,
    decreases clients.len(),
{
    if clients.len() > 0 {
        lemma_nothing_told(broadcasts, clients.drop_last(), sender, packet);
    }
}

/// What is received over a connection in a tick is what the players with this connection are
/// sent, taken together: every packet comes as often as it is sent to each of them.
pub proof fn connections_carry_what_players_are_sent<C: CreateEntity>(
    entities: Seq<EntityPositionTracker<C>>,
    data: Seq<EntityData>,
    removed: Seq<i32>,
    sender: PacketSend,
    packet: PlayPacket,
)
    ensures
        occurrences(received(sent_in_tick(entities, data, removed), sender), packet)
            == told_to_owners(
            broadcasts_in_tick(entities, data, removed),
            polled_all(entities, data),
            sender,
            packet,
        ),
{
    let broadcasts = broadcasts_in_tick(entities, data, removed);
    let clients = polled_all(entities, data);
    lemma_received_by_owners(broadcasts, clients, sender, packet);
    assert(sent_in_tick(entities, data, removed) =~= sent_of(broadcasts, clients));
}

proof fn lemma_received_alone<C>(
    broadcasts: Seq<Broadcast<Audience>>,
    clients: Seq<EntityPositionTracker<C>>,
    player: int,
    sender: PacketSend,
)
    requires
        0 <= player < clients.len(),
        forall|k: int|
            0 <= k < clients.len() ==> ((#[trigger] clients[k]).connection() == Some(sender) <==> k
                == player),
    ensures
        received(sent_of(broadcasts, clients), sender) == told(broadcasts, clients[player]),
    decreases broadcasts.len(),
{
    let sent = sent_of(broadcasts, clients);
    if broadcasts.len() > 0 {
        let rest = broadcasts.drop_last();
        lemma_received_alone(rest, clients, player, sender);
        lemma_once(clients, broadcasts.last().condition, player, sender);
        assert(sent.drop_last() =~= sent_of(rest, clients));
        assert(received(sent, sender) =~= told(broadcasts, clients[player]));
    }
}

/// Over a connection that is that of one player alone, exactly what this player is sent is
/// received, in the same order.
pub proof fn players_receive_what_they_are_sent<C: CreateEntity>(
    entities: Seq<EntityPositionTracker<C>>,
    data: Seq<EntityData>,
    removed: Seq<i32>,
    player: int,
    sender: PacketSend,
)
    requires
        entities.len() == data.len(),
        0 <= player < entities.len(),
        forall|k: int|
            0 <= k < entities.len() ==> ((#[trigger] entities[k]).connection() == Some(sender)
                <==> k == player),
    ensures
        received(sent_in_tick(entities, data, removed), sender) == told_in_tick(
            entities,
            data,
            removed,
            player,
        ),
{
    let broadcasts = broadcasts_in_tick(entities, data, removed);
    let clients = polled_all(entities, data);
    assert forall|k: int| 0 <= k < clients.len() implies ((#[trigger] clients[k]).connection()
        == Some(sender) <==> k == player) by {
        assert(clients[k].connection() == entities[k].connection());
    }
    lemma_received_alone(broadcasts, clients, player, sender);
    assert(sent_in_tick(entities, data, removed) =~= sent_of(broadcasts, clients));
}

proof fn lemma_told_add<C>(
    first: Seq<Broadcast<Audience>>,
    second: Seq<Broadcast<Audience>>,
    client: EntityPositionTracker<C>,
)
    ensures
        told(first + second, client) == told(first, client) + told(second, client),
    decreases second.len(),
{
    if second.len() == 0 {
        assert(first + second =~= first);
        assert(told(first, client) + told(second, client) =~= told(first, client));
    } else {
        lemma_told_add(first, second.drop_last(), client);
        assert((first + second).drop_last() =~= first + second.drop_last());
        assert((first + second).last() == second.last());
        assert(told(first + second, client) =~= told(first, client) + told(second, client));
    }
}

/// The broadcasts of packets under one condition are for a client, all of them and in order,
/// exactly where it is chosen.
proof fn lemma_same_condition<C>(
    packets: Seq<PlayPacket>,
    condition: Audience,
    client: EntityPositionTracker<C>,
)
    ensures
        told(
            Seq::new(
                packets.len(),
                |i: int| Broadcast { packet: packets[i], condition: Some(condition) },
            ),
            client,
        ) == (if condition.admits(client) {
            packets
        } else {
            Seq::empty()
        }),
    decreases packets.len(),
{
    let broadcasts = Seq::new(
        packets.len(),
        |i: int| Broadcast { packet: packets[i], condition: Some(condition) },
    );
    if packets.len() == 0 {
        assert(packets =~= Seq::empty());
    } else {
        let rest = packets.drop_last();
        lemma_same_condition(rest, condition, client);
        assert(broadcasts.drop_last() =~= Seq::new(
            rest.len(),
            |i: int| Broadcast { packet: rest[i], condition: Some(condition) },
        ));
        assert(packets =~= rest.push(packets.last()));
    }
}

proof fn lemma_one<C>(broadcast: Broadcast<Audience>, client: EntityPositionTracker<C>)
    ensures
        told(seq![broadcast], client) == (if is_for(broadcast, client) {
            seq![broadcast.packet]
        } else {
            Seq::empty()
        }),
{
    let broadcasts = seq![broadcast];
    assert(broadcasts.drop_last() =~= Seq::empty());
    assert(told(broadcasts.drop_last(), client) =~= Seq::empty());
    assert(Seq::<PlayPacket>::empty().push(broadcast.packet) =~= seq![broadcast.packet]);
}

proof fn lemma_announcement_heard<C: CreateEntity>(
    entity: EntityPositionTracker<C>,
    data: EntityData,
    client: EntityPositionTracker<C>,
)
    requires
        client.connection() is Some,
    ensures
        told(announcement(entity, data), client) == heard_of(entity, data, client),
{
    let id = entity.entity_id_ref;
    let all = announcement(entity, data);
    lemma_one(all[0], client);
    if unknown(entity) {
        assert(all =~= seq![all[0]]);
    } else {
        let movement = entity.movement(data);
        let condition = Audience::ActiveOthers { id };
        let moves = Seq::new(
            movement.len(),
            |i: int| Broadcast { packet: movement[i], condition: Some(condition) },
        );
        lemma_same_condition(movement, condition, client);
        assert(all =~= seq![all[0]] + moves);
        lemma_told_add(seq![all[0]], moves, client);
        assert(told(all, client) =~= heard_of(entity, data, client));
    }
}

proof fn lemma_announcements_heard<C: CreateEntity>(
    entities: Seq<EntityPositionTracker<C>>,
    data: Seq<EntityData>,
    client: EntityPositionTracker<C>,
)
    requires
        client.connection() is Some,
    ensures
        told(announcements(entities, data), client) == heard_of_all(entities, data, client),
    decreases entities.len(),
{
    if entities.len() > 0 {
        let before = announcements(entities.drop_last(), data.drop_last());
        let last = announcement(entities.last(), data.last());
        lemma_announcements_heard(entities.drop_last(), data.drop_last(), client);
        lemma_announcement_heard(entities.last(), data.last(), client);
        lemma_told_add(before, last, client);
    }
}

/// What is heard of an entity depends on the id and the state of the player alone, which a
/// poll does not change.
proof fn lemma_heard_after_poll<C: CreateEntity>(
    entities: Seq<EntityPositionTracker<C>>,
    data: Seq<EntityData>,
    player: EntityPositionTracker<C>,
    now: EntityData,
)
    ensures
        heard_of_all(entities, data, player.polled(now)) == heard_of_all(entities, data, player),
    decreases entities.len(),
{
    if entities.len() > 0 {
        lemma_heard_after_poll(entities.drop_last(), data.drop_last(), player, now);
    }
}

/// In a tick a player is sent what it hears of each entity, one after the other, and then
/// which entities were removed. It is sent nothing else, and nothing twice.
pub proof fn players_hear_of_each_entity_in_turn<C: CreateEntity>(
    entities: Seq<EntityPositionTracker<C>>,
    data: Seq<EntityData>,
    removed: Seq<i32>,
    player: int,
)
    requires
        entities.len() == data.len(),
        0 <= player < entities.len(),
        entities[player].connection() is Some,
    ensures
        told_in_tick(entities, data, removed, player) == heard_of_all(
            entities,
            data,
            entities[player],
        ).push(PlayPacket::RemoveEntities { entity_ids: removed }),
{
    let client = entities[player].polled(data[player]);
    let all = broadcasts_in_tick(entities, data, removed);
    assert(all.drop_last() =~= announcements(entities, data));
    lemma_announcements_heard(entities, data, client);
    lemma_heard_after_poll(entities, data, entities[player], data[player]);
}

proof fn lemma_heard_split<C: CreateEntity>(
    entities: Seq<EntityPositionTracker<C>>,
    data: Seq<EntityData>,
    player: EntityPositionTracker<C>,
    other: int,
)
    requires
        entities.len() == data.len(),
        0 <= other < entities.len(),
    ensures
        heard_of_all(entities, data, player) == heard_of_all(
            entities.take(other),
            data.take(other),
            player,
        ) + heard_of(entities[other], data[other], player) + heard_of_all(
            entities.skip(other + 1),
            data.skip(other + 1),
            player,
        ),
    decreases entities.len(),
{
    let (first, first_data) = (entities.drop_last(), data.drop_last());
    let (rest, rest_data) = (entities.skip(other + 1), data.skip(other + 1));
    if other == entities.len() - 1 {
        assert(first =~= entities.take(other));
        assert(first_data =~= data.take(other));
        assert(heard_of_all(rest, rest_data, player) =~= Seq::empty());
    } else {
        lemma_heard_split(first, first_data, player, other);
        assert(first.take(other) =~= entities.take(other));
        assert(first_data.take(other) =~= data.take(other));
        assert(first.skip(other + 1) =~= rest.drop_last());
        assert(first_data.skip(other + 1) =~= rest_data.drop_last());
        assert(rest.last() == entities.last());
        assert(rest_data.last() == data.last());
        let a = heard_of_all(entities.take(other), data.take(other), player);
        let b = heard_of(entities[other], data[other], player);
        let c = heard_of_all(rest.drop_last(), rest_data.drop_last(), player);
        let d = heard_of(entities.last(), data.last(), player);
        assert(a + b + c + d =~= a + b + (c + d));
    }
}

/// A player is shown another entity exactly once in a tick where the entity was not known
/// yet, or where the player knew none, and else not at all. It is told how an entity has
/// moved, in order and each step once, exactly where it knew the entities and the other one
/// was known already. It hears nothing of itself.
pub proof fn entities_are_shown_once_or_move<C: CreateEntity>(
    entities: Seq<EntityPositionTracker<C>>,
    data: Seq<EntityData>,
    removed: Seq<i32>,
    player: int,
    other: int,
)
    requires
        entities.len() == data.len(),
        0 <= player < entities.len(),
        entities[player].connection() is Some,
        0 <= other < entities.len(),
        forall|i: int, j: int|
            0 <= i < j < entities.len() ==> (#[trigger] entities[i]).entity_id_ref != (
            #[trigger] entities[j]).entity_id_ref,
    ensures
        ({
            let (a, b) = (entities[other], entities[player]);
            let of_other = if other != player && (unknown(a) || b.state is WaitingForPlayers) {
                seq![a.polled(data[other]).shown()]
            } else if other != player && (a.state is Active || a.state is KnownNonPlayerEntity)
                && b.state is Active {
                a.movement(data[other])
            } else {
                Seq::empty()
            };
            told_in_tick(entities, data, removed, player) == heard_of_all(
                entities.take(other),
                data.take(other),
                b,
            ) + of_other + heard_of_all(entities.skip(other + 1), data.skip(other + 1), b) + seq![
                PlayPacket::RemoveEntities { entity_ids: removed },
            ]
        }),
{
    let b = entities[player];
    players_hear_of_each_entity_in_turn(entities, data, removed, player);
    lemma_heard_split(entities, data, b, other);
    let removal = PlayPacket::RemoveEntities { entity_ids: removed };
    let heard = heard_of_all(entities, data, b);
    assert(heard.push(removal) =~= heard + seq![removal]);
}

/// Once a player and an entity have been through a tick, the player is not shown the entity
/// again: from then on it is told of its movement alone.
pub proof fn entities_are_not_shown_again<C: CreateEntity>(
    entity: EntityPositionTracker<C>,
    data: EntityData,
    player: EntityPositionTracker<C>,
    player_data: EntityData,
    next: EntityData,
)
    ensures
        heard_of(ticked(entity, data), next, ticked(player, player_data)) == (
        if entity.entity_id_ref == player.entity_id_ref {
            Seq::empty()
        } else {
            ticked(entity, data).movement(next)
        }),
{
}

} // verus!
