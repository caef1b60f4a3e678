//! The server as a whole: what it is made of, and who is on it.
use crate::client::{
    after_packet, MCConnection, PendingPosition, ProcessedPlayer, ServerboundPlayRegistry,
};
use crate::codec::signed;
use crate::crypto::{new_key, MCPrivateKey};
use crate::phase::status::{
    StatusBuilder, StatusError, StatusPlayers, StatusResponse, StatusSample, StatusVersion,
};
use crate::protocol::{
    Angle, Chat, ClientboundLoginRegistry, Location, LoginPacket, SimpleLocation,
};
use crate::version_constants::{CURRENT_PROTOCOL_VERSION, CURRENT_PROTOCOL_VERSION_STRING};
use vstd::prelude::*;

verus! {

/// Something that tells the status of a server with the given number of clients.
pub trait MCServerStatusBuilder {
    /// Whether the status can be asked for.
    spec fn ready_for(&self, client_count: usize) -> bool;

    /// Whether asking for the status can have the result.
    spec fn builds_for(&self, client_count: usize, r: Result<StatusResponse, StatusError>) -> bool;

    fn build_status(&self, client_count: usize) -> (r: Result<StatusResponse, StatusError>)
        requires
            self.ready_for(client_count),
        ensures
            self.builds_for(client_count, r),
    ;
}

impl<F: Fn(isize) -> StatusResponse> MCServerStatusBuilder for F {
    open spec fn ready_for(&self, client_count: usize) -> bool {
        self.requires((client_count as isize,))
    }

    open spec fn builds_for(
        &self,
        client_count: usize,
        r: Result<StatusResponse, StatusError>,
    ) -> bool {
        r is Ok && self.ensures((client_count as isize,), r->Ok_0)
    }

    fn build_status(&self, client_count: usize) -> (r: Result<StatusResponse, StatusError>) {
        Ok((self)(client_count as isize))
    }
}

/// The status of a server, told by a builder that is given the number of its clients.
pub struct StatusBuilderWrapper<B> {
    pub builder: B,
}

impl<B: MCServerStatusBuilder> StatusBuilder for StatusBuilderWrapper<B> {
    open spec fn ready(&self, client_count: usize) -> bool {
        self.builder.ready_for(client_count)
    }

    open spec fn builds(
        &self,
        client_count: usize,
        r: Result<StatusResponse, StatusError>,
    ) -> bool {
        self.builder.builds_for(client_count, r)
    }

    fn build(&self, client_count: usize) -> (r: Result<StatusResponse, StatusError>) {
        self.builder.build_status(client_count)
    }
}

/// The status of a server that speaks the current version of the protocol.
pub fn status_builder(
    description: Chat,
    max: isize,
    online: isize,
    sample: Vec<StatusSample>,
    favicon: Option<String>,
    enforce: bool,
) -> (response: StatusResponse)
    ensures
        response.description == description,
        response.players == (StatusPlayers { max, online, sample }),
        response.version.name@ == CURRENT_PROTOCOL_VERSION_STRING@,
        response.version.protocol == CURRENT_PROTOCOL_VERSION,
        response.favicon == favicon,
        response.enforces_secure_chat == enforce,
{
    StatusResponse {
        description,
        players: StatusPlayers { max, online, sample },
        version: StatusVersion {
            name: CURRENT_PROTOCOL_VERSION_STRING.to_string(),
            protocol: CURRENT_PROTOCOL_VERSION,
        },
        favicon,
        enforces_secure_chat: enforce,
    }
}

/// A status with room for two hundred players.
pub struct BasicStatusResponse {
    pub description: Chat,
}

impl MCServerStatusBuilder for BasicStatusResponse {
    open spec fn ready_for(&self, client_count: usize) -> bool {
        true
    }

    open spec fn builds_for(
        &self,
        client_count: usize,
        r: Result<StatusResponse, StatusError>,
    ) -> bool {
        match r {
            Ok(response) => {
                &&& response.description@ == self.description@
                &&& response.players.max == 200
                &&& response.players.online == client_count as isize
                &&& response.players.sample@.len() == 0
                &&& response.version.name@ == CURRENT_PROTOCOL_VERSION_STRING@
                &&& response.version.protocol == CURRENT_PROTOCOL_VERSION
                &&& response.favicon is None
                &&& !response.enforces_secure_chat
            },
            Err(_) => false,
        }
    }

    fn build_status(&self, client_count: usize) -> (r: Result<StatusResponse, StatusError>) {
        Ok(
            status_builder(
                self.description.clone(),
                200,
                client_count as isize,
                Vec::new(),
                None,
                false,
            ),
        )
    }
}

/// Why a server cannot run.
#[derive(Clone, Copy, Debug, PartialEq, Eq, Structural)]
pub enum ServerError {
    /// Nothing tells its status.
    NoStatusBuilder,
}

/// A server.
pub struct MCServer<F> {
    pub key: MCPrivateKey,
    pub status_builder: Option<F>,
    pub client_count: usize,
    pub entity_count: i32,
    pub bind: String,
    pub initial_location: Location,
    pub compression_threshold: Option<i32>,
    pub chunk_radius: i32,
}

/// The center of the world, with no turn: all coordinates and angles are zero.
pub open spec fn origin() -> Location {
    Location {
        inner_loc: SimpleLocation { x: 0, y: 0, z: 0 },
        yaw: Angle { bits: 0, steps: 0 },
        pitch: Angle { bits: 0, steps: 0 },
    }
}

impl MCServer<()> {
    /// A server with a new key that nobody is on.
    pub fn new() -> (server: MCServer<()>)
        ensures
            server.key@.freshly_made(),
            server.status_builder is None,
            server.client_count == 0,
            server.entity_count == 0,
            server.bind@ == "0.0.0.0:25565"@,
            server.initial_location == origin(),
            server.compression_threshold is None,
            server.chunk_radius == 8,
    {
        Self::with_key(new_key().expect("Failed to generate new server key."))
    }

    /// A server with the given key that nobody is on. `MCPrivateKey::is_valid` tells whether
    /// a key can be used.
    pub fn with_key(key: MCPrivateKey) -> (server: MCServer<()>)
        requires
            key@.valid(),
        ensures
            server.key == key,
            server.status_builder is None,
            server.client_count == 0,
            server.entity_count == 0,
            server.bind@ == "0.0.0.0:25565"@,
            server.initial_location == origin(),
            server.compression_threshold is None,
            server.chunk_radius == 8,
    {
        Self {
            key,
            status_builder: None,
            client_count: 0,
            entity_count: 0,
            bind: "0.0.0.0:25565".to_string(),
            initial_location: Location {
                inner_loc: SimpleLocation { x: 0, y: 0, z: 0 },
                yaw: Angle { bits: 0, steps: 0 },
                pitch: Angle { bits: 0, steps: 0 },
            },
            compression_threshold: None,
            chunk_radius: 8,
        }
    }
}

impl Default for MCServer<()> {
    /// A server with a new key that nobody is on.
    fn default() -> (server: Self)
        ensures
            server.key@.freshly_made(),
            server.status_builder is None,
            server.client_count == 0,
            server.entity_count == 0,
            server.bind@ == "0.0.0.0:25565"@,
            server.initial_location == origin(),
            server.compression_threshold is None,
            server.chunk_radius == 8,
    {
        Self::new()
    }
}

impl<F> MCServer<F> {
    /// Sets where clients start.
    pub fn initial_location(self, loc: Location) -> (server: Self)
        ensures
            server == (MCServer { initial_location: loc, ..self }),
    {
        let mut server: MCServer<F> = self;
        server.initial_location = loc;
        server
    }

    /// Sets the size from which packets are compressed.
    pub fn compression_threshold(self, threshold: Option<i32>) -> (server: Self)
        ensures
            server == (MCServer { compression_threshold: threshold, ..self }),
    {
        let mut server: MCServer<F> = self;
        server.compression_threshold = threshold;
        server
    }

    /// Sets the address that clients connect to.
    pub fn bind(self, bind_str: String) -> (server: Self)
        ensures
            server == (MCServer { bind: bind_str, ..self }),
    {
        let mut server: MCServer<F> = self;
        server.bind = bind_str;
        server
    }

    /// Sets what tells the status.
    pub fn build_status<FN: StatusBuilder>(self, builder: FN) -> (server: MCServer<FN>)
        ensures
            server.key == self.key,
            server.status_builder == Some(builder),
            server.client_count == self.client_count,
            server.entity_count == self.entity_count,
            server.bind == self.bind,
            server.initial_location == self.initial_location,
            server.compression_threshold == self.compression_threshold,
            server.chunk_radius == self.chunk_radius,
    {
        MCServer {
            key: self.key,
            status_builder: Some(builder),
            client_count: self.client_count,
            entity_count: self.entity_count,
            bind: self.bind,
            initial_location: self.initial_location,
            compression_threshold: self.compression_threshold,
            chunk_radius: self.chunk_radius,
        }
    }

    /// Sets what tells the status from the number of clients.
    pub fn build_mc_status<FN: MCServerStatusBuilder>(self, builder: FN) -> (server: MCServer<
        StatusBuilderWrapper<FN>,
    >)
        ensures
            server.key == self.key,
            server.status_builder == Some(StatusBuilderWrapper { builder }),
            server.client_count == self.client_count,
            server.entity_count == self.entity_count,
            server.bind == self.bind,
            server.initial_location == self.initial_location,
            server.compression_threshold == self.compression_threshold,
            server.chunk_radius == self.chunk_radius,
    {
        self.build_status(StatusBuilderWrapper { builder })
    }

    /// Sets how many chunks a client sees in each direction.
    pub fn chunk_radius(self, radius: i32) -> (server: Self)
        ensures
            server == (MCServer { chunk_radius: radius, ..self }),
    {
        let mut server: MCServer<F> = self;
        server.chunk_radius = radius;
        server
    }

    /// What tells the status. Without it, no client is served.
    pub fn required_status_builder(&self) -> (r: Result<&F, ServerError>)
        ensures
            match self.status_builder {
                Some(builder) => r == Ok::<&F, ServerError>(&builder),
                None => r == Err::<&F, ServerError>(ServerError::NoStatusBuilder),
            },
    {
        match &self.status_builder {
            Some(builder) => Ok(builder),
            None => Err(ServerError::NoStatusBuilder),
        }
    }

    /// The server after a visit.
    pub open spec fn after(&self, visit: Visit) -> MCServer<F> {
        match visit {
            Visit::Joins => MCServer {
                client_count: self.client_count.wrapping_add(1),
                entity_count: self.entity_count.wrapping_add(1),
                ..*self
            },
            Visit::Passes => *self,
            Visit::Leaves => MCServer { client_count: self.client_count.wrapping_sub(1), ..*self },
        }
    }

    /// The server after several visits, one after the other.
    pub open spec fn after_all(&self, visits: Seq<Visit>) -> MCServer<F>
        decreases visits.len(),
    {
        if visits.len() == 0 {
            *self
        } else {
            self.after_all(visits.drop_last()).after(visits.last())
        }
    }

    /// The entity ids that those who join are given, in the order in which they join.
    pub open spec fn ids_given(&self, visits: Seq<Visit>) -> Seq<i32>
        decreases visits.len(),
    {
        if visits.len() == 0 {
            Seq::empty()
        } else {
            let before = self.ids_given(visits.drop_last());
            match visits.last() {
                Visit::Joins => before.push(self.after_all(visits.drop_last()).entity_count),
                _ => before,
            }
        }
    }

    /// Counts a client in, and gives the id of its entity.
    pub fn admit_client(&mut self) -> (entity_id: i32)
        ensures
            entity_id == old(self).entity_count,
            *final(self) == old(self).after(Visit::Joins),
    {
        self.client_count = self.client_count.wrapping_add(1);
        let entity_id: i32 = self.entity_count;
        self.entity_count = entity_id.wrapping_add(1);
        entity_id
    }

    /// Whether a handshake that ends in a connection, or in none, can have what follows.
    pub open spec fn welcomes<R, W, C>(
        &self,
        connection: Option<MCConnection<R, W, C>>,
        welcome: Welcome<R, W, C>,
    ) -> bool {
        match connection {
            None => welcome is Passed,
            Some(connection) => if connection.logged_in {
                welcome is Dropped
            } else {
                match (self.compression_threshold, welcome) {
                    (Some(threshold), Welcome::Compressing { packet, connection: after }) => {
                        &&& packet@ == (LoginPacket::LoginCompression { threshold })
                        &&& after == (MCConnection {
                            compression_threshold: Some(threshold),
                            ..connection
                        })
                    },
                    (None, Welcome::Joined { packet, player }) => {
                        &&& packet@ == (LoginPacket::LoginGameProfile {
                            game_profile: connection.profile@,
                        })
                        &&& player == (ProcessedPlayer {
                            server_player: MCConnection { logged_in: true, ..connection },
                            current_player_position: self.initial_location,
                            pending_position: PendingPosition {
                                location: self.initial_location,
                                pending_teleport: Some((self.initial_location, 0i32)),
                                on_ground: false,
                                is_loaded: false,
                            },
                            entity_id: self.entity_count,
                        })
                    },
                    _ => false,
                }
            },
        }
    }

    /// Follows a handshake, which ends in a connection only where the client has logged in to
    /// play. Such a client is counted in, and completes its login at the place where clients
    /// start; the packet that says so is still to be written. With compression, only the
    /// packet that turns it on is given.
    pub fn welcome<R, W, C>(&mut self, connection: Option<MCConnection<R, W, C>>) -> (welcome:
        Welcome<R, W, C>)
        ensures
            old(self).welcomes(connection, welcome),
            *final(self) == old(self).after(
                if connection is Some {
                    Visit::Joins
                } else {
                    Visit::Passes
                },
            ),
            match connection {
                None => welcome is Passed,
                Some(connection) => if connection.logged_in {
                    welcome is Dropped
                } else {
                    match (old(self).compression_threshold, welcome) {
                        (Some(threshold), Welcome::Compressing { packet, connection: after }) => {
                            &&& packet@ == (LoginPacket::LoginCompression { threshold })
                            &&& after == (MCConnection {
                                compression_threshold: Some(threshold),
                                ..connection
                            })
                        },
                        (None, Welcome::Joined { packet, player }) => {
                            &&& packet@ == (LoginPacket::LoginGameProfile {
                                game_profile: connection.profile@,
                            })
                            &&& player == (ProcessedPlayer {
                                server_player: MCConnection { logged_in: true, ..connection },
                                current_player_position: old(self).initial_location,
                                pending_position: PendingPosition {
                                    location: old(self).initial_location,
                                    pending_teleport: Some((old(self).initial_location, 0i32)),
                                    on_ground: false,
                                    is_loaded: false,
                                },
                                entity_id: old(self).entity_count,
                            })
                        },
                        _ => false,
                    }
                },
            },
    {
        match connection {
            None => Welcome::Passed,
            Some(connection) => {
                let entity_id: i32 = self.admit_client();
                if let Some(threshold) = self.compression_threshold {
                    let mut connection: MCConnection<R, W, C> = connection;
                    return match connection.compress_and_complete_login(threshold) {
                        Ok(packet) => Welcome::Compressing { packet, connection },
                        Err(_) => Welcome::Dropped,
                    };
                }
                match ProcessedPlayer::bootstrap_client(
                    self.compression_threshold,
                    connection,
                    self.initial_location,
                    entity_id,
                ) {
                    Ok((packet, player)) => Welcome::Joined { packet, player },
                    Err(_) => Welcome::Dropped,
                }
            },
        }
    }

    /// Counts a client out.
    pub fn release_client(&mut self)
        ensures
            *final(self) == old(self).after(Visit::Leaves),
    {
        self.client_count = self.client_count.wrapping_sub(1);
    }
}

/// How those who connect change who is on a server.
#[derive(Clone, Copy, Debug, PartialEq, Eq, Structural)]
pub enum Visit {
    /// A client logs in to play.
    Joins,
    /// The handshake fails, or the client only asks for the status.
    Passes,
    /// A client that has joined leaves.
    Leaves,
}

/// What follows a handshake.
pub enum Welcome<R, W, C> {
    /// Nobody joins.
    Passed,
    /// The client has been counted in, but its login cannot be completed.
    Dropped,
    /// The packet is written. The rest of the login follows it in compressed form.
    Compressing { packet: ClientboundLoginRegistry, connection: MCConnection<R, W, C> },
    /// The packet is written, and the client plays.
    Joined { packet: ClientboundLoginRegistry, player: ProcessedPlayer<R, W, C> },
}

/// How many of the visits are of the given sort.
pub open spec fn count_of(visits: Seq<Visit>, visit: Visit) -> nat {
    visits.filter(|v: Visit| v == visit).len()
}

proof fn lemma_count_push(visits: Seq<Visit>, visit: Visit)
    requires
        visits.len() > 0,
    ensures
        count_of(visits, visit) == count_of(visits.drop_last(), visit) + (if visits.last()
            == visit {
            1nat
        } else {
            0nat
        }),
{
    reveal(Seq::filter);
}

/// On a server that nobody has been on, those who join are given the ids 0, 1, 2 and so on.
/// Behind the greatest id comes the least one. Who only passes or leaves takes none.
pub proof fn ids_count_up<F>(server: MCServer<F>, visits: Seq<Visit>)
    requires
        server.entity_count == 0,
    ensures
        server.ids_given(visits).len() == count_of(visits, Visit::Joins),
        forall|i: int|
            0 <= i < server.ids_given(visits).len() ==> #[trigger] server.ids_given(visits)[i]
                == signed(i as nat),
        server.after_all(visits).entity_count == signed(count_of(visits, Visit::Joins)),
    decreases visits.len(),
{
    if visits.len() == 0 {
        reveal(Seq::filter);
    } else {
        lemma_count_push(visits, Visit::Joins);
        ids_count_up(server, visits.drop_last());
    }
}

/// No id is given twice before all of them have been given.
pub proof fn ids_are_not_reused<F>(server: MCServer<F>, visits: Seq<Visit>, i: int, j: int)
    requires
        server.entity_count == 0,
        0 <= i < j < server.ids_given(visits).len(),
        j - i < 0x1_0000_0000,
    ensures
        server.ids_given(visits)[i] != server.ids_given(visits)[j],
{
    ids_count_up(server, visits);
}

/// A server counts those who have joined and not left.
pub proof fn clients_are_counted<F>(server: MCServer<F>, visits: Seq<Visit>)
    requires
        server.client_count == 0,
        count_of(visits, Visit::Joins) <= usize::MAX,
        forall|i: int| #![trigger visits.take(i)]
            0 <= i <= visits.len() ==> count_of(visits.take(i), Visit::Leaves) <= count_of(
                visits.take(i),
                Visit::Joins,
            ),
    ensures
        server.after_all(visits).client_count == count_of(visits, Visit::Joins) - count_of(
            visits,
            Visit::Leaves,
        ),
    decreases visits.len(),
{
    if visits.len() == 0 {
        reveal(Seq::filter);
    } else {
        let before = visits.drop_last();
        lemma_count_push(visits, Visit::Joins);
        lemma_count_push(visits, Visit::Leaves);
        assert forall|i: int| #![trigger before.take(i)] 0 <= i <= before.len() implies count_of(
            before.take(i),
            Visit::Leaves,
        ) <= count_of(before.take(i), Visit::Joins) by {
            assert(before.take(i) =~= visits.take(i));
        }
        clients_are_counted(server, before);
        assert(visits.take(visits.len() as int) =~= visits);
    }
}

/// Visits change nothing but the two counts.
pub proof fn visits_change_counts_alone<F>(server: MCServer<F>, visits: Seq<Visit>)
    ensures
        server.after_all(visits) == (MCServer {
            client_count: server.after_all(visits).client_count,
            entity_count: server.after_all(visits).entity_count,
            ..server
        }),
    decreases visits.len(),
{
    if visits.len() > 0 {
        visits_change_counts_alone(server, visits.drop_last());
    }
}

/// Up to the greatest id there is, those who join are given the ids from 0 on, one after the
/// other.
pub proof fn first_ids_are_counted<F>(server: MCServer<F>, visits: Seq<Visit>, i: int)
    requires
        server.entity_count == 0,
        0 <= i < server.ids_given(visits).len(),
        i < 0x8000_0000,
    ensures
        server.ids_given(visits)[i] == i,
{
    ids_count_up(server, visits);
}

/// A client that joins is counted and takes an id; one that leaves is counted no more and
/// gives no id back; and who only passes changes nothing. Nothing else of the server changes.
pub proof fn visits_are_counted_one_by_one<F>(server: MCServer<F>)
    ensures
        ({
            let joined = server.after(Visit::Joins);
            let left = server.after(Visit::Leaves);
            &&& server.client_count < usize::MAX ==> joined.client_count == server.client_count + 1
            &&& server.entity_count < 0x7FFF_FFFF ==> joined.entity_count == server.entity_count
                + 1
            &&& server.entity_count == 0x7FFF_FFFF ==> joined.entity_count == -0x8000_0000
            &&& joined.after(Visit::Leaves).client_count == server.client_count
            &&& left.after(Visit::Joins).client_count == server.client_count
            &&& left.entity_count == server.entity_count
            &&& server.client_count > 0 ==> left.client_count == server.client_count - 1
            &&& server.after(Visit::Passes) == server
            &&& joined.key == server.key && left.key == server.key
            &&& joined.status_builder == server.status_builder
            &&& left.status_builder == server.status_builder
            &&& joined.bind == server.bind && left.bind == server.bind
            &&& joined.initial_location == server.initial_location
            &&& left.initial_location == server.initial_location
            &&& joined.compression_threshold == server.compression_threshold
            &&& left.compression_threshold == server.compression_threshold
            &&& joined.chunk_radius == server.chunk_radius
            &&& left.chunk_radius == server.chunk_radius
        }),
{
}

/// A basic status has room for two hundred players and shows none by name. It tells how many
/// clients there are, its own description and the current version, and is never refused.
pub proof fn basic_statuses_tell_the_count(
    basic: BasicStatusResponse,
    client_count: usize,
    r: Result<StatusResponse, StatusError>,
)
    requires
        basic.builds_for(client_count, r),
        client_count <= isize::MAX,
    ensures
        basic.ready_for(client_count),
        r is Ok,
        r->Ok_0.players.online == client_count,
        r->Ok_0.players.max == 200,
        r->Ok_0.players.sample@.len() == 0,
        r->Ok_0.description@ == basic.description@,
        r->Ok_0.version.name@ == "1.19.3"@,
        r->Ok_0.version.protocol == 761,
        r->Ok_0.favicon is None,
        !r->Ok_0.enforces_secure_chat,
{
}

/// A function tells the status of as many clients as it is given, and is never refused; a
/// builder that is wrapped tells what it tells by itself.
pub proof fn builders_are_asked_for_the_count<
    F: Fn(isize) -> StatusResponse,
    B: MCServerStatusBuilder,
>(
    function: F,
    wrapper: StatusBuilderWrapper<B>,
    client_count: usize,
    r: Result<StatusResponse, StatusError>,
)
    requires
        client_count <= isize::MAX,
    ensures
        function.ready_for(client_count) <==> function.requires((client_count as isize,)),
        function.builds_for(client_count, r) <==> r is Ok && function.ensures(
            (client_count as isize,),
            r->Ok_0,
        ),
        wrapper.ready(client_count) <==> wrapper.builder.ready_for(client_count),
        wrapper.builds(client_count, r) <==> wrapper.builder.builds_for(client_count, r),
{
}

/// Clients start at zero along every axis, facing nowhere in particular.
pub proof fn worlds_start_at_zero()
    ensures
        origin().inner_loc.x == 0,
        origin().inner_loc.y == 0,
        origin().inner_loc.z == 0,
        origin().yaw.bits == 0,
        origin().yaw.steps == 0,
        origin().pitch.bits == 0,
        origin().pitch.steps == 0,
{
}

/// A client that joins is told of its own profile, has the next id, and is where clients start
/// once it accepts its first teleport. Its connection is the one that it logged in on.
pub proof fn newcomers_start_where_clients_start<F, R, W, C>(
    server: MCServer<F>,
    connection: MCConnection<R, W, C>,
    welcome: Welcome<R, W, C>,
)
    requires
        server.welcomes(Some(connection), welcome),
    ensures
        !(welcome is Passed),
        welcome is Dropped <==> connection.logged_in,
        welcome is Compressing <==> !connection.logged_in && server.compression_threshold is Some,
        match welcome {
            Welcome::Joined { packet, player } => {
                &&& packet@ matches LoginPacket::LoginGameProfile { game_profile } && game_profile
                    == connection.profile@
                &&& player.entity_id == server.entity_count
                &&& player.current_player_position == server.initial_location
                &&& player.pending_position.location == server.initial_location
                &&& !player.pending_position.is_loaded
                &&& !player.pending_position.on_ground
                &&& player.pending_position.pending_teleport is Some
                &&& ({
                    let arrived = after_packet(
                        player.pending_position,
                        ServerboundPlayRegistry::AcceptTeleportation { teleportation_id: 0 },
                    );
                    arrived.location == server.initial_location && arrived.pending_teleport is None
                })
                &&& player.server_player.logged_in
                &&& player.server_player.profile == connection.profile
                &&& player.server_player.reader == connection.reader
                &&& player.server_player.writer == connection.writer
                &&& player.server_player.cipher == connection.cipher
                &&& player.server_player.compression_threshold == connection.compression_threshold
                &&& player.server_player.connection_information
                    == connection.connection_information
            },
            Welcome::Compressing { packet, connection: after } => {
                &&& packet@ matches LoginPacket::LoginCompression { threshold } && Some(threshold)
                    == server.compression_threshold
                &&& after.compression_threshold == server.compression_threshold
                &&& !after.logged_in
                &&& after.profile == connection.profile
                &&& after.reader == connection.reader
                &&& after.writer == connection.writer
                &&& after.cipher == connection.cipher
                &&& after.connection_information == connection.connection_information
            },
            _ => true,
        },
{
}

/// Two clients that join one after the other have different ids.
pub proof fn neighbours_have_different_ids<F, R, W, C>(
    server: MCServer<F>,
    first: MCConnection<R, W, C>,
    second: MCConnection<R, W, C>,
    welcome: Welcome<R, W, C>,
    next: Welcome<R, W, C>,
)
    requires
        server.welcomes(Some(first), welcome),
        server.after(Visit::Joins).welcomes(Some(second), next),
        welcome is Joined,
        next is Joined,
    ensures
        welcome->player.entity_id != next->player.entity_id,
{
}

} // verus!
