//! The authoritative side of a session: the server that owns the world and
//! the two connections, and it alone changes either.
//!
//! The server is a state machine that the host drives. The host moves bytes
//! between the sockets and the connections, keeps time, and works out the
//! numbers that take real arithmetic; the server decides everything else.

pub mod context;
pub mod handles;
pub mod laws;
pub mod maps;
pub mod session;
pub mod tick;

pub use context::{spec_key_views, spec_spawn_queued, ContextView, ServerCommand, ServerContext};
pub use maps::client_color;
pub use session::START_ENTITY_COUNT;
pub use tick::{Input, Request};

use crate::game::ecs::Entity;
use crate::game::graphics::MeshType;
use crate::game::keyboard::{KeyCode, KeySet};
use crate::net::connection::{spec_frame, Connection, ConnectionView};
use crate::net::event::{Event, EventView, Handle};
use crate::net::protocol::Protocol;
use std::collections::VecDeque;
use vstd::prelude::*;

verus! {

/// Number of clients in a session.
pub const CLIENT_COUNT: usize = 2;

/// Number of tanks that steer themselves.
pub const NPC_COUNT: usize = 1;

/// Number of input devices: one per client, then one per self-steering
/// tank.
pub const INPUT_DEVICE_COUNT: usize = 3;

/// The input device of the self-steering tank.
pub const NPC_INPUT_DEVICE: usize = 2;

/// Handle of the first client's tank.
pub const PLAYER1_HANDLE: Handle = 1;

/// Handle of the second client's tank.
pub const PLAYER2_HANDLE: Handle = 2;

/// A pass over the entities.
#[derive(Clone, Copy, Debug, PartialEq, Eq, Structural)]
pub enum SystemKind {
    /// Self-steering tanks decide which keys they hold.
    Npc,
    /// Held keys become speed, angle, bullets and used items.
    Control,
    /// Entities that ran into each other react.
    Collision,
    /// Moving entities move.
    Velocity,
    /// Changes of position are reported.
    PositionWatcher,
    /// Changes of size are reported.
    Scale,
    /// Changes of color are reported.
    Color,
    /// Changes of health are reported.
    Health,
    /// Countdowns run; what ran out is marked for removal.
    Ttl,
    /// Changes of inventories are reported.
    Inventory,
    /// What is marked for removal does its last act.
    Reaper,
}

/// The passes of one tick in the order in which they run. Later passes rely
/// on what earlier ones settled: collisions must be resolved before
/// positions are advanced, and the reaper must see every deletion.
pub open spec fn spec_pipeline() -> Seq<SystemKind> {
    seq![
        SystemKind::Npc,
        SystemKind::Control,
        SystemKind::Collision,
        SystemKind::Velocity,
        SystemKind::PositionWatcher,
        SystemKind::Scale,
        SystemKind::Color,
        SystemKind::Health,
        SystemKind::Ttl,
        SystemKind::Inventory,
        SystemKind::Reaper,
    ]
}

/// The passes of one tick in the order in which they run.
pub fn pipeline() -> (systems: Vec<SystemKind>)
    ensures
        systems@ == spec_pipeline(),
{
    let mut systems: Vec<SystemKind> = Vec::new();
    systems.push(SystemKind::Npc);
    systems.push(SystemKind::Control);
    systems.push(SystemKind::Collision);
    systems.push(SystemKind::Velocity);
    systems.push(SystemKind::PositionWatcher);
    systems.push(SystemKind::Scale);
    systems.push(SystemKind::Color);
    systems.push(SystemKind::Health);
    systems.push(SystemKind::Ttl);
    systems.push(SystemKind::Inventory);
    systems.push(SystemKind::Reaper);
    assert(systems@ =~= spec_pipeline());
    systems
}

/// Where a session stands.
#[derive(Clone, Copy, Debug, PartialEq, Eq, Structural)]
pub enum Phase {
    /// Waiting until both clients have said that they are ready.
    AwaitingClients,
    /// Waiting for the choice of a map.
    AwaitingMapChoice,
    /// The game is on.
    Running,
    /// The game has been declared over and the clients have yet to be told.
    GameOver,
}

/// The server as a mathematical value.
pub ghost struct ServerView {
    /// The connections to the two clients.
    pub clients: Seq<ConnectionView>,
    /// Where the session stands.
    pub phase: Phase,
    /// Which clients have said that they are ready.
    pub ready: Seq<bool>,
    /// The handle given out last.
    pub last_handle: Handle,
    /// The keys held on each input device.
    pub pressed_keys: Seq<Set<KeyCode>>,
    /// The pass that a tick in progress runs next, if a tick is in progress.
    pub stage: Option<SystemKind>,
    /// The entities of the world.
    pub entities: Seq<Entity>,
    /// The events waiting to be broadcast, oldest first.
    pub events: Seq<Event>,
    /// Whether the game has been declared over.
    pub game_over: bool,
}

impl ServerView {
    /// Whether the server has its two clients and three input devices.
    pub open spec fn well_formed(self) -> bool {
        &&& self.clients.len() == CLIENT_COUNT
        &&& self.ready.len() == CLIENT_COUNT
        &&& self.pressed_keys.len() == INPUT_DEVICE_COUNT
    }
}

/// The authoritative side of a session. It owns the world and the two
/// connections, and it alone changes either.
pub struct Server<PROTOCOL: Protocol> {
    clients: Vec<Connection<PROTOCOL>>,
    phase: Phase,
    ready: Vec<bool>,
    last_handle: Handle,
    pressed_keys: Vec<KeySet>,
    stage: Option<SystemKind>,
    entities: Vec<Entity>,
    events: VecDeque<Event>,
    game_over: bool,
}

/// The views of a list of connections.
pub open spec fn spec_client_views<P: Protocol>(
    clients: Seq<Connection<P>>,
) -> Seq<ConnectionView> {
    clients.map_values(|client: Connection<P>| client@)
}

impl<PROTOCOL: Protocol> View for Server<PROTOCOL> {
    type V = ServerView;

    closed spec fn view(&self) -> ServerView {
        ServerView {
            clients: spec_client_views(self.clients@),
            phase: self.phase,
            ready: self.ready@,
            last_handle: self.last_handle,
            pressed_keys: spec_key_views(self.pressed_keys@),
            stage: self.stage,
            entities: self.entities@,
            events: self.events@,
            game_over: self.game_over,
        }
    }
}

/// The connections after an event has been sent on the one at `index`.
pub open spec fn spec_sent<P: Protocol>(
    clients: Seq<ConnectionView>,
    index: int,
    event: EventView,
) -> Seq<ConnectionView> {
    clients.update(
        index,
        ConnectionView {
            unsent: clients[index].unsent + spec_frame(P::encoded(event)),
            ..clients[index]
        },
    )
}

/// The connections after an event has been sent on each of the first `count`
/// of them.
pub open spec fn spec_broadcast<P: Protocol>(
    clients: Seq<ConnectionView>,
    event: EventView,
    count: int,
) -> Seq<ConnectionView>
    decreases count,
{
    if count <= 0 {
        clients
    } else {
        spec_sent::<P>(spec_broadcast::<P>(clients, event, count - 1), count - 1, event)
    }
}

/// The mesh that an entity is announced with: its own, or the default.
pub open spec fn spec_mesh(entity: Entity) -> MeshType {
    match entity.components.mesh_type {
        Some(mesh_type) => mesh_type,
        None => MeshType::Default,
    }
}

/// The server after an entity has joined the world: the entity stands last
/// in the list, and a `Spawn` event announces it.
pub open spec fn spec_spawned(server: ServerView, entity: Entity) -> ServerView {
    ServerView {
        events: server.events.push(Event::Spawn(entity.handle, spec_mesh(entity))),
        entities: server.entities.push(entity),
        ..server
    }
}

/// The server between two games: no entity, no held key, no queued event,
/// no tick in progress, and the game not over. The connections, the session and the handle given
/// out last stay.
pub open spec fn spec_purged(server: ServerView) -> ServerView {
    ServerView {
        game_over: false,
        pressed_keys: Seq::new(server.pressed_keys.len(), |i: int| Set::<KeyCode>::empty()),
        stage: None,
        entities: Seq::empty(),
        events: Seq::empty(),
        ..server
    }
}

impl<PROTOCOL: Protocol> Server<PROTOCOL> {
    /// A server for two clients, waiting for them to be ready.
    pub fn new(client1: Connection<PROTOCOL>, client2: Connection<PROTOCOL>) -> (server: Self)
        ensures
            server@ == (ServerView {
                clients: seq![client1@, client2@],
                phase: Phase::AwaitingClients,
                ready: seq![false, false],
                last_handle: (PLAYER2_HANDLE + 1) as u64,
                pressed_keys: seq![
                    Set::<KeyCode>::empty(),
                    Set::<KeyCode>::empty(),
                    Set::<KeyCode>::empty(),
                ],
                stage: None,
                entities: Seq::empty(),
                events: Seq::empty(),
                game_over: false,
            }),
            server@.well_formed(),
    {
        let mut clients: Vec<Connection<PROTOCOL>> = Vec::new();
        clients.push(client1);
        clients.push(client2);
        let mut ready: Vec<bool> = Vec::new();
        ready.push(false);
        ready.push(false);
        let mut pressed_keys: Vec<KeySet> = Vec::new();
        pressed_keys.push(KeySet::new());
        pressed_keys.push(KeySet::new());
        pressed_keys.push(KeySet::new());
        let server = Server {
            clients,
            phase: Phase::AwaitingClients,
            ready,
            last_handle: PLAYER2_HANDLE + 1,
            pressed_keys,
            stage: None,
            entities: Vec::new(),
            events: VecDeque::new(),
            game_over: false,
        };
        proof {
            assert(server@.clients =~= seq![client1@, client2@]);
            assert(server@.ready =~= seq![false, false]);
            assert(server@.pressed_keys =~= seq![
                Set::<KeyCode>::empty(),
                Set::<KeyCode>::empty(),
                Set::<KeyCode>::empty(),
            ]);
        }
        server
    }

    /// Where the session stands.
    pub fn phase(&self) -> (phase: Phase)
        ensures
            phase == self@.phase,
    {
        self.phase
    }

    /// Whether the game has been declared over.
    pub fn game_over(&self) -> (game_over: bool)
        ensures
            game_over == self@.game_over,
    {
        self.game_over
    }

    /// The handle given out last.
    pub fn last_handle(&self) -> (last_handle: Handle)
        ensures
            last_handle == self@.last_handle,
    {
        self.last_handle
    }

    /// The events waiting to be broadcast, oldest first.
    pub fn events(&self) -> (events: &VecDeque<Event>)
        ensures
            events@ == self@.events,
    {
        &self.events
    }

    /// The keys held on an input device.
    pub fn pressed_keys(&self, input_device_index: usize) -> (keys: &KeySet)
        requires
            input_device_index < self@.pressed_keys.len(),
        ensures
            keys@ == self@.pressed_keys[input_device_index as int],
    {
        &self.pressed_keys[input_device_index]
    }

    /// The entities of the world.
    pub fn entities(&self) -> (entities: &Vec<Entity>)
        ensures
            entities@ == self@.entities,
    {
        &self.entities
    }

    /// The connection to a client, for the host to move bytes in and out.
    /// What the caller leaves in the loan is the connection afterwards.
    pub fn client_mut(&mut self, client_index: usize) -> (client: &mut Connection<PROTOCOL>)
        requires
            client_index < old(self)@.clients.len(),
        ensures
            client@ == old(self)@.clients[client_index as int],
            final(self)@ == (ServerView {
                clients: old(self)@.clients.update(client_index as int, final(client)@),
                ..old(self)@
            }),
    {
        let client = &mut self.clients[client_index];
        proof {
            assert(spec_client_views(old(self).clients@.update(client_index as int, *final(client)))
                =~= old(self)@.clients.update(client_index as int, final(client)@));
        }
        client
    }

    /// Resets the world between two games.
    pub fn purge_state(&mut self)
        ensures
            final(self)@ == spec_purged(old(self)@),
    {
        self.game_over = false;
        let count = self.pressed_keys.len();
        let mut i: usize = 0;
        while i < count
            invariant
                i <= count,
                count == self.pressed_keys.len(),
                forall|j: int|
                    0 <= j < i ==> (#[trigger] self.pressed_keys[j])@ == Set::<KeyCode>::empty(),
                !self.game_over,
                self.clients == old(self).clients,
                self.phase == old(self).phase,
                self.ready == old(self).ready,
                self.last_handle == old(self).last_handle,
                count == old(self).pressed_keys.len(),
            decreases count - i,
        {
            self.pressed_keys.set(i, KeySet::new());
            i += 1;
        }
        self.stage = None;
        self.entities.clear();
        self.events.clear();
        proof {
            assert(self@.pressed_keys =~= spec_purged(old(self)@).pressed_keys);
            assert(self@.entities =~= Seq::<Entity>::empty());
            assert(self@.events =~= Seq::<Event>::empty());
        }
    }

    /// Sends an event to every client.
    pub fn broadcast_event(&mut self, event: &Event)
        ensures
            final(self)@ == (ServerView {
                clients: spec_broadcast::<PROTOCOL>(
                    old(self)@.clients,
                    event@,
                    old(self)@.clients.len() as int,
                ),
                ..old(self)@
            }),
    {
        let count = self.clients.len();
        let mut i: usize = 0;
        while i < count
            invariant
                i <= count,
                count == self.clients.len(),
                self@ == (ServerView {
                    clients: spec_broadcast::<PROTOCOL>(old(self)@.clients, event@, i as int),
                    ..old(self)@
                }),
                spec_broadcast::<PROTOCOL>(old(self)@.clients, event@, i as int).len() == count,
            decreases count - i,
        {
            let ghost before = self.clients@;
            self.clients[i].send(event);
            proof {
                assert(spec_client_views(self.clients@) =~= spec_sent::<PROTOCOL>(
                    spec_client_views(before),
                    i as int,
                    event@,
                ));
            }
            i += 1;
        }
    }

    /// Adds an entity to the world and queues the event that announces it.
    /// The entity keeps its handle, which must not be in use.
    pub fn spawn(&mut self, entity: Entity)
        ensures
            final(self)@ == spec_spawned(old(self)@, entity),
    {
        let handle = entity.get_handle();
        let mesh_type = match entity.get_component::<MeshType>() {
            Some(mesh_type) => *mesh_type,
            None => MeshType::default(),
        };
        self.events.push_back(Event::Spawn(handle, mesh_type));
        self.entities.push(entity);
    }
}

} // verus!
