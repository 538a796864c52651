//! The session: waiting for the clients, the choice of a map, the game, its
//! end, and what the server hears from its clients meanwhile.

use crate::game::graphics::{Color, MeshType};
use crate::game::keyboard::KeyCode;
use crate::game::server::{
    spec_broadcast, spec_client_views, spec_purged, Phase, Server, ServerView, CLIENT_COUNT,
};
use crate::game::server::maps::{
    spec_border_walls, spec_map1, spec_map2, spec_npc_spawned, spec_player_spawned,
};
use crate::misc::scalar::Scalar;
use crate::net::connection::{spec_recv, ConnectionView};
use crate::net::event::{Event, EventListener, EventView, Handle};
use crate::net::protocol::{spec_view_of, Protocol};
use vstd::prelude::*;

verus! {

/// The keys held after an event has been received on a connection: a key
/// that went down is held, a key that was released is not.
pub open spec fn spec_handled(
    server: ServerView,
    conn_index: usize,
    event: EventView,
) -> ServerView {
    if conn_index < server.pressed_keys.len() {
        match event {
            EventView::KeyDown(key_code) => ServerView {
                pressed_keys: server.pressed_keys.update(
                    conn_index as int,
                    server.pressed_keys[conn_index as int].insert(key_code),
                ),
                ..server
            },
            EventView::KeyUp(key_code) => ServerView {
                pressed_keys: server.pressed_keys.update(
                    conn_index as int,
                    server.pressed_keys[conn_index as int].remove(key_code),
                ),
                ..server
            },
            _ => server,
        }
    } else {
        server
    }
}

impl<PROTOCOL: Protocol> EventListener for Server<PROTOCOL> {
    open spec fn handled(pre: Self, conn_index: usize, event: EventView, post: Self) -> bool {
        post@ == spec_handled(pre@, conn_index, event)
    }

    fn on_ready(&mut self, conn_index: usize) {
    }

    fn on_standby(&mut self, conn_index: usize) {
    }

    fn on_start(&mut self, conn_index: usize) {
    }

    fn on_movement(
        &mut self,
        conn_index: usize,
        handle: Handle,
        x: Scalar,
        y: Scalar,
        angle: Scalar,
    ) {
    }

    fn on_request_movement(
        &mut self,
        conn_index: usize,
        handle: Handle,
        x: Scalar,
        y: Scalar,
        angle: Scalar,
    ) {
    }

    fn on_custom(&mut self, conn_index: usize, kind: u32, data: Vec<u8>) {
    }

    fn on_yield(&mut self, conn_index: usize, handle: Handle) {
    }

    fn on_spawn(&mut self, conn_index: usize, handle: Handle, mesh_type: MeshType) {
    }

    fn on_pick_up(&mut self, conn_index: usize, handle: Handle, mesh_type: MeshType) {
    }

    fn on_despawn(&mut self, conn_index: usize, handle: Handle) {
    }

    fn on_key_up(&mut self, conn_index: usize, key_code: KeyCode) {
        if conn_index < self.pressed_keys.len() {
            let mut keys = self.pressed_keys[conn_index].clone();
            keys.remove(key_code);
            self.pressed_keys.set(conn_index, keys);
            assert(self@.pressed_keys =~= old(self)@.pressed_keys.update(
                conn_index as int,
                old(self)@.pressed_keys[conn_index as int].remove(key_code),
            ));
        }
    }

    fn on_key_down(&mut self, conn_index: usize, key_code: KeyCode) {
        if conn_index < self.pressed_keys.len() {
            let mut keys = self.pressed_keys[conn_index].clone();
            keys.insert(key_code);
            self.pressed_keys.set(conn_index, keys);
            assert(self@.pressed_keys =~= old(self)@.pressed_keys.update(
                conn_index as int,
                old(self)@.pressed_keys[conn_index as int].insert(key_code),
            ));
        }
    }

    fn on_health(&mut self, conn_index: usize, handle: Handle, health: u8) {
    }

    fn on_color(&mut self, conn_index: usize, handle: Handle, color: Color) {
    }

    fn on_dimension(&mut self, conn_index: usize, handle: Handle, width: Scalar, height: Scalar) {
    }

    fn on_game_over(&mut self, conn_index: usize) {
    }

    fn on_map(&mut self, conn_index: usize, map_index: usize) {
    }
}

/// The number of entities that the start of a game adds beyond the two
/// clients' tanks: the self-steering tank, a map, the walls around it.
pub const START_ENTITY_COUNT: u64 = 11;

/// The connections after one message, if one is complete, has been taken
/// from the one at `index`.
pub open spec fn spec_polled<P: Protocol>(
    clients: Seq<ConnectionView>,
    index: int,
) -> Seq<ConnectionView> {
    clients.update(
        index,
        ConnectionView { arrived: spec_recv::<P>(clients[index].arrived).1, ..clients[index] },
    )
}

/// The event, if any, that the next message on the connection at `index`
/// stands for.
pub open spec fn spec_heard<P: Protocol>(
    clients: Seq<ConnectionView>,
    index: int,
) -> Option<EventView> {
    spec_recv::<P>(clients[index].arrived).0
}

/// Whether the client is ready after the server has listened to it once
/// more: it was ready before, or it has just said so.
pub open spec fn spec_ready_after<P: Protocol>(server: ServerView, index: int) -> bool {
    server.ready[index] || spec_heard::<P>(server.clients, index) == Some(EventView::Ready)
}

/// The server after it has listened once to each client while waiting for
/// both to be ready. Whatever a client says other than that it is ready is
/// dropped. Once both are ready, both are told to stand by, and the session
/// moves on to the choice of a map.
pub open spec fn spec_await_clients<P: Protocol>(server: ServerView) -> ServerView {
    if server.phase != Phase::AwaitingClients {
        server
    } else {
        let polled = spec_polled::<P>(spec_polled::<P>(server.clients, 0), 1);
        if spec_ready_after::<P>(server, 0) && spec_ready_after::<P>(server, 1) {
            ServerView {
                clients: spec_broadcast::<P>(polled, EventView::Standby, CLIENT_COUNT as int),
                ready: seq![false, false],
                phase: Phase::AwaitingMapChoice,
                ..server
            }
        } else {
            ServerView {
                clients: polled,
                ready: seq![spec_ready_after::<P>(server, 0), spec_ready_after::<P>(server, 1)],
                ..server
            }
        }
    }
}

/// The map that an event chooses, if it chooses one.
pub open spec fn spec_map_choice(event: Option<EventView>) -> Option<usize> {
    match event {
        Some(EventView::MapChoice(map_index)) => Some(map_index),
        _ => None,
    }
}

/// Whether the second client is listened to for the choice of a map: only
/// if it runs on the server's machine, and only if the first client has not
/// just chosen.
pub open spec fn spec_guest_chooses<P: Protocol>(server: ServerView) -> bool {
    server.clients[1].local && spec_map_choice(spec_heard::<P>(server.clients, 0)).is_none()
}

/// The map chosen when the server listens for a choice once.
pub open spec fn spec_chosen_map<P: Protocol>(server: ServerView) -> Option<usize> {
    if server.phase != Phase::AwaitingMapChoice {
        None
    } else if spec_guest_chooses::<P>(server) {
        spec_map_choice(spec_heard::<P>(server.clients, 1))
    } else {
        spec_map_choice(spec_heard::<P>(server.clients, 0))
    }
}

/// The server after it has listened for a choice once.
pub open spec fn spec_await_map_choice<P: Protocol>(server: ServerView) -> ServerView {
    if server.phase != Phase::AwaitingMapChoice {
        server
    } else if spec_guest_chooses::<P>(server) {
        ServerView {
            clients: spec_polled::<P>(spec_polled::<P>(server.clients, 0), 1),
            ..server
        }
    } else {
        ServerView { clients: spec_polled::<P>(server.clients, 0), ..server }
    }
}

/// The server after the map with the given number has been laid out. Only
/// the numbers one and two name a map.
pub open spec fn spec_map(server: ServerView, map_index: usize) -> ServerView {
    if map_index == 1 {
        spec_map1(server)
    } else if map_index == 2 {
        spec_map2(server)
    } else {
        server
    }
}

/// The server after a game has started: both clients have been told so,
/// and the self-steering tank, the clients' tanks, the map and the walls
/// around the arena have joined the world in this order. A game that was
/// declared over before it started is over at once. A server that is not
/// waiting for the choice of a map starts nothing.
pub open spec fn spec_started<P: Protocol>(
    server: ServerView,
    map_index: usize,
    target_point: (Scalar, Scalar),
) -> ServerView {
    if server.phase != Phase::AwaitingMapChoice {
        server
    } else {
        let told = ServerView {
            clients: spec_broadcast::<P>(server.clients, EventView::Start, CLIENT_COUNT as int),
            ..server
        };
        let manned = spec_player_spawned::<P>(
            spec_player_spawned::<P>(spec_npc_spawned(told, target_point), 0),
            1,
        );
        ServerView {
            phase: if server.game_over {
                Phase::GameOver
            } else {
                Phase::Running
            },
            ..spec_border_walls(spec_map(manned, map_index))
        }
    }
}

/// The server after it has listened once to the connection at `index`
/// during a game.
pub open spec fn spec_listened<P: Protocol>(server: ServerView, index: int) -> ServerView {
    let handled = match spec_heard::<P>(server.clients, index) {
        Some(event) => spec_handled(server, index as usize, event),
        None => server,
    };
    ServerView { clients: spec_polled::<P>(server.clients, index), ..handled }
}

/// The server after it has listened once to each client during a game.
pub open spec fn spec_received<P: Protocol>(server: ServerView) -> ServerView {
    if server.phase != Phase::Running {
        server
    } else {
        spec_listened::<P>(spec_listened::<P>(server, 0), 1)
    }
}

/// The connections after each of a queue of events has been sent to every
/// client, oldest first.
pub open spec fn spec_broadcast_all<P: Protocol>(
    clients: Seq<ConnectionView>,
    events: Seq<Event>,
) -> Seq<ConnectionView>
    decreases events.len(),
{
    if events.len() == 0 {
        clients
    } else {
        spec_broadcast_all::<P>(
            spec_broadcast::<P>(clients, events[0]@, clients.len() as int),
            events.skip(1),
        )
    }
}

/// The server after the game has ended: both clients have been told so, the
/// world is empty, and the session waits for the clients to be ready again.
/// Only a game that has been declared over ends.
pub open spec fn spec_ended<P: Protocol>(server: ServerView) -> ServerView {
    if server.phase == Phase::GameOver {
        ServerView {
            phase: Phase::AwaitingClients,
            ..spec_purged(
                ServerView {
                    clients: spec_broadcast::<P>(
                        server.clients,
                        EventView::GameOver,
                        server.clients.len() as int,
                    ),
                    ..server
                },
            )
        }
    } else {
        server
    }
}

/// Sending to a connection keeps the number of connections, and nothing is
/// taken from what has arrived.
pub proof fn lemma_broadcast_keeps<P: Protocol>(
    clients: Seq<ConnectionView>,
    event: EventView,
    count: int,
)
    requires
        count <= clients.len(),
    ensures
        spec_broadcast::<P>(clients, event, count).len() == clients.len(),
        forall|i: int|
            0 <= i < clients.len() ==> (#[trigger] spec_broadcast::<P>(clients, event, count)[i]).arrived
                == clients[i].arrived && spec_broadcast::<P>(clients, event, count)[i].local
                == clients[i].local,
    decreases count,
{
    if count > 0 {
        lemma_broadcast_keeps::<P>(clients, event, count - 1);
    }
}

impl<PROTOCOL: Protocol> Server<PROTOCOL> {
    /// Takes one message, if one is complete, from a client's connection.
    fn poll(&mut self, client_index: usize) -> (event: Option<Event>)
        requires
            client_index < old(self)@.clients.len(),
        ensures
            spec_view_of(event) == spec_heard::<PROTOCOL>(old(self)@.clients, client_index as int),
            final(self)@ == (ServerView {
                clients: spec_polled::<PROTOCOL>(old(self)@.clients, client_index as int),
                ..old(self)@
            }),
    {
        let ghost before = self.clients@;
        let event = self.clients[client_index].recv();
        proof {
            assert(spec_client_views(self.clients@) =~= spec_polled::<PROTOCOL>(
                spec_client_views(before),
                client_index as int,
            ));
        }
        event
    }

    /// Listens once to each client while waiting for both to be ready.
    /// Returns whether both are, in which case both have been told to stand
    /// by. The host calls this until it returns `true`.
    pub fn await_clients(&mut self) -> (all_ready: bool)
        requires
            old(self)@.well_formed(),
        ensures
            final(self)@ == spec_await_clients::<PROTOCOL>(old(self)@),
            final(self)@.well_formed(),
            all_ready == (old(self)@.phase == Phase::AwaitingClients && final(self)@.phase
                == Phase::AwaitingMapChoice),
    {
        if !matches!(self.phase, Phase::AwaitingClients) {
            return false;
        }
        let first = self.poll(0);
        let second = self.poll(1);
        if matches!(first, Some(Event::Ready)) {
            self.ready.set(0, true);
        }
        if matches!(second, Some(Event::Ready)) {
            self.ready.set(1, true);
        }
        if self.ready[0] && self.ready[1] {
            self.ready.set(0, false);
            self.ready.set(1, false);
            self.phase = Phase::AwaitingMapChoice;
            proof {
                lemma_broadcast_keeps::<PROTOCOL>(
                    self@.clients,
                    EventView::Standby,
                    CLIENT_COUNT as int,
                );
            }
            self.broadcast_event(&Event::Standby);
            assert(self@.ready =~= seq![false, false]);
            true
        } else {
            assert(self@.ready =~= seq![
                spec_ready_after::<PROTOCOL>(old(self)@, 0),
                spec_ready_after::<PROTOCOL>(old(self)@, 1),
            ]);
            false
        }
    }

    /// Listens once for the choice of a map. The choice is the first
    /// client's to make; the second is heard too if it runs on the server's
    /// machine. The host calls this until it returns a map.
    pub fn await_map_choice(&mut self) -> (map_index: Option<usize>)
        requires
            old(self)@.well_formed(),
        ensures
            final(self)@ == spec_await_map_choice::<PROTOCOL>(old(self)@),
            final(self)@.well_formed(),
            map_index == spec_chosen_map::<PROTOCOL>(old(self)@),
    {
        if !matches!(self.phase, Phase::AwaitingMapChoice) {
            return None;
        }
        let hosted_locally = self.clients[1].is_local();
        if let Some(Event::MapChoice(map_index)) = self.poll(0) {
            return Some(map_index);
        }
        if hosted_locally {
            if let Some(Event::MapChoice(map_index)) = self.poll(1) {
                return Some(map_index);
            }
        }
        None
    }

    /// Starts a game on the chosen map. `target_point` is where the
    /// self-steering tank heads first. Does nothing unless the session is
    /// waiting for the choice of a map.
    pub fn start_game(&mut self, map_index: usize, target_point: (Scalar, Scalar))
        requires
            old(self)@.well_formed(),
            old(self)@.last_handle + START_ENTITY_COUNT <= u64::MAX,
        ensures
            final(self)@ == spec_started::<PROTOCOL>(old(self)@, map_index, target_point),
            final(self)@.well_formed(),
    {
        if !matches!(self.phase, Phase::AwaitingMapChoice) {
            return ;
        }
        proof {
            lemma_broadcast_keeps::<PROTOCOL>(self@.clients, EventView::Start, CLIENT_COUNT as int);
        }
        self.broadcast_event(&Event::Start);
        self.spawn_npc(target_point);
        self.spawn_players();
        if map_index == 1 {
            self.map1();
        } else if map_index == 2 {
            self.map2();
        }
        self.spawn_border_walls();
        self.phase = if self.game_over {
            Phase::GameOver
        } else {
            Phase::Running
        };
    }

    /// Listens once to each client during a game and applies what it hears:
    /// keys that went down or were released. Does nothing unless a game is
    /// running.
    pub fn receive(&mut self)
        requires
            old(self)@.well_formed(),
        ensures
            final(self)@ == spec_received::<PROTOCOL>(old(self)@),
            final(self)@.well_formed(),
    {
        if !matches!(self.phase, Phase::Running) {
            return ;
        }
        let mut i: usize = 0;
        while i < CLIENT_COUNT
            invariant
                i <= CLIENT_COUNT,
                self@.well_formed(),
                i == 0 ==> self@ == old(self)@,
                i == 1 ==> self@ == spec_listened::<PROTOCOL>(old(self)@, 0),
                i == 2 ==> self@ == spec_listened::<PROTOCOL>(
                    spec_listened::<PROTOCOL>(old(self)@, 0),
                    1,
                ),
            decreases CLIENT_COUNT - i,
        {
            if let Some(event) = self.poll(i) {
                self.handle(i, event);
            }
            i += 1;
        }
    }

    /// Sends every queued event to both clients, oldest first.
    pub fn flush_events(&mut self)
        ensures
            final(self)@ == (ServerView {
                clients: spec_broadcast_all::<PROTOCOL>(old(self)@.clients, old(self)@.events),
                events: Seq::empty(),
                ..old(self)@
            }),
    {
        while self.events.len() > 0
            invariant
                self@ == (ServerView { clients: self@.clients, events: self@.events, ..old(self)@ }),
                spec_broadcast_all::<PROTOCOL>(old(self)@.clients, old(self)@.events)
                    == spec_broadcast_all::<PROTOCOL>(self@.clients, self@.events),
            decreases self.events.len(),
        {
            let ghost before = self@;
            if let Some(event) = self.events.pop_front() {
                proof {
                    assert(self@.events =~= before.events.skip(1));
                    assert(event == before.events[0]);
                }
                self.broadcast_event(&event)
            }
        }
        assert(self@.events =~= Seq::<Event>::empty());
    }

    /// Ends the game if it has been declared over: tells both clients, and
    /// clears the world for the next game. Returns whether the game ended.
    pub fn end_game(&mut self) -> (ended: bool)
        ensures
            final(self)@ == spec_ended::<PROTOCOL>(old(self)@),
            ended == (old(self)@.phase == Phase::GameOver),
    {
        if matches!(self.phase, Phase::GameOver) {
            self.broadcast_event(&Event::GameOver);
            self.purge_state();
            self.phase = Phase::AwaitingClients;
            true
        } else {
            false
        }
    }
}

} // verus!
