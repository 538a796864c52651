//! The client's picture of the world: what the server's events have told it,
//! and which keys it has told the server about.
//!
//! Drawing the picture and reading the keyboard are the host's part. What
//! the events mean for the picture, and which key events follow from the
//! keyboard, is decided here.

use crate::game::graphics::{Color, MeshType};
use crate::game::keyboard::{key_at, spec_key_at, KeyCode, KeySet, KEY_COUNT};
use crate::game::server::{PLAYER1_HANDLE, PLAYER2_HANDLE};
use crate::misc::scalar::{less_than, spec_less_than, Scalar, ONE, ZERO};
use crate::misc::state::State;
use crate::net::connection::{
    spec_frame, spec_recv, spec_recv_multiple, spec_views, Connection, ConnectionView,
};
use crate::net::event::{Event, EventListener, EventView, Handle, NULL_HANDLE};
use crate::net::protocol::Protocol;
use std::collections::HashMap;
use std::collections::VecDeque;
use vstd::prelude::*;

verus! {

broadcast use vstd::std_specs::hash::group_hash_axioms;

/// Where an entity is drawn until the server says where it is: a hundred
/// units off the screen on both axes.
pub const OFFSCREEN: Scalar = 0xC2C8_0000;

/// How many events the client takes from its connection in one step.
pub const EVENT_LIMIT: usize = 10000;

/// Whether a key is down, and whether that changed since the server was
/// last told.
pub ghost struct KeyState {
    pub down: bool,
    pub changed: bool,
}

/// The client's picture as a mathematical value.
pub ghost struct GameView {
    /// The connection to the server.
    pub server: ConnectionView,
    /// Whether the game has started.
    pub started: bool,
    /// Where each entity is, and which way it faces.
    pub coords: Map<Handle, (Scalar, Scalar, Scalar)>,
    /// The mesh of each entity.
    pub meshes: Map<Handle, MeshType>,
    /// The width and height of each entity that has them.
    pub dimension: Map<Handle, (Scalar, Scalar)>,
    /// The state of each key, in the canonical ordering.
    pub key_states: Seq<KeyState>,
    /// The handle of the client's own tank.
    pub player_handle: Handle,
    /// The health of each entity that has it.
    pub health: Map<Handle, u8>,
    /// The color of each entity that has one.
    pub color: Map<Handle, Color>,
    /// The mesh of the item in the inventory of the client's tank.
    pub inventory: Option<MeshType>,
    /// The events that arrived while the game had not started.
    pub starting_events: Seq<EventView>,
    /// Whether the client goes on to another game after this one.
    pub should_continue: bool,
    /// Whether the game is over.
    pub game_over: bool,
}

/// What is drawn at the top of the screen: the health of the two clients'
/// tanks, each in its tank's color.
#[derive(Clone, Copy, Debug, PartialEq, Eq)]
pub struct HealthBars {
    pub right_color: Color,
    pub right_health: u8,
    pub left_color: Color,
    pub left_health: u8,
}

/// The client's picture of the world.
pub struct MyGame<PROTOCOL: Protocol> {
    server: Connection<PROTOCOL>,
    started: bool,
    coords: HashMap<Handle, (Scalar, Scalar, Scalar)>,
    meshes: HashMap<Handle, MeshType>,
    dimension: HashMap<Handle, (Scalar, Scalar)>,
    key_states: Vec<State<bool>>,
    player_handle: Handle,
    health: HashMap<Handle, u8>,
    color: HashMap<Handle, Color>,
    inventory: Option<MeshType>,
    starting_events: VecDeque<Event>,
    should_continue: bool,
    game_over: bool,
}

/// The state of a key.
pub open spec fn spec_key_state(state: State<bool>) -> KeyState {
    KeyState { down: state.value(), changed: state.is_invalidated() }
}

/// The states of a list of keys.
pub open spec fn spec_key_states(states: Seq<State<bool>>) -> Seq<KeyState> {
    states.map_values(|state: State<bool>| spec_key_state(state))
}

impl<PROTOCOL: Protocol> View for MyGame<PROTOCOL> {
    type V = GameView;

    closed spec fn view(&self) -> GameView {
        GameView {
            server: self.server@,
            started: self.started,
            coords: self.coords@,
            meshes: self.meshes@,
            dimension: self.dimension@,
            key_states: spec_key_states(self.key_states@),
            player_handle: self.player_handle,
            health: self.health@,
            color: self.color@,
            inventory: self.inventory,
            starting_events: spec_views(self.starting_events@),
            should_continue: self.should_continue,
            game_over: self.game_over,
        }
    }
}

/// The picture after an event has been received.
pub open spec fn spec_client_handled(game: GameView, event: EventView) -> GameView {
    match event {
        EventView::Movement(handle, x, y, angle) => if game.coords.contains_key(handle) {
            GameView { coords: game.coords.insert(handle, (x, y, angle)), ..game }
        } else {
            game
        },
        EventView::Yield(handle) => GameView { player_handle: handle, ..game },
        EventView::Spawn(handle, mesh_type) => GameView {
            coords: game.coords.insert(handle, (OFFSCREEN, OFFSCREEN, ZERO)),
            meshes: game.meshes.insert(handle, mesh_type),
            ..game
        },
        EventView::PickUp(handle, mesh_type) => if handle == game.player_handle {
            GameView {
                inventory: if mesh_type == MeshType::Nothing {
                    None
                } else {
                    Some(mesh_type)
                },
                ..game
            }
        } else {
            game
        },
        EventView::Despawn(handle) => GameView {
            coords: game.coords.remove(handle),
            meshes: game.meshes.remove(handle),
            ..game
        },
        EventView::Health(handle, health) => GameView {
            health: game.health.insert(handle, health),
            ..game
        },
        EventView::Color(handle, color) => GameView {
            color: game.color.insert(handle, color),
            ..game
        },
        EventView::Dimension(handle, width, height) => GameView {
            dimension: game.dimension.insert(handle, (width, height)),
            ..game
        },
        EventView::GameOver => GameView { should_continue: true, game_over: true, ..game },
        _ => game,
    }
}

/// The picture after a list of events has been received, in order.
pub open spec fn spec_client_handled_all(game: GameView, events: Seq<EventView>) -> GameView
    decreases events.len(),
{
    if events.len() == 0 {
        game
    } else {
        spec_client_handled(spec_client_handled_all(game, events.drop_last()), events.last())
    }
}

/// The picture after a client that waits for the start of the game has
/// listened once. Whatever arrives before the start is kept for later,
/// except the news that the game is over, which ends the wait as well.
pub open spec fn spec_awaited_start<P: Protocol>(game: GameView) -> GameView {
    let taken = GameView {
        server: ConnectionView { arrived: spec_recv::<P>(game.server.arrived).1, ..game.server },
        ..game
    };
    match spec_recv::<P>(game.server.arrived).0 {
        Some(EventView::Start) => GameView { started: true, ..taken },
        Some(EventView::GameOver) => GameView { game_over: true, started: true, ..taken },
        Some(event) => GameView { starting_events: taken.starting_events.push(event), ..taken },
        None => taken,
    }
}

/// The handle of the entity that a movement event moves.
pub open spec fn spec_movement_handle(event: EventView) -> Option<Handle> {
    match event {
        EventView::Movement(handle, _, _, _) => Some(handle),
        _ => None,
    }
}

/// The events of a list that are no movement events, in their order.
pub open spec fn spec_others(events: Seq<EventView>) -> Seq<EventView>
    decreases events.len(),
{
    if events.len() == 0 {
        Seq::empty()
    } else if spec_movement_handle(events.last()).is_some() {
        spec_others(events.drop_last())
    } else {
        spec_others(events.drop_last()).push(events.last())
    }
}

/// The position, among the first `count` events, of the last one that moves
/// the entity with the given handle.
pub open spec fn spec_last_index(events: Seq<EventView>, count: int, handle: Handle) -> Option<int>
    decreases count,
{
    if count <= 0 {
        None
    } else if spec_movement_handle(events[count - 1]) == Some(handle) {
        Some(count - 1)
    } else {
        spec_last_index(events, count - 1, handle)
    }
}

/// Whether the event at position `i` is a movement event and no later event
/// moves the same entity.
pub open spec fn spec_is_latest(events: Seq<EventView>, i: int) -> bool {
    match spec_movement_handle(events[i]) {
        Some(handle) => spec_last_index(events, events.len() as int, handle) == Some(i),
        None => false,
    }
}

/// Of the first `count` events, the movement events that no later event of
/// the whole list overrides, in their order.
pub open spec fn spec_latest_movements(events: Seq<EventView>, count: int) -> Seq<EventView>
    decreases count,
{
    if count <= 0 {
        Seq::empty()
    } else if spec_is_latest(events, count - 1) {
        spec_latest_movements(events, count - 1).push(events[count - 1])
    } else {
        spec_latest_movements(events, count - 1)
    }
}

/// The events in the order in which the client applies them: first
/// everything that is no movement, then of each entity the last movement.
pub open spec fn spec_coalesced(events: Seq<EventView>) -> Seq<EventView> {
    spec_others(events) + spec_latest_movements(events, events.len() as int)
}

/// The picture after a batch of events has been applied.
pub open spec fn spec_dispatched(game: GameView, events: Seq<EventView>) -> GameView {
    spec_client_handled_all(game, spec_coalesced(events))
}

/// The movement events that stand for a list of handles and coordinates.
pub open spec fn spec_movements(kept: Seq<(Handle, Scalar, Scalar, Scalar)>) -> Seq<EventView> {
    kept.map_values(
        |entry: (Handle, Scalar, Scalar, Scalar)|
            EventView::Movement(entry.0, entry.1, entry.2, entry.3),
    )
}

/// The picture after one step of a started game that is not over: the
/// events that arrived before the start are applied, the keyboard is looked
/// at, the server is told of the keys that changed, and what the server has
/// sent, up to `EVENT_LIMIT` events, is applied.
pub open spec fn spec_stepped<P: Protocol>(game: GameView, pressed: Set<KeyCode>) -> GameView {
    let caught_up = spec_dispatched(
        GameView { starting_events: Seq::empty(), ..game },
        game.starting_events,
    );
    let told = spec_keys_sent::<P>(
        GameView {
            key_states: spec_keys_checked(caught_up.key_states, pressed),
            ..caught_up
        },
    );
    let received = spec_recv_multiple::<P>(told.server.arrived, EVENT_LIMIT as nat);
    spec_dispatched(
        GameView { server: ConnectionView { arrived: received.1, ..told.server }, ..told },
        received.0,
    )
}

/// The picture after one step, whatever the state of the game. Before the
/// start the client only listens for it; after the end nothing changes.
pub open spec fn spec_updated<P: Protocol>(game: GameView, pressed: Set<KeyCode>) -> GameView {
    if !game.started {
        spec_awaited_start::<P>(game)
    } else if game.game_over {
        game
    } else {
        spec_stepped::<P>(game, pressed)
    }
}

/// The state of a key after the keyboard has been looked at.
pub open spec fn spec_key_checked(state: KeyState, down: bool) -> KeyState {
    KeyState { down, changed: state.changed || state.down != down }
}

/// The states of the keys after the keyboard has been looked at. A state
/// beyond the canonical ordering belongs to no key and stays as it is.
pub open spec fn spec_keys_checked(states: Seq<KeyState>, pressed: Set<KeyCode>) -> Seq<KeyState> {
    Seq::new(
        states.len(),
        |i: int|
            match spec_key_at(i as usize) {
                Some(key) => spec_key_checked(states[i], pressed.contains(key)),
                None => states[i],
            },
    )
}

/// The event that tells the server of a key's state, if the state has
/// changed.
pub open spec fn spec_key_event(index: int, state: KeyState) -> Option<EventView> {
    match spec_key_at(index as usize) {
        Some(key) if state.changed => Some(
            if state.down {
                EventView::KeyDown(key)
            } else {
                EventView::KeyUp(key)
            },
        ),
        _ => None,
    }
}

/// What is written to the server to tell it of the first `count` keys' states.
pub open spec fn spec_key_frames<P: Protocol>(states: Seq<KeyState>, count: int) -> Seq<u8>
    decreases count,
{
    if count <= 0 {
        Seq::empty()
    } else {
        spec_key_frames::<P>(states, count - 1) + match spec_key_event(
            count - 1,
            states[count - 1],
        ) {
            Some(event) => spec_frame(P::encoded(event)),
            None => Seq::empty(),
        }
    }
}

/// The picture after the server has been told of every key whose state has
/// changed.
pub open spec fn spec_keys_sent<P: Protocol>(game: GameView) -> GameView {
    GameView {
        key_states: Seq::new(
            game.key_states.len(),
            |i: int| KeyState { changed: false, ..game.key_states[i] },
        ),
        server: ConnectionView {
            unsent: game.server.unsent + spec_key_frames::<P>(
                game.key_states,
                game.key_states.len() as int,
            ),
            ..game.server
        },
        ..game
    }
}

/// The handle of the other client's tank, if its health is known. It is
/// the tank of a client, not the client's own, whose health is known.
pub open spec fn spec_opponent(game: GameView) -> Option<Handle> {
    if game.player_handle != PLAYER2_HANDLE && game.health.contains_key(PLAYER2_HANDLE) {
        Some(PLAYER2_HANDLE)
    } else if game.player_handle != PLAYER1_HANDLE && game.health.contains_key(PLAYER1_HANDLE) {
        Some(PLAYER1_HANDLE)
    } else {
        None
    }
}

/// The color that is known of an entity, or white.
pub open spec fn spec_color_of(game: GameView, handle: Handle) -> Color {
    if game.color.contains_key(handle) {
        game.color[handle]
    } else {
        Color { r: 255, g: 255, b: 255, a: 255 }
    }
}

/// The health that is known of an entity, or zero.
pub open spec fn spec_health_of(game: GameView, handle: Handle) -> u8 {
    if game.health.contains_key(handle) {
        game.health[handle]
    } else {
        0
    }
}

/// The horizontal coordinate that is known of an entity, or zero.
pub open spec fn spec_x_of(game: GameView, handle: Handle) -> Scalar {
    if game.coords.contains_key(handle) {
        game.coords[handle].0
    } else {
        ZERO
    }
}

/// The health bars of a picture. The tank with the smaller horizontal
/// coordinate gets the bar named right, the other the bar named left.
/// Without an opponent the opponent's side shows no health, in white, and
/// counts as standing at zero.
pub open spec fn spec_health_bars(game: GameView) -> HealthBars {
    let player_color = spec_color_of(game, game.player_handle);
    let player_health = spec_health_of(game, game.player_handle);
    let player_x = spec_x_of(game, game.player_handle);
    let (opponent_color, opponent_health, opponent_x) = match spec_opponent(game) {
        Some(handle) => (
            spec_color_of(game, handle),
            spec_health_of(game, handle),
            spec_x_of(game, handle),
        ),
        None => (Color { r: 255, g: 255, b: 255, a: 255 }, 0u8, ZERO),
    };
    if spec_less_than(player_x, opponent_x) {
        HealthBars {
            right_color: player_color,
            right_health: player_health,
            left_color: opponent_color,
            left_health: opponent_health,
        }
    } else {
        HealthBars {
            right_color: opponent_color,
            right_health: opponent_health,
            left_color: player_color,
            left_health: player_health,
        }
    }
}

impl<PROTOCOL: Protocol> MyGame<PROTOCOL> {
    /// An empty picture: nothing is known yet, no key is down, and the game
    /// has not started.
    pub fn new(remote: Connection<PROTOCOL>) -> (game: Self)
        ensures
            game@ == (GameView {
                server: remote@,
                started: false,
                coords: Map::empty(),
                meshes: Map::empty(),
                dimension: Map::empty(),
                key_states: Seq::new(
                    KEY_COUNT as nat,
                    |i: int| KeyState { down: false, changed: false },
                ),
                player_handle: NULL_HANDLE,
                health: Map::empty(),
                color: Map::empty(),
                inventory: None,
                starting_events: Seq::empty(),
                should_continue: false,
                game_over: false,
            }),
    {
        let mut key_states: Vec<State<bool>> = Vec::new();
        let mut i: usize = 0;
        while i < KEY_COUNT
            invariant
                i <= KEY_COUNT,
                key_states.len() == i,
                forall|j: int|
                    0 <= j < i ==> !(#[trigger] key_states[j]).value() && !key_states[j].is_invalidated(),
            decreases KEY_COUNT - i,
        {
            key_states.push(State::new(false));
            i += 1;
        }
        let game = MyGame {
            server: remote,
            started: false,
            coords: HashMap::new(),
            meshes: HashMap::new(),
            dimension: HashMap::new(),
            key_states,
            player_handle: NULL_HANDLE,
            health: HashMap::new(),
            color: HashMap::new(),
            inventory: None,
            starting_events: VecDeque::new(),
            should_continue: false,
            game_over: false,
        };
        assert(game@.key_states =~= Seq::new(
            KEY_COUNT as nat,
            |i: int| KeyState { down: false, changed: false },
        ));
        assert(game@.starting_events =~= Seq::<EventView>::empty());
        game
    }

    /// Whether two pictures differ at most in the states of the keys and in
    /// the connection.
    spec fn same_world(&self, other: &Self) -> bool {
        &&& self.started == other.started
        &&& self.coords == other.coords
        &&& self.meshes == other.meshes
        &&& self.dimension == other.dimension
        &&& self.player_handle == other.player_handle
        &&& self.health == other.health
        &&& self.color == other.color
        &&& self.inventory == other.inventory
        &&& self.starting_events == other.starting_events
        &&& self.should_continue == other.should_continue
        &&& self.game_over == other.game_over
    }

    /// Whether the game has started.
    pub fn started(&self) -> (started: bool)
        ensures
            started == self@.started,
    {
        self.started
    }

    /// Whether the game is over.
    pub fn game_over(&self) -> (game_over: bool)
        ensures
            game_over == self@.game_over,
    {
        self.game_over
    }

    /// Whether the client goes on to another game after this one.
    pub fn should_continue(&self) -> (should_continue: bool)
        ensures
            should_continue == self@.should_continue,
    {
        self.should_continue
    }

    /// The handle of the client's own tank.
    pub fn player_handle(&self) -> (handle: Handle)
        ensures
            handle == self@.player_handle,
    {
        self.player_handle
    }

    /// The mesh of the item in the inventory of the client's tank.
    pub fn inventory(&self) -> (inventory: Option<MeshType>)
        ensures
            inventory == self@.inventory,
    {
        self.inventory
    }

    /// Where each entity is, and which way it faces.
    pub fn coords(&self) -> (coords: &HashMap<Handle, (Scalar, Scalar, Scalar)>)
        ensures
            coords@ == self@.coords,
    {
        &self.coords
    }

    /// The mesh of each entity.
    pub fn meshes(&self) -> (meshes: &HashMap<Handle, MeshType>)
        ensures
            meshes@ == self@.meshes,
    {
        &self.meshes
    }

    /// The color of each entity that has one.
    pub fn colors(&self) -> (colors: &HashMap<Handle, Color>)
        ensures
            colors@ == self@.color,
    {
        &self.color
    }

    /// The health of each entity that has it.
    pub fn healths(&self) -> (healths: &HashMap<Handle, u8>)
        ensures
            healths@ == self@.health,
    {
        &self.health
    }

    /// The connection to the server, for the host to move bytes in and out,
    /// and to hand the connection on when the picture is done with. What
    /// the caller leaves in the loan is the connection afterwards.
    pub fn server_mut(&mut self) -> (server: &mut Connection<PROTOCOL>)
        ensures
            server@ == old(self)@.server,
            final(self)@ == (GameView { server: final(server)@, ..old(self)@ }),
    {
        &mut self.server
    }

    /// Gives up the picture and hands back the connection to the server.
    pub fn into_server(self) -> (server: Connection<PROTOCOL>)
        ensures
            server@ == self@.server,
    {
        self.server
    }

    /// The width and height of an entity. An entity for which none are
    /// known is one by one.
    pub fn get_dimensions(&self, handle: Handle) -> (dimensions: (Scalar, Scalar))
        ensures
            dimensions == (if self@.dimension.contains_key(handle) {
                self@.dimension[handle]
            } else {
                (ONE, ONE)
            }),
    {
        match self.dimension.get(&handle) {
            Some(dimensions) => *dimensions,
            None => (ONE, ONE),
        }
    }

    /// The color that is known of an entity, or white.
    fn color_of(&self, handle: Handle) -> (color: Color)
        ensures
            color == spec_color_of(self@, handle),
    {
        match self.color.get(&handle) {
            Some(color) => *color,
            None => Color::new(255, 255, 255, 255),
        }
    }

    /// The health that is known of an entity, or zero.
    fn health_of(&self, handle: Handle) -> (health: u8)
        ensures
            health == spec_health_of(self@, handle),
    {
        match self.health.get(&handle) {
            Some(health) => *health,
            None => 0,
        }
    }

    /// The horizontal coordinate that is known of an entity, or zero.
    fn x_of(&self, handle: Handle) -> (x: Scalar)
        ensures
            x == spec_x_of(self@, handle),
    {
        match self.coords.get(&handle) {
            Some(coords) => coords.0,
            None => ZERO,
        }
    }

    /// Which health goes on which side of the screen, and in which color.
    pub fn health_bars(&self) -> (bars: HealthBars)
        ensures
            bars == spec_health_bars(self@),
    {
        let player_color = self.color_of(self.player_handle);
        let player_health = self.health_of(self.player_handle);
        let player_x = self.x_of(self.player_handle);
        let opponent = if self.player_handle != PLAYER2_HANDLE && self.health.contains_key(
            &PLAYER2_HANDLE,
        ) {
            Some(PLAYER2_HANDLE)
        } else if self.player_handle != PLAYER1_HANDLE && self.health.contains_key(
            &PLAYER1_HANDLE,
        ) {
            Some(PLAYER1_HANDLE)
        } else {
            None
        };
        let (opponent_color, opponent_health, opponent_x) = match opponent {
            Some(handle) => (self.color_of(handle), self.health_of(handle), self.x_of(handle)),
            None => (Color::new(255, 255, 255, 255), 0, ZERO),
        };
        if less_than(player_x, opponent_x) {
            HealthBars {
                right_color: player_color,
                right_health: player_health,
                left_color: opponent_color,
                left_health: opponent_health,
            }
        } else {
            HealthBars {
                right_color: opponent_color,
                right_health: opponent_health,
                left_color: player_color,
                left_health: player_health,
            }
        }
    }

    /// Listens once for the start of the game. Does nothing once the game
    /// has started.
    pub fn await_start(&mut self)
        ensures
            final(self)@ == (if old(self)@.started {
                old(self)@
            } else {
                spec_awaited_start::<PROTOCOL>(old(self)@)
            }),
    {
        if !self.started {
            match self.server.recv() {
                Some(Event::Start) => self.started = true,
                Some(Event::GameOver) => {
                    self.game_over = true;
                    self.started = true;
                },
                Some(event) => {
                    let ghost before = self.starting_events@;
                    self.starting_events.push_back(event);
                    assert(spec_views(self.starting_events@) =~= spec_views(before).push(event@));
                },
                None => {},
            }
        }
    }

    /// Compares the keyboard with what the picture knows of it: a key that
    /// is down now and was not, or was down and is not, has changed.
    pub fn check_keys(&mut self, pressed: &KeySet)
        ensures
            final(self)@ == (GameView {
                key_states: spec_keys_checked(old(self)@.key_states, pressed@),
                ..old(self)@
            }),
    {
        let count = self.key_states.len();
        let mut i: usize = 0;
        while i < count
            invariant
                i <= count,
                count == self.key_states.len(),
                count == old(self).key_states.len(),
                self.same_world(old(self)),
                self.server == old(self).server,
                forall|j: int|
                    0 <= j < i ==> spec_key_state(#[trigger] self.key_states[j]) == spec_keys_checked(
                        old(self)@.key_states,
                        pressed@,
                    )[j],
                forall|j: int|
                    i <= j < count ==> (#[trigger] self.key_states[j]) == old(self).key_states[j],
            decreases count - i,
        {
            let ghost before = self.key_states@;
            assert(old(self)@.key_states[i as int] == spec_key_state(old(self).key_states[i as int]));
            if let Some(key) = key_at(i) {
                let down = pressed.contains(key);
                if down != *self.key_states[i].deref() {
                    let key_state = self.key_states[i].deref_mut();
                    *key_state = down;
                }
            }
            assert(forall|j: int| 0 <= j < count && j != i ==> self.key_states[j] == before[j]);
            i += 1;
        }
        assert(self@.key_states =~= spec_keys_checked(old(self)@.key_states, pressed@));
    }

    /// Tells the server about every key whose state has changed, in the
    /// canonical ordering of the keys, and forgets the changes.
    pub fn send_keys(&mut self)
        ensures
            final(self)@ == spec_keys_sent::<PROTOCOL>(old(self)@),
    {
        let count = self.key_states.len();
        let mut i: usize = 0;
        assert(old(self)@.server.unsent + spec_key_frames::<PROTOCOL>(old(self)@.key_states, 0)
            =~= old(self)@.server.unsent);
        while i < count
            invariant
                i <= count,
                count == self.key_states.len(),
                count == old(self).key_states.len(),
                self.same_world(old(self)),
                self.server@ == (ConnectionView {
                    unsent: old(self)@.server.unsent + spec_key_frames::<PROTOCOL>(
                        old(self)@.key_states,
                        i as int,
                    ),
                    ..old(self)@.server
                }),
                forall|j: int|
                    0 <= j < i ==> spec_key_state(#[trigger] self.key_states[j]) == (KeyState {
                        changed: false,
                        ..old(self)@.key_states[j]
                    }),
                forall|j: int|
                    i <= j < count ==> (#[trigger] self.key_states[j]) == old(self).key_states[j],
            decreases count - i,
        {
            let ghost unsent = self.server@.unsent;
            let ghost before = self.key_states@;
            assert(old(self)@.key_states[i as int] == spec_key_state(old(self).key_states[i as int]));
            if self.key_states[i].invalidated_since() {
                if let Some(key) = key_at(i) {
                    let key_event = if *self.key_states[i].deref() {
                        Event::KeyDown(key)
                    } else {
                        Event::KeyUp(key)
                    };
                    self.server.send(&key_event);
                }
            }
            proof {
                let frame = match spec_key_event(i as int, old(self)@.key_states[i as int]) {
                    Some(event) => spec_frame(PROTOCOL::encoded(event)),
                    None => Seq::<u8>::empty(),
                };
                assert(forall|j: int| 0 <= j < count && j != i ==> self.key_states[j] == before[j]);
                assert(self.server@.unsent =~= unsent + frame);
                assert(old(self)@.server.unsent + spec_key_frames::<PROTOCOL>(
                    old(self)@.key_states,
                    i + 1,
                ) =~= unsent + frame);
            }
            i += 1;
        }
        assert(self@.key_states =~= spec_keys_sent::<PROTOCOL>(old(self)@).key_states);
    }
}

impl<PROTOCOL: Protocol> MyGame<PROTOCOL> {
    /// Applies a batch of events. Of several movements of one entity only
    /// the last counts, and movements come after everything else.
    pub fn dispatch_events(&mut self, events: VecDeque<Event>)
        ensures
            final(self)@ == spec_dispatched(old(self)@, spec_views(events@)),
    {
        let mut events = events;
        let ghost given = events@;
        let ghost all = spec_views(events@);
        let total = events.len();
        let mut latest: HashMap<Handle, usize> = HashMap::new();
        let mut i: usize = 0;
        while i < total
            invariant
                i <= total,
                total == events.len(),
                events@ == given,
                all == spec_views(given),
                forall|handle: Handle|
                    (#[trigger] latest@.contains_key(handle)) == spec_last_index(
                        all,
                        i as int,
                        handle,
                    ).is_some(),
                forall|handle: Handle|
                    (#[trigger] latest@.contains_key(handle)) ==> latest@[handle] as int
                        == spec_last_index(all, i as int, handle).unwrap(),
            decreases total - i,
        {
            assert(all[i as int] == given[i as int]@);
            match &events[i] {
                Event::Movement(handle, _, _, _) => {
                    latest.insert(*handle, i);
                },
                _ => {},
            }
            i += 1;
        }
        let mut kept: Vec<(Handle, Scalar, Scalar, Scalar)> = Vec::new();
        let mut k: usize = 0;
        assert(all.take(0) =~= Seq::<EventView>::empty());
        assert(spec_movements(kept@) =~= Seq::<EventView>::empty());
        assert(events@ =~= given.skip(0));
        while k < total
            invariant
                k <= total,
                total == given.len(),
                all == spec_views(given),
                events@ == given.skip(k as int),
                self@ == spec_client_handled_all(old(self)@, spec_others(all.take(k as int))),
                spec_movements(kept@) == spec_latest_movements(all, k as int),
                forall|handle: Handle|
                    (#[trigger] latest@.contains_key(handle)) == spec_last_index(
                        all,
                        total as int,
                        handle,
                    ).is_some(),
                forall|handle: Handle|
                    (#[trigger] latest@.contains_key(handle)) ==> latest@[handle] as int
                        == spec_last_index(all, total as int, handle).unwrap(),
            decreases total - k,
        {
            let ghost before = events@;
            let ghost kept_before = kept@;
            proof {
                assert(all[k as int] == given[k as int]@);
                assert(all.take(k + 1).drop_last() =~= all.take(k as int));
                assert(all.take(k + 1).last() == all[k as int]);
            }
            let next = events.pop_front();
            assert(events@ =~= given.skip(k + 1));
            match next {
                Some(Event::Movement(handle, x, y, angle)) => {
                    let is_latest = match latest.get(&handle) {
                        Some(index) => *index == k,
                        None => false,
                    };
                    assert(is_latest == spec_is_latest(all, k as int));
                    if is_latest {
                        kept.push((handle, x, y, angle));
                        assert(spec_movements(kept@) =~= spec_movements(kept_before).push(
                            all[k as int],
                        ));
                    }
                },
                Some(event) => {
                    assert(spec_movement_handle(all[k as int]).is_none());
                    self.handle(0, event);
                    proof {
                        let so_far = spec_others(all.take(k as int));
                        assert(so_far.push(all[k as int]).drop_last() =~= so_far);
                    }
                },
                None => {},
            }
            k += 1;
        }
        assert(all.take(total as int) =~= all);
        let mut m: usize = 0;
        assert(spec_others(all) + spec_movements(kept@).take(0) =~= spec_others(all));
        while m < kept.len()
            invariant
                m <= kept.len(),
                self@ == spec_client_handled_all(
                    old(self)@,
                    spec_others(all) + spec_movements(kept@).take(m as int),
                ),
            decreases kept.len() - m,
        {
            let (handle, x, y, angle) = kept[m];
            proof {
                let so_far = spec_others(all) + spec_movements(kept@).take(m as int);
                let next = spec_others(all) + spec_movements(kept@).take(m + 1);
                assert(next.drop_last() =~= so_far);
                assert(next.last() == EventView::Movement(handle, x, y, angle));
            }
            self.handle(0, Event::Movement(handle, x, y, angle));
            m += 1;
        }
        assert(spec_movements(kept@).take(kept@.len() as int) =~= spec_movements(kept@));
    }

    /// One step of the client. `pressed` are the keys that are down on the
    /// keyboard. Returns whether the game is over and the window should
    /// close.
    pub fn update(&mut self, pressed: &KeySet) -> (quit: bool)
        ensures
            final(self)@ == spec_updated::<PROTOCOL>(old(self)@, pressed@),
            quit == (old(self)@.started && old(self)@.game_over),
    {
        if !self.started {
            self.await_start();
            false
        } else if self.game_over {
            true
        } else {
            let mut moved_events: VecDeque<Event> = VecDeque::new();
            std::mem::swap(&mut self.starting_events, &mut moved_events);
            assert(spec_views(self.starting_events@) =~= Seq::<EventView>::empty());
            self.dispatch_events(moved_events);
            // Check keys pressed or released
            self.check_keys(pressed);
            // Send info about keys whose state has changed
            self.send_keys();
            let events = self.server.recv_multiple(EVENT_LIMIT);
            self.dispatch_events(events);
            false
        }
    }
}

/// Listens once for the server's word that both clients are there. Returns
/// whether it came; whatever else arrives meanwhile is dropped. The host
/// calls this until it returns `true`.
pub fn await_standby<PROTOCOL: Protocol>(conn: &mut Connection<PROTOCOL>) -> (standby: bool)
    ensures
        standby == (spec_recv::<PROTOCOL>(old(conn)@.arrived).0 == Some(EventView::Standby)),
        final(conn)@ == (ConnectionView {
            arrived: spec_recv::<PROTOCOL>(old(conn)@.arrived).1,
            ..old(conn)@
        }),
{
    match conn.recv() {
        Some(Event::Standby) => true,
        _ => false,
    }
}

impl<PROTOCOL: Protocol> EventListener for MyGame<PROTOCOL> {
    open spec fn handled(pre: Self, conn_index: usize, event: EventView, post: Self) -> bool {
        post@ == spec_client_handled(pre@, event)
    }

    fn on_ready(&mut self, conn_index: usize) {
    }

    fn on_standby(&mut self, conn_index: usize) {
    }

    fn on_start(&mut self, conn_index: usize) {
    }

    fn on_movement(
        &mut self,
        conn_index: usize,
        handle: Handle,
        x: Scalar,
        y: Scalar,
        angle: Scalar,
    ) {
        // Only entities that have been spawned move, lest what was just
        // despawned comes back
        if self.coords.contains_key(&handle) {
            self.coords.insert(handle, (x, y, angle));
        }
    }

    fn on_request_movement(
        &mut self,
        conn_index: usize,
        handle: Handle,
        x: Scalar,
        y: Scalar,
        angle: Scalar,
    ) {
    }

    fn on_custom(&mut self, conn_index: usize, kind: u32, data: Vec<u8>) {
    }

    fn on_yield(&mut self, conn_index: usize, handle: Handle) {
        self.player_handle = handle;
    }

    fn on_spawn(&mut self, conn_index: usize, handle: Handle, mesh_type: MeshType) {
        self.coords.insert(handle, (OFFSCREEN, OFFSCREEN, ZERO));
        self.meshes.insert(handle, mesh_type);
    }

    fn on_pick_up(&mut self, conn_index: usize, handle: Handle, mesh_type: MeshType) {
        if handle == self.player_handle {
            self.inventory = match mesh_type {
                MeshType::Nothing => None,
                _ => Some(mesh_type),
            }
        }
    }

    fn on_despawn(&mut self, conn_index: usize, handle: Handle) {
        self.coords.remove(&handle);
        self.meshes.remove(&handle);
    }

    fn on_key_up(&mut self, conn_index: usize, key_code: KeyCode) {
    }

    fn on_key_down(&mut self, conn_index: usize, key_code: KeyCode) {
    }

    fn on_health(&mut self, conn_index: usize, handle: Handle, health: u8) {
        self.health.insert(handle, health);
    }

    fn on_color(&mut self, conn_index: usize, handle: Handle, color: Color) {
        self.color.insert(handle, color);
    }

    fn on_dimension(&mut self, conn_index: usize, handle: Handle, width: Scalar, height: Scalar) {
        self.dimension.insert(handle, (width, height));
    }

    fn on_game_over(&mut self, conn_index: usize) {
        self.should_continue = true;
        self.game_over = true;
    }

    fn on_map(&mut self, conn_index: usize, map_index: usize) {
    }
}

} // verus!
