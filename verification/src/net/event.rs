//! The closed vocabulary of facts exchanged between the server and its
//! clients.

use crate::game::graphics::{Color, MeshType};
use crate::game::keyboard::KeyCode;
use crate::misc::scalar::Scalar;
use vstd::prelude::*;

verus! {

/// Identity of an entity.
pub type Handle = u64;

/// The handle that stands for "no entity".
pub const NULL_HANDLE: Handle = 0;

/// A fact sent from one peer to another. Events are the only values that
/// cross the network.
#[derive(Debug, Clone, PartialEq)]
pub enum Event {
    /// The client is connected and waiting.
    Ready,
    /// The server has both clients; choose a map or wait for events.
    Standby,
    /// All events describing the map have been sent; the game begins.
    Start,
    /// The entity is at `x`, `y`, facing `angle`.
    Movement(Handle, Scalar, Scalar, Scalar),
    /// A client's wish to move an entity. Superseded by `KeyDown` and
    /// `KeyUp`, still understood on the wire.
    RequestMovement(Handle, Scalar, Scalar, Scalar),
    /// An application-defined kind and payload.
    Custom(u32, Vec<u8>),
    /// The handle of the entity that the receiving client controls.
    Yield(Handle),
    /// A new entity and the mesh to draw it with.
    Spawn(Handle, MeshType),
    /// The entity's inventory now shows this mesh.
    PickUp(Handle, MeshType),
    /// The entity is gone.
    Despawn(Handle),
    /// A key went down on the client's keyboard.
    KeyDown(KeyCode),
    /// A key was released on the client's keyboard.
    KeyUp(KeyCode),
    /// The entity's health.
    Health(Handle, u8),
    /// The entity's color.
    Color(Handle, Color),
    /// The entity's width and height.
    Dimension(Handle, Scalar, Scalar),
    /// The game has ended.
    GameOver,
    /// The chosen map.
    MapChoice(usize),
}

/// An event as a mathematical value: the payload of a custom event is a
/// sequence of bytes.
pub ghost enum EventView {
    Ready,
    Standby,
    Start,
    Movement(Handle, Scalar, Scalar, Scalar),
    RequestMovement(Handle, Scalar, Scalar, Scalar),
    Custom(u32, Seq<u8>),
    Yield(Handle),
    Spawn(Handle, MeshType),
    PickUp(Handle, MeshType),
    Despawn(Handle),
    KeyDown(KeyCode),
    KeyUp(KeyCode),
    Health(Handle, u8),
    Color(Handle, Color),
    Dimension(Handle, Scalar, Scalar),
    GameOver,
    MapChoice(usize),
}

impl View for Event {
    type V = EventView;

    open spec fn view(&self) -> EventView {
        match *self {
            Event::Ready => EventView::Ready,
            Event::Standby => EventView::Standby,
            Event::Start => EventView::Start,
            Event::Movement(handle, x, y, angle) => EventView::Movement(handle, x, y, angle),
            Event::RequestMovement(handle, x, y, angle) => EventView::RequestMovement(
                handle,
                x,
                y,
                angle,
            ),
            Event::Custom(kind, data) => EventView::Custom(kind, data@),
            Event::Yield(handle) => EventView::Yield(handle),
            Event::Spawn(handle, mesh_type) => EventView::Spawn(handle, mesh_type),
            Event::PickUp(handle, mesh_type) => EventView::PickUp(handle, mesh_type),
            Event::Despawn(handle) => EventView::Despawn(handle),
            Event::KeyDown(key_code) => EventView::KeyDown(key_code),
            Event::KeyUp(key_code) => EventView::KeyUp(key_code),
            Event::Health(handle, health) => EventView::Health(handle, health),
            Event::Color(handle, color) => EventView::Color(handle, color),
            Event::Dimension(handle, width, height) => EventView::Dimension(handle, width, height),
            Event::GameOver => EventView::GameOver,
            Event::MapChoice(map_index) => EventView::MapChoice(map_index),
        }
    }
}

/// Routes each event to the handler for its variant.
///
/// An implementor says with `handled` what receiving an event does to it and
/// writes one handler per variant; `handle` picks the handler.
pub trait EventListener: Sized {
    /// Whether `post` is a state that receiving `event` on connection
    /// `conn_index` can leave behind when started from `pre`.
    spec fn handled(pre: Self, conn_index: usize, event: EventView, post: Self) -> bool;

    /// Submits an event, received on connection `conn_index`, to the handler
    /// for its variant.
    fn handle(&mut self, conn_index: usize, event: Event)
        ensures
            Self::handled(*old(self), conn_index, event@, *final(self)),
    {
        match event {
            Event::Ready => self.on_ready(conn_index),
            Event::Standby => self.on_standby(conn_index),
            Event::Start => self.on_start(conn_index),
            Event::Movement(handle, x, y, angle) => {
                self.on_movement(conn_index, handle, x, y, angle)
            },
            Event::RequestMovement(handle, x, y, angle) => {
                self.on_request_movement(conn_index, handle, x, y, angle)
            },
            Event::Custom(kind, data) => self.on_custom(conn_index, kind, data),
            Event::Yield(handle) => self.on_yield(conn_index, handle),
            Event::Spawn(handle, mesh_type) => self.on_spawn(conn_index, handle, mesh_type),
            Event::PickUp(handle, mesh_type) => self.on_pick_up(conn_index, handle, mesh_type),
            Event::Despawn(handle) => self.on_despawn(conn_index, handle),
            Event::KeyDown(key_code) => self.on_key_down(conn_index, key_code),
            Event::KeyUp(key_code) => self.on_key_up(conn_index, key_code),
            Event::Health(handle, health) => self.on_health(conn_index, handle, health),
            Event::Color(handle, color) => self.on_color(conn_index, handle, color),
            Event::Dimension(handle, width, height) => self.on_dimension(
                conn_index,
                handle,
                width,
                height,
            ),
            Event::GameOver => self.on_game_over(conn_index),
            Event::MapChoice(map_index) => self.on_map(conn_index, map_index),
        }
    }

    fn on_ready(&mut self, conn_index: usize)
        ensures
            Self::handled(*old(self), conn_index, EventView::Ready, *final(self)),
    ;

    fn on_standby(&mut self, conn_index: usize)
        ensures
            Self::handled(*old(self), conn_index, EventView::Standby, *final(self)),
    ;

    fn on_start(&mut self, conn_index: usize)
        ensures
            Self::handled(*old(self), conn_index, EventView::Start, *final(self)),
    ;

    fn on_movement(
        &mut self,
        conn_index: usize,
        handle: Handle,
        x: Scalar,
        y: Scalar,
        angle: Scalar,
    )
        ensures
            Self::handled(
                *old(self),
                conn_index,
                EventView::Movement(handle, x, y, angle),
                *final(self),
            ),
    ;

    fn on_request_movement(
        &mut self,
        conn_index: usize,
        handle: Handle,
        x: Scalar,
        y: Scalar,
        angle: Scalar,
    )
        ensures
            Self::handled(
                *old(self),
                conn_index,
                EventView::RequestMovement(handle, x, y, angle),
                *final(self),
            ),
    ;

    fn on_custom(&mut self, conn_index: usize, kind: u32, data: Vec<u8>)
        ensures
            Self::handled(*old(self), conn_index, EventView::Custom(kind, data@), *final(self)),
    ;

    fn on_yield(&mut self, conn_index: usize, handle: Handle)
        ensures
            Self::handled(*old(self), conn_index, EventView::Yield(handle), *final(self)),
    ;

    fn on_spawn(&mut self, conn_index: usize, handle: Handle, mesh_type: MeshType)
        ensures
            Self::handled(*old(self), conn_index, EventView::Spawn(handle, mesh_type), *final(self)),
    ;

    fn on_pick_up(&mut self, conn_index: usize, handle: Handle, mesh_type: MeshType)
        ensures
            Self::handled(
                *old(self),
                conn_index,
                EventView::PickUp(handle, mesh_type),
                *final(self),
            ),
    ;

    fn on_despawn(&mut self, conn_index: usize, handle: Handle)
        ensures
            Self::handled(*old(self), conn_index, EventView::Despawn(handle), *final(self)),
    ;

    fn on_key_up(&mut self, conn_index: usize, key_code: KeyCode)
        ensures
            Self::handled(*old(self), conn_index, EventView::KeyUp(key_code), *final(self)),
    ;

    fn on_key_down(&mut self, conn_index: usize, key_code: KeyCode)
        ensures
            Self::handled(*old(self), conn_index, EventView::KeyDown(key_code), *final(self)),
    ;

    fn on_health(&mut self, conn_index: usize, handle: Handle, health: u8)
        ensures
            Self::handled(*old(self), conn_index, EventView::Health(handle, health), *final(self)),
    ;

    fn on_color(&mut self, conn_index: usize, handle: Handle, color: Color)
        ensures
            Self::handled(*old(self), conn_index, EventView::Color(handle, color), *final(self)),
    ;

    fn on_dimension(&mut self, conn_index: usize, handle: Handle, width: Scalar, height: Scalar)
        ensures
            Self::handled(
                *old(self),
                conn_index,
                EventView::Dimension(handle, width, height),
                *final(self),
            ),
    ;

    fn on_game_over(&mut self, conn_index: usize)
        ensures
            Self::handled(*old(self), conn_index, EventView::GameOver, *final(self)),
    ;

    fn on_map(&mut self, conn_index: usize, map_index: usize)
        ensures
            Self::handled(*old(self), conn_index, EventView::MapChoice(map_index), *final(self)),
    ;
}

} // verus!
