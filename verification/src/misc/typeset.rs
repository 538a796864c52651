//! A store that holds at most one value of each component type.

use crate::game::ecs::collision::CollisionComponent;
use crate::game::ecs::color::ColorComponent;
use crate::game::ecs::control::ControlComponent;
use crate::game::ecs::death::DeathComponent;
use crate::game::ecs::health::Health;
use crate::game::ecs::item::InventoryComponent;
use crate::game::ecs::item::PickUpComponent;
use crate::game::ecs::npc::NPC;
use crate::game::ecs::position::Position;
use crate::game::ecs::scale::Scale;
use crate::game::ecs::ttl::TimeToLive;
use crate::game::ecs::velocity::Velocity;
use crate::game::graphics::MeshType;
use vstd::prelude::*;

verus! {

/// Holds at most one value of each component type. Looking a type up gives
/// the one value of exactly that type, or nothing.
///
/// The set of component types is closed: each has a slot of its own, so a
/// lookup costs the same whatever the store holds.
#[derive(Clone, Copy, Debug)]
pub struct TypeSet {
    pub position: Option<Position>,
    pub velocity: Option<Velocity>,
    pub health: Option<Health>,
    pub color: Option<ColorComponent>,
    pub scale: Option<Scale>,
    pub collision: Option<CollisionComponent>,
    pub time_to_live: Option<TimeToLive>,
    pub inventory: Option<InventoryComponent>,
    pub pick_up: Option<PickUpComponent>,
    pub control: Option<ControlComponent>,
    pub death: Option<DeathComponent>,
    pub npc: Option<NPC>,
    pub mesh_type: Option<MeshType>,
    pub firing: Option<bool>,
}

/// A type that has a slot in a `TypeSet`.
pub trait Component: Sized {
    /// What the store holds for this type.
    spec fn slot(set: TypeSet) -> Option<Self>;

    /// The store with `value` in the slot of this type and every other slot
    /// as it was.
    spec fn with_slot(set: TypeSet, value: Option<Self>) -> TypeSet;

    /// Puts `value` in the slot, replacing what was there.
    fn store(set: &mut TypeSet, value: Self)
        ensures
            *final(set) == Self::with_slot(*old(set), Some(value)),
            Self::slot(*final(set)) == Some(value),
    ;

    /// Reads the slot.
    fn peek(set: &TypeSet) -> (element: Option<&Self>)
        ensures
            spec_borrowed(element, Self::slot(*set)),
    ;

    /// Lends the content of the slot for writing. What the caller leaves in
    /// the loan is what the slot holds afterwards.
    fn peek_mut(set: &mut TypeSet) -> (element: Option<&mut Self>)
        ensures
            match element {
                Some(element) => Self::slot(*old(set)) == Some(*element) && *final(set)
                    == Self::with_slot(*old(set), Some(*final(element))),
                None => Self::slot(*old(set)).is_none() && *final(set) == *old(set),
            },
    ;

    /// Empties the slot and returns what was there.
    fn take(set: &mut TypeSet) -> (element: Option<Self>)
        ensures
            element == Self::slot(*old(set)),
            *final(set) == Self::with_slot(*old(set), None),
            Self::slot(*final(set)).is_none(),
    ;
}

/// Whether a borrowed lookup result shows the value `held`.
pub open spec fn spec_borrowed<T>(element: Option<&T>, held: Option<T>) -> bool {
    match element {
        Some(element) => held == Some(*element),
        None => held.is_none(),
    }
}

/// The store that holds nothing.
pub open spec fn spec_empty() -> TypeSet {
    TypeSet {
            position: None,
            velocity: None,
            health: None,
            color: None,
            scale: None,
            collision: None,
            time_to_live: None,
            inventory: None,
            pick_up: None,
            control: None,
            death: None,
            npc: None,
            mesh_type: None,
            firing: None,
    }
}

impl TypeSet {
    /// The store that holds nothing.
    pub fn new() -> (set: Self)
        ensures
            set == spec_empty(),
    {
        TypeSet {
            position: None,
            velocity: None,
            health: None,
            color: None,
            scale: None,
            collision: None,
            time_to_live: None,
            inventory: None,
            pick_up: None,
            control: None,
            death: None,
            npc: None,
            mesh_type: None,
            firing: None,
        }
    }

    /// Puts `element` in the slot of its type, replacing what was there.
    pub fn insert<E: Component>(&mut self, element: E)
        ensures
            *final(self) == E::with_slot(*old(self), Some(element)),
            E::slot(*final(self)) == Some(element),
    {
        E::store(self, element)
    }

    /// Whether the store holds a value of type `E`.
    pub fn contains<E: Component>(&self) -> (r: bool)
        ensures
            r == E::slot(*self).is_some(),
    {
        E::peek(self).is_some()
    }

    /// The value of type `E`, if the store holds one.
    pub fn get<E: Component>(&self) -> (element: Option<&E>)
        ensures
            spec_borrowed(element, E::slot(*self)),
    {
        E::peek(self)
    }

    /// The value of type `E` for writing, if the store holds one.
    pub fn get_mut<E: Component>(&mut self) -> (element: Option<&mut E>)
        ensures
            match element {
                Some(element) => E::slot(*old(self)) == Some(*element) && *final(self)
                    == E::with_slot(*old(self), Some(*final(element))),
                None => E::slot(*old(self)).is_none() && *final(self) == *old(self),
            },
    {
        E::peek_mut(self)
    }

    /// Takes the value of type `E` out of the store, if it holds one.
    pub fn remove<E: Component>(&mut self) -> (element: Option<E>)
        ensures
            element == E::slot(*old(self)),
            *final(self) == E::with_slot(*old(self), None),
            E::slot(*final(self)).is_none(),
    {
        E::take(self)
    }

    /// Empties every slot.
    pub fn clear(&mut self)
        ensures
            *final(self) == spec_empty(),
    {
        *self = TypeSet::new();
    }
}

impl Component for Position {
    open spec fn slot(set: TypeSet) -> Option<Self> {
        set.position
    }

    open spec fn with_slot(set: TypeSet, value: Option<Self>) -> TypeSet {
        TypeSet { position: value, ..set }
    }

    fn store(set: &mut TypeSet, value: Self) {
        set.position = Some(value);
    }

    fn peek(set: &TypeSet) -> (element: Option<&Self>) {
        set.position.as_ref()
    }

    fn peek_mut(set: &mut TypeSet) -> (element: Option<&mut Self>) {
        set.position.as_mut()
    }

    fn take(set: &mut TypeSet) -> (element: Option<Self>) {
        let element = set.position;
        set.position = None;
        element
    }
}

impl Component for Velocity {
    open spec fn slot(set: TypeSet) -> Option<Self> {
        set.velocity
    }

    open spec fn with_slot(set: TypeSet, value: Option<Self>) -> TypeSet {
        TypeSet { velocity: value, ..set }
    }

    fn store(set: &mut TypeSet, value: Self) {
        set.velocity = Some(value);
    }

    fn peek(set: &TypeSet) -> (element: Option<&Self>) {
        set.velocity.as_ref()
    }

    fn peek_mut(set: &mut TypeSet) -> (element: Option<&mut Self>) {
        set.velocity.as_mut()
    }

    fn take(set: &mut TypeSet) -> (element: Option<Self>) {
        let element = set.velocity;
        set.velocity = None;
        element
    }
}

impl Component for Health {
    open spec fn slot(set: TypeSet) -> Option<Self> {
        set.health
    }

    open spec fn with_slot(set: TypeSet, value: Option<Self>) -> TypeSet {
        TypeSet { health: value, ..set }
    }

    fn store(set: &mut TypeSet, value: Self) {
        set.health = Some(value);
    }

    fn peek(set: &TypeSet) -> (element: Option<&Self>) {
        set.health.as_ref()
    }

    fn peek_mut(set: &mut TypeSet) -> (element: Option<&mut Self>) {
        set.health.as_mut()
    }

    fn take(set: &mut TypeSet) -> (element: Option<Self>) {
        let element = set.health;
        set.health = None;
        element
    }
}

impl Component for ColorComponent {
    open spec fn slot(set: TypeSet) -> Option<Self> {
        set.color
    }

    open spec fn with_slot(set: TypeSet, value: Option<Self>) -> TypeSet {
        TypeSet { color: value, ..set }
    }

    fn store(set: &mut TypeSet, value: Self) {
        set.color = Some(value);
    }

    fn peek(set: &TypeSet) -> (element: Option<&Self>) {
        set.color.as_ref()
    }

    fn peek_mut(set: &mut TypeSet) -> (element: Option<&mut Self>) {
        set.color.as_mut()
    }

    fn take(set: &mut TypeSet) -> (element: Option<Self>) {
        let element = set.color;
        set.color = None;
        element
    }
}

impl Component for Scale {
    open spec fn slot(set: TypeSet) -> Option<Self> {
        set.scale
    }

    open spec fn with_slot(set: TypeSet, value: Option<Self>) -> TypeSet {
        TypeSet { scale: value, ..set }
    }

    fn store(set: &mut TypeSet, value: Self) {
        set.scale = Some(value);
    }

    fn peek(set: &TypeSet) -> (element: Option<&Self>) {
        set.scale.as_ref()
    }

    fn peek_mut(set: &mut TypeSet) -> (element: Option<&mut Self>) {
        set.scale.as_mut()
    }

    fn take(set: &mut TypeSet) -> (element: Option<Self>) {
        let element = set.scale;
        set.scale = None;
        element
    }
}

impl Component for CollisionComponent {
    open spec fn slot(set: TypeSet) -> Option<Self> {
        set.collision
    }

    open spec fn with_slot(set: TypeSet, value: Option<Self>) -> TypeSet {
        TypeSet { collision: value, ..set }
    }

    fn store(set: &mut TypeSet, value: Self) {
        set.collision = Some(value);
    }

    fn peek(set: &TypeSet) -> (element: Option<&Self>) {
        set.collision.as_ref()
    }

    fn peek_mut(set: &mut TypeSet) -> (element: Option<&mut Self>) {
        set.collision.as_mut()
    }

    fn take(set: &mut TypeSet) -> (element: Option<Self>) {
        let element = set.collision;
        set.collision = None;
        element
    }
}

impl Component for TimeToLive {
    open spec fn slot(set: TypeSet) -> Option<Self> {
        set.time_to_live
    }

    open spec fn with_slot(set: TypeSet, value: Option<Self>) -> TypeSet {
        TypeSet { time_to_live: value, ..set }
    }

    fn store(set: &mut TypeSet, value: Self) {
        set.time_to_live = Some(value);
    }

    fn peek(set: &TypeSet) -> (element: Option<&Self>) {
        set.time_to_live.as_ref()
    }

    fn peek_mut(set: &mut TypeSet) -> (element: Option<&mut Self>) {
        set.time_to_live.as_mut()
    }

    fn take(set: &mut TypeSet) -> (element: Option<Self>) {
        let element = set.time_to_live;
        set.time_to_live = None;
        element
    }
}

impl Component for InventoryComponent {
    open spec fn slot(set: TypeSet) -> Option<Self> {
        set.inventory
    }

    open spec fn with_slot(set: TypeSet, value: Option<Self>) -> TypeSet {
        TypeSet { inventory: value, ..set }
    }

    fn store(set: &mut TypeSet, value: Self) {
        set.inventory = Some(value);
    }

    fn peek(set: &TypeSet) -> (element: Option<&Self>) {
        set.inventory.as_ref()
    }

    fn peek_mut(set: &mut TypeSet) -> (element: Option<&mut Self>) {
        set.inventory.as_mut()
    }

    fn take(set: &mut TypeSet) -> (element: Option<Self>) {
        let element = set.inventory;
        set.inventory = None;
        element
    }
}

impl Component for PickUpComponent {
    open spec fn slot(set: TypeSet) -> Option<Self> {
        set.pick_up
    }

    open spec fn with_slot(set: TypeSet, value: Option<Self>) -> TypeSet {
        TypeSet { pick_up: value, ..set }
    }

    fn store(set: &mut TypeSet, value: Self) {
        set.pick_up = Some(value);
    }

    fn peek(set: &TypeSet) -> (element: Option<&Self>) {
        set.pick_up.as_ref()
    }

    fn peek_mut(set: &mut TypeSet) -> (element: Option<&mut Self>) {
        set.pick_up.as_mut()
    }

    fn take(set: &mut TypeSet) -> (element: Option<Self>) {
        let element = set.pick_up;
        set.pick_up = None;
        element
    }
}

impl Component for ControlComponent {
    open spec fn slot(set: TypeSet) -> Option<Self> {
        set.control
    }

    open spec fn with_slot(set: TypeSet, value: Option<Self>) -> TypeSet {
        TypeSet { control: value, ..set }
    }

    fn store(set: &mut TypeSet, value: Self) {
        set.control = Some(value);
    }

    fn peek(set: &TypeSet) -> (element: Option<&Self>) {
        set.control.as_ref()
    }

    fn peek_mut(set: &mut TypeSet) -> (element: Option<&mut Self>) {
        set.control.as_mut()
    }

    fn take(set: &mut TypeSet) -> (element: Option<Self>) {
        let element = set.control;
        set.control = None;
        element
    }
}

impl Component for DeathComponent {
    open spec fn slot(set: TypeSet) -> Option<Self> {
        set.death
    }

    open spec fn with_slot(set: TypeSet, value: Option<Self>) -> TypeSet {
        TypeSet { death: value, ..set }
    }

    fn store(set: &mut TypeSet, value: Self) {
        set.death = Some(value);
    }

    fn peek(set: &TypeSet) -> (element: Option<&Self>) {
        set.death.as_ref()
    }

    fn peek_mut(set: &mut TypeSet) -> (element: Option<&mut Self>) {
        set.death.as_mut()
    }

    fn take(set: &mut TypeSet) -> (element: Option<Self>) {
        let element = set.death;
        set.death = None;
        element
    }
}

impl Component for NPC {
    open spec fn slot(set: TypeSet) -> Option<Self> {
        set.npc
    }

    open spec fn with_slot(set: TypeSet, value: Option<Self>) -> TypeSet {
        TypeSet { npc: value, ..set }
    }

    fn store(set: &mut TypeSet, value: Self) {
        set.npc = Some(value);
    }

    fn peek(set: &TypeSet) -> (element: Option<&Self>) {
        set.npc.as_ref()
    }

    fn peek_mut(set: &mut TypeSet) -> (element: Option<&mut Self>) {
        set.npc.as_mut()
    }

    fn take(set: &mut TypeSet) -> (element: Option<Self>) {
        let element = set.npc;
        set.npc = None;
        element
    }
}

impl Component for MeshType {
    open spec fn slot(set: TypeSet) -> Option<Self> {
        set.mesh_type
    }

    open spec fn with_slot(set: TypeSet, value: Option<Self>) -> TypeSet {
        TypeSet { mesh_type: value, ..set }
    }

    fn store(set: &mut TypeSet, value: Self) {
        set.mesh_type = Some(value);
    }

    fn peek(set: &TypeSet) -> (element: Option<&Self>) {
        set.mesh_type.as_ref()
    }

    fn peek_mut(set: &mut TypeSet) -> (element: Option<&mut Self>) {
        set.mesh_type.as_mut()
    }

    fn take(set: &mut TypeSet) -> (element: Option<Self>) {
        let element = set.mesh_type;
        set.mesh_type = None;
        element
    }
}

impl Component for bool {
    open spec fn slot(set: TypeSet) -> Option<Self> {
        set.firing
    }

    open spec fn with_slot(set: TypeSet, value: Option<Self>) -> TypeSet {
        TypeSet { firing: value, ..set }
    }

    fn store(set: &mut TypeSet, value: Self) {
        set.firing = Some(value);
    }

    fn peek(set: &TypeSet) -> (element: Option<&Self>) {
        set.firing.as_ref()
    }

    fn peek_mut(set: &mut TypeSet) -> (element: Option<&mut Self>) {
        set.firing.as_mut()
    }

    fn take(set: &mut TypeSet) -> (element: Option<Self>) {
        let element = set.firing;
        set.firing = None;
        element
    }
}

} // verus!
