//! Entities, their components, and the systems that advance them.
//!
//! An entity is a handle, a store of components and a deletion flag. Which
//! components an entity holds is all there is to its kind.

pub mod collision;
pub mod color;
pub mod control;
pub mod death;
pub mod health;
pub mod item;
pub mod npc;
pub mod position;
pub mod prefabs;
pub mod scale;
pub mod ttl;
pub mod velocity;

pub use collision::{
    hitbox_from_class, CollisionClass, CollisionComponent, CollisionScript, CollisionSystem, Hitbox,
    Shape,
};
pub use color::{ColorComponent, ColorSystem};
pub use control::{ControlComponent, ControlScript, ControlSystem, Drive, Steering};
pub use death::{DeathComponent, DeathScript, ReaperSystem};
pub use health::{Health, HealthSystem};
pub use item::{InventoryComponent, InventorySystem, Item, ItemUseScript, PickUpComponent};
pub use npc::{npc, NpcSteering, NpcSystem, NPC};
pub use position::{Position, PositionWatcherSystem};
pub use scale::{Scale, ScaleSystem};
pub use ttl::{TimeToLive, TtlSystem};
pub use velocity::{Motion, Velocity, VelocitySystem};

use crate::misc::typeset::{spec_borrowed, spec_empty, Component, TypeSet};
use crate::net::event::Handle;
use vstd::prelude::*;

verus! {

/// A thing in the game world: a handle, components, and a flag that says
/// whether it is to be removed at the end of the tick.
#[derive(Debug)]
pub struct Entity {
    pub components: TypeSet,
    pub deleted: bool,
    pub handle: Handle,
}

impl Entity {
    /// An entity without components.
    pub fn new(handle: Handle) -> (entity: Self)
        ensures
            entity == (Entity { components: spec_empty(), deleted: false, handle }),
    {
        Entity { components: TypeSet::new(), deleted: false, handle }
    }

    /// The same entity under another handle. Lets whoever owns the entity
    /// list give out handles, while anyone may build entities.
    pub fn change_handle(self, new_handle: Handle) -> (entity: Self)
        ensures
            entity == (Entity { handle: new_handle, ..self }),
    {
        Entity { components: self.components, deleted: self.deleted, handle: new_handle }
    }

    pub fn get_handle(&self) -> (handle: Handle)
        ensures
            handle == self.handle,
    {
        self.handle
    }

    /// Attaches a component, replacing the one of its type if there is one.
    pub fn put_component<C: Component>(&mut self, component: C)
        ensures
            *final(self) == (Entity {
                components: C::with_slot(old(self).components, Some(component)),
                ..*old(self)
            }),
            C::slot(final(self).components) == Some(component),
    {
        self.components.insert::<C>(component);
    }

    /// Whether the entity has a component of type `C`.
    pub fn has_component<C: Component>(&self) -> (r: bool)
        ensures
            r == C::slot(self.components).is_some(),
    {
        self.components.contains::<C>()
    }

    /// The component of type `C`, if the entity has one.
    pub fn get_component<C: Component>(&self) -> (component: Option<&C>)
        ensures
            spec_borrowed(component, C::slot(self.components)),
    {
        self.components.get::<C>()
    }

    /// The component of type `C` for writing, if the entity has one.
    pub fn get_component_mut<C: Component>(&mut self) -> (component: Option<&mut C>)
        ensures
            match component {
                Some(component) => C::slot(old(self).components) == Some(*component) && *final(self)
                    == (Entity {
                    components: C::with_slot(old(self).components, Some(*final(component))),
                    ..*old(self)
                }),
                None => C::slot(old(self).components).is_none() && *final(self) == *old(self),
            },
    {
        self.components.get_mut::<C>()
    }

    /// Marks the entity for removal at the end of the tick.
    pub fn delete(&mut self)
        ensures
            *final(self) == (Entity { deleted: true, ..*old(self) }),
    {
        self.deleted = true;
    }

    /// Whether the entity is marked for removal.
    pub fn deleted(&self) -> (deleted: bool)
        ensures
            deleted == self.deleted,
    {
        self.deleted
    }
}

impl Clone for Entity {
    /// An entity with the same handle, components and deletion flag.
    fn clone(&self) -> (copy: Self)
        ensures
            copy == *self,
    {
        Entity { components: self.components, deleted: self.deleted, handle: self.handle }
    }
}

} // verus!
