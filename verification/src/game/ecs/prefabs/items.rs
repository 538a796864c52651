//! Items that lie in the world until a tank drives over them.

use crate::game::ecs::collision::{CollisionClass, CollisionComponent, CollisionScript};
use crate::game::ecs::color::ColorComponent;
use crate::game::ecs::Entity;
use crate::game::ecs::health::Health;
use crate::game::ecs::item::{InventoryComponent, Item, ItemUseScript, PickUpComponent};
use crate::game::ecs::position::Position;
use crate::game::graphics::MeshType;
use crate::misc::scalar::{Scalar, ZERO};
use crate::misc::typeset::{spec_empty, TypeSet};
use crate::net::event::Handle;
use vstd::prelude::*;

verus! {

/// The health that a healing item restores to.
pub const FULL_HEALTH: u8 = 50;

/// An entity with `item` in its inventory, if it has an inventory and the
/// inventory is empty.
pub open spec fn spec_given(entity: Entity, item: Item) -> Entity {
    match entity.components.inventory {
        Some(inventory) if inventory.item.is_none() => Entity {
            components: TypeSet {
                inventory: Some(InventoryComponent { item: Some(item), has_changed: true }),
                ..entity.components
            },
            ..entity
        },
        _ => entity,
    }
}

/// Whether the entity can take an item: it has an inventory, and the
/// inventory is empty.
pub open spec fn spec_takes(entity: Entity) -> bool {
    match entity.components.inventory {
        Some(inventory) => inventory.item.is_none(),
        None => false,
    }
}

/// The script of an item that lies in the world: if the other entity can
/// take it, the item moves into the other's inventory and leaves the world.
pub open spec fn spec_pickup(entities: Seq<Entity>, me: int, other: int) -> Seq<Entity> {
    if spec_takes(entities[other]) {
        let given = entities.update(
            other,
            spec_given(entities[other], entities[me].components.pick_up.unwrap().item),
        );
        given.update(me, Entity { deleted: true, ..given[me] })
    } else {
        entities
    }
}

/// Reacts to a collision of the item at index `me` with the entity at index
/// `other`.
pub fn pickup_script(me: usize, other: usize, entities: &mut Vec<Entity>)
    requires
        me < old(entities).len(),
        other < old(entities).len(),
        old(entities)[me as int].components.pick_up.is_some(),
    ensures
        final(entities)@ == spec_pickup(old(entities)@, me as int, other as int),
{
    let item = match entities[me].get_component::<PickUpComponent>() {
        Some(item) => item.get_item(),
        None => (MeshType::Default, ItemUseScript::Heal),
    };
    let mut taken = false;
    if let Some(inventory) = entities[other].get_component_mut::<InventoryComponent>() {
        if !inventory.has_item() {
            inventory.put_item(item);
            taken = true;
        }
    }
    if taken {
        entities[me].delete();
    }
    assert(entities@ =~= spec_pickup(old(entities)@, me as int, other as int));
}

/// The health after a healing item: half of what is missing to fifty comes
/// back. Health above fifty stays as it is.
pub open spec fn spec_healed_health(health: Health) -> Health {
    if health.health <= FULL_HEALTH {
        health.with_health(((FULL_HEALTH - health.health) / 2 + health.health) as u8)
    } else {
        health
    }
}

/// An entity after it used a healing item.
pub open spec fn spec_healed(user: Entity) -> Entity {
    match user.components.health {
        Some(health) => Entity {
            components: TypeSet { health: Some(spec_healed_health(health)), ..user.components },
            ..user
        },
        None => user,
    }
}

/// Uses a healing item on `user`.
pub fn heal_item_script(user: &mut Entity)
    ensures
        *final(user) == spec_healed(*old(user)),
{
    if let Some(health) = user.get_component_mut::<Health>() {
        let current = health.get_health();
        if current <= FULL_HEALTH {
            health.set_health((FULL_HEALTH - current) / 2 + current);
        }
    }
}

/// The item that `heal_item` builds.
pub open spec fn spec_heal_item(handle: Handle, x: Scalar, y: Scalar) -> Entity {
    Entity {
        components: TypeSet {
            mesh_type: Some(MeshType::Heal),
            position: Some(Position { x, y, angle: ZERO, has_changed: true }),
            color: Some(
                ColorComponent { red: 255, green: 0, blue: 0, alpha: 255, has_changed: true },
            ),
            collision: Some(
                CollisionComponent {
                    handle,
                    class: CollisionClass::Item,
                    script: CollisionScript::PickUp,
                },
            ),
            pick_up: Some(PickUpComponent { item: (MeshType::Heal, ItemUseScript::Heal) }),
            ..spec_empty()
        },
        deleted: false,
        handle,
    }
}

/// A red healing item that lies at `x`, `y`.
pub fn heal_item(handle: Handle, x: Scalar, y: Scalar) -> (heal: Entity)
    ensures
        heal == spec_heal_item(handle, x, y),
{
    let mut heal = Entity::new(handle);
    heal.put_component(MeshType::Heal);
    heal.put_component(Position::new(x, y, ZERO));
    heal.put_component(ColorComponent::new(255, 0, 0, 255));
    heal.put_component(CollisionComponent::new_item(handle, CollisionScript::PickUp));
    heal.put_component(PickUpComponent::new((MeshType::Heal, ItemUseScript::Heal)));
    heal
}

} // verus!
