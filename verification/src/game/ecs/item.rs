//! Items that lie in the world, and the one slot a tank has for them.

use crate::game::ecs::Entity;
use crate::game::graphics::MeshType;
use crate::game::server::{ContextView, ServerContext};
use crate::misc::typeset::TypeSet;
use crate::net::event::Event;
use vstd::prelude::*;

verus! {

/// What using an item does to the entity that uses it.
#[derive(Clone, Copy, Debug, PartialEq, Eq, Structural)]
pub enum ItemUseScript {
    /// Restores half of the health that is missing.
    Heal,
}

/// An item: the mesh it is drawn with, and what using it does.
pub type Item = (MeshType, ItemUseScript);

/// Makes an entity something that can be picked up.
#[derive(Clone, Copy, Debug, PartialEq, Eq)]
pub struct PickUpComponent {
    pub item: Item,
}

impl PickUpComponent {
    pub fn new(item: Item) -> (component: Self)
        ensures
            component == (PickUpComponent { item }),
    {
        PickUpComponent { item }
    }

    pub fn get_item(&self) -> (item: Item)
        ensures
            item == self.item,
    {
        self.item
    }
}

/// A slot for one item, with a record of whether its content changed since
/// the change was last reported.
#[derive(Clone, Copy, Debug, PartialEq, Eq)]
pub struct InventoryComponent {
    pub item: Option<Item>,
    pub has_changed: bool,
}

impl InventoryComponent {
    /// An empty slot. It counts as changed, so that it is reported once.
    pub fn empty() -> (inventory: Self)
        ensures
            inventory == (InventoryComponent { item: None, has_changed: true }),
    {
        InventoryComponent { item: None, has_changed: true }
    }

    /// Puts an item in the slot, replacing what was there.
    pub fn put_item(&mut self, item: Item)
        ensures
            *final(self) == (InventoryComponent { item: Some(item), has_changed: true }),
    {
        self.has_changed = true;
        self.item = Some(item);
    }

    /// Takes the item out of the slot, if there is one.
    pub fn remove_item(&mut self) -> (removed_item: Option<Item>)
        ensures
            removed_item == old(self).item,
            *final(self) == (InventoryComponent {
                item: None,
                has_changed: old(self).has_changed || old(self).item.is_some(),
            }),
    {
        if self.item.is_some() {
            self.has_changed = true;
        }
        let removed_item = self.item;
        self.item = None;
        removed_item
    }

    pub fn has_item(&self) -> (r: bool)
        ensures
            r == self.item.is_some(),
    {
        self.item.is_some()
    }
}

/// Tells the clients about every change of an inventory.
pub struct InventorySystem;

/// The mesh that stands for the content of a slot.
pub open spec fn spec_shown(inventory: InventoryComponent) -> MeshType {
    match inventory.item {
        Some(item) => item.0,
        None => MeshType::Nothing,
    }
}

/// What the system reports of one entity: the mesh of the item
/// it holds, or no mesh for an empty slot, if the slot changed.
pub open spec fn spec_inventory_report(entity: Entity) -> Seq<Event> {
    match entity.components.inventory {
        Some(inventory) if inventory.has_changed => seq![Event::PickUp(entity.handle, spec_shown(inventory))],
        _ => Seq::empty(),
    }
}

/// What the system reports of a list of entities, in their order.
pub open spec fn spec_inventory_reports(entities: Seq<Entity>) -> Seq<Event>
    decreases entities.len(),
{
    if entities.len() == 0 {
        Seq::empty()
    } else {
        spec_inventory_reports(entities.drop_last()) + spec_inventory_report(entities.last())
    }
}

/// An entity once the system has seen it: the change is no longer on
/// record.
pub open spec fn spec_inventory_settled(entity: Entity) -> Entity {
    match entity.components.inventory {
        Some(inventory) => Entity {
            components: TypeSet {
                inventory: Some(InventoryComponent { has_changed: false, ..inventory }),
                ..entity.components
            },
            ..entity
        },
        None => entity,
    }
}

impl InventorySystem {
    /// Queues a `PickUp` event for every entity whose inventory changed, in
    /// the order of the entities, and clears the record of the change.
    pub fn update(&mut self, entities: &mut Vec<Entity>, ctx: &mut ServerContext)
        ensures
            final(entities).len() == old(entities).len(),
            forall|i: int|
                0 <= i < old(entities).len() ==> #[trigger] final(entities)[i]
                    == spec_inventory_settled(old(entities)[i]),
            final(ctx)@ == (ContextView {
                events: old(ctx)@.events + spec_inventory_reports(old(entities)@),
                ..old(ctx)@
            }),
    {
        let count = entities.len();
        let mut i: usize = 0;
        assert(old(ctx)@.events + spec_inventory_reports(old(entities)@.take(0)) =~= old(ctx)@.events);
        while i < count
            invariant
                i <= count,
                count == entities.len(),
                count == old(entities).len(),
                forall|j: int|
                    0 <= j < i ==> #[trigger] entities[j] == spec_inventory_settled(old(entities)[j]),
                forall|j: int| i <= j < count ==> #[trigger] entities[j] == old(entities)[j],
                ctx@ == (ContextView {
                    events: old(ctx)@.events + spec_inventory_reports(old(entities)@.take(i as int)),
                    ..old(ctx)@
                }),
            decreases count - i,
        {
            let handle = entities[i].get_handle();
            let ghost before = ctx@.events;
            proof {
                assert(old(entities)@.take(i + 1).drop_last() =~= old(entities)@.take(i as int));
            }
            if let Some(inventory) = entities[i].get_component_mut::<InventoryComponent>() {
                if inventory.has_changed {
                    inventory.has_changed = false;
                    let mesh_type = match inventory.item {
                        Some(item) => item.0,
                        None => MeshType::Nothing,
                    };
                    ctx.push_event(Event::PickUp(handle, mesh_type))
                }
            }
            proof {
                assert(ctx@.events =~= before + spec_inventory_report(old(entities)[i as int]));
                assert(ctx@.events =~= old(ctx)@.events + spec_inventory_reports(
                    old(entities)@.take(i + 1),
                ));
            }
            i += 1;
        }
        assert(old(entities)@.take(count as int) =~= old(entities)@);
    }
}

} // verus!
