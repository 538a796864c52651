//! How much damage an entity can still take.

use crate::game::ecs::Entity;
use crate::game::server::{ContextView, ServerContext};
use crate::misc::typeset::TypeSet;
use crate::net::event::Event;
use vstd::prelude::*;

verus! {

/// Health points and their upper bound, with a record of whether the points
/// changed since the change was last reported.
#[derive(Clone, Copy, Debug, PartialEq, Eq)]
pub struct Health {
    pub max_health: u8,
    pub health: u8,
    pub has_changed: bool,
}

impl Health {
    /// The health after `set_health`.
    pub open spec fn with_health(self, new_health: u8) -> Health {
        if new_health <= self.max_health {
            Health {
                health: new_health,
                has_changed: self.has_changed || new_health != self.health,
                ..self
            }
        } else {
            self
        }
    }

    /// New health counts as changed, so that it is reported once.
    pub fn new(health: u8, max_health: u8) -> (h: Self)
        ensures
            h == (Health { max_health, health, has_changed: true }),
    {
        Health { max_health, health, has_changed: true }
    }

    pub fn get_health(&self) -> (health: u8)
        ensures
            health == self.health,
    {
        self.health
    }

    /// Stores `new_health` unless it exceeds the upper bound, in which case
    /// nothing happens. Records a change if the points differ from before.
    pub fn set_health(&mut self, new_health: u8)
        ensures
            *final(self) == old(self).with_health(new_health),
    {
        if new_health <= self.max_health {
            if new_health != self.health {
                self.has_changed = true;
            }
            self.health = new_health;
        }
    }
}

/// Tells the clients about every change in health.
pub struct HealthSystem;

/// What the health system reports of one entity: its health, if that
/// changed.
pub open spec fn spec_health_report(entity: Entity) -> Seq<Event> {
    match entity.components.health {
        Some(health) if health.has_changed => seq![Event::Health(entity.handle, health.health)],
        _ => Seq::empty(),
    }
}

/// What the health system reports of a list of entities, in their order.
pub open spec fn spec_health_reports(entities: Seq<Entity>) -> Seq<Event>
    decreases entities.len(),
{
    if entities.len() == 0 {
        Seq::empty()
    } else {
        spec_health_reports(entities.drop_last()) + spec_health_report(entities.last())
    }
}

/// An entity once the health system has seen it: the change is no longer
/// on record.
pub open spec fn spec_health_settled(entity: Entity) -> Entity {
    match entity.components.health {
        Some(health) => Entity {
            components: TypeSet {
                health: Some(Health { has_changed: false, ..health }),
                ..entity.components
            },
            ..entity
        },
        None => entity,
    }
}

impl HealthSystem {
    /// Queues a `Health` event for every entity whose health changed, in the
    /// order of the entities, and clears the record of the change.
    pub fn update(&mut self, entities: &mut Vec<Entity>, ctx: &mut ServerContext)
        ensures
            final(entities).len() == old(entities).len(),
            forall|i: int|
                0 <= i < old(entities).len() ==> #[trigger] final(entities)[i]
                    == spec_health_settled(old(entities)[i]),
            final(ctx)@ == (ContextView {
                events: old(ctx)@.events + spec_health_reports(old(entities)@),
                ..old(ctx)@
            }),
    {
        let count = entities.len();
        let mut i: usize = 0;
        assert(old(ctx)@.events + spec_health_reports(old(entities)@.take(0)) =~= old(ctx)@.events);
        while i < count
            invariant
                i <= count,
                count == entities.len(),
                count == old(entities).len(),
                forall|j: int|
                    0 <= j < i ==> #[trigger] entities[j] == spec_health_settled(old(entities)[j]),
                forall|j: int| i <= j < count ==> #[trigger] entities[j] == old(entities)[j],
                ctx@ == (ContextView {
                    events: old(ctx)@.events + spec_health_reports(old(entities)@.take(i as int)),
                    ..old(ctx)@
                }),
            decreases count - i,
        {
            let handle = entities[i].get_handle();
            let ghost before = ctx@.events;
            proof {
                assert(old(entities)@.take(i + 1).drop_last() =~= old(entities)@.take(i as int));
            }
            if let Some(health) = entities[i].get_component_mut::<Health>() {
                if health.has_changed {
                    ctx.push_event(Event::Health(handle, health.health));
                    health.has_changed = false;
                }
            }
            proof {
                assert(ctx@.events =~= before + spec_health_report(old(entities)[i as int]));
                assert(ctx@.events =~= old(ctx)@.events + spec_health_reports(
                    old(entities)@.take(i + 1),
                ));
            }
            i += 1;
        }
        assert(old(entities)@.take(count as int) =~= old(entities)@);
    }
}

} // verus!
