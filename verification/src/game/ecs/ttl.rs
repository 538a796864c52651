//! A countdown after which an entity removes itself.

use crate::game::ecs::Entity;
use crate::game::server::ServerContext;
use crate::misc::typeset::TypeSet;
use vstd::prelude::*;

verus! {

/// The time an entity still has to live, in microseconds.
#[derive(Clone, Copy, Debug, PartialEq, Eq)]
pub struct TimeToLive(pub u64);

impl TimeToLive {
    pub fn new(time_to_live: u64) -> (ttl: Self)
        ensures
            ttl == TimeToLive(time_to_live),
    {
        TimeToLive(time_to_live)
    }
}

/// Counts down the time that entities have left and marks those that ran
/// out for removal. This is what gets rid of bullets that hit nothing.
pub struct TtlSystem;

/// The time left after `delta_time` has passed.
pub open spec fn spec_remaining(time_to_live: u64, delta_time: u64) -> u64 {
    if time_to_live > delta_time {
        (time_to_live - delta_time) as u64
    } else {
        0
    }
}

/// An entity after `delta_time` has passed: the countdown has gone down,
/// and at zero the entity is marked for removal.
pub open spec fn spec_aged(entity: Entity, delta_time: u64) -> Entity {
    match entity.components.time_to_live {
        Some(ttl) => Entity {
            components: TypeSet {
                time_to_live: Some(TimeToLive(spec_remaining(ttl.0, delta_time))),
                ..entity.components
            },
            deleted: entity.deleted || spec_remaining(ttl.0, delta_time) == 0,
            ..entity
        },
        None => entity,
    }
}

impl TtlSystem {
    /// Takes the length of the tick off every countdown and marks the
    /// entities whose countdown reached zero for removal.
    pub fn update(&mut self, entities: &mut Vec<Entity>, ctx: &ServerContext)
        ensures
            final(entities).len() == old(entities).len(),
            forall|i: int|
                0 <= i < old(entities).len() ==> #[trigger] final(entities)[i] == spec_aged(
                    old(entities)[i],
                    ctx@.delta_time,
                ),
    {
        let delta_time = ctx.delta_time();
        let count = entities.len();
        let mut i: usize = 0;
        while i < count
            invariant
                i <= count,
                count == entities.len(),
                count == old(entities).len(),
                delta_time == ctx@.delta_time,
                forall|j: int|
                    0 <= j < i ==> #[trigger] entities[j] == spec_aged(old(entities)[j], delta_time),
                forall|j: int| i <= j < count ==> #[trigger] entities[j] == old(entities)[j],
            decreases count - i,
        {
            let mut expired = false;
            if let Some(time_to_live) = entities[i].get_component_mut::<TimeToLive>() {
                if time_to_live.0 > delta_time {
                    time_to_live.0 = time_to_live.0 - delta_time;
                } else {
                    time_to_live.0 = 0;
                    expired = true;
                }
            }
            if expired {
                entities[i].delete();
            }
            i += 1;
        }
    }
}

} // verus!
