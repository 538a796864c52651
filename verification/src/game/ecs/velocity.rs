//! How fast an entity moves along its facing angle.

use crate::game::ecs::Entity;
use crate::game::ecs::position::Position;
use crate::misc::scalar::Scalar;
use crate::misc::typeset::TypeSet;
use vstd::prelude::*;

verus! {

/// Speed along the facing angle, and a turning rate.
#[derive(Clone, Copy, Debug, PartialEq)]
pub struct Velocity {
    pub velocity: Scalar,
    pub angular_velocity: Scalar,
}

impl Velocity {
    pub fn new(velocity: Scalar, angular_velocity: Scalar) -> (v: Self)
        ensures
            v == (Velocity { velocity, angular_velocity }),
    {
        Velocity { velocity, angular_velocity }
    }

    pub fn get_velocity(&self) -> (velocity: Scalar)
        ensures
            velocity == self.velocity,
    {
        self.velocity
    }

    pub fn get_angular_velocity(&self) -> (angular_velocity: Scalar)
        ensures
            angular_velocity == self.angular_velocity,
    {
        self.angular_velocity
    }

    pub fn set_velocity(&mut self, velocity: Scalar)
        ensures
            *final(self) == (Velocity { velocity, ..*old(self) }),
    {
        self.velocity = velocity;
    }

    pub fn set_angular_velocity(&mut self, angular_velocity: Scalar)
        ensures
            *final(self) == (Velocity { angular_velocity, ..*old(self) }),
    {
        self.angular_velocity = angular_velocity;
    }
}

/// Where a moving entity is and how it moves: what the host needs to work
/// out where the entity will be at the end of the tick.
#[derive(Clone, Copy, Debug, PartialEq)]
pub struct Motion {
    pub x: Scalar,
    pub y: Scalar,
    /// Facing angle in degrees; the entity moves along it.
    pub angle: Scalar,
    /// Speed along the facing angle, in units per second.
    pub velocity: Scalar,
}

/// Moves every entity that has a velocity to where the host worked out it
/// will be.
///
/// The host computes, for each entity with a motion, the point reached after
/// the tick: `x + cos(angle) * velocity * seconds` and the same with `sin`
/// for `y`. The system stores the points and keeps track of what changed.
pub struct VelocitySystem;

/// The motion of an entity, if it has both a velocity and a position.
pub open spec fn spec_motion(entity: Entity) -> Option<Motion> {
    match (entity.components.velocity, entity.components.position) {
        (Some(velocity), Some(position)) => Some(
            Motion {
                x: position.x,
                y: position.y,
                angle: position.angle,
                velocity: velocity.velocity,
            },
        ),
        _ => None,
    }
}

/// The entry of a list that is lined up with the entities, or nothing where
/// the list is too short.
pub open spec fn spec_entry<T>(list: Seq<Option<T>>, i: int) -> Option<T> {
    if 0 <= i < list.len() {
        list[i]
    } else {
        None
    }
}

/// An entity after the velocity system has moved it to `target`. Entities
/// without a motion, and entities without a target, stay as they are.
pub open spec fn spec_moved(entity: Entity, target: Option<(Scalar, Scalar)>) -> Entity {
    match (spec_motion(entity), entity.components.position, target) {
        (Some(_), Some(position), Some(target)) => Entity {
            components: TypeSet {
                position: Some(position.with_x(target.0).with_y(target.1)),
                ..entity.components
            },
            ..entity
        },
        _ => entity,
    }
}

impl VelocitySystem {
    /// The motion of an entity, if it has both a velocity and a position.
    pub fn motion(entity: &Entity) -> (motion: Option<Motion>)
        ensures
            motion == spec_motion(*entity),
    {
        match (entity.get_component::<Velocity>(), entity.get_component::<Position>()) {
            (Some(velocity), Some(position)) => Some(
                Motion {
                    x: position.get_x(),
                    y: position.get_y(),
                    angle: position.get_angle(),
                    velocity: velocity.get_velocity(),
                },
            ),
            _ => None,
        }
    }

    /// Moves each entity that has a motion to its target. `targets` is lined
    /// up with `entities`: the target of the entity at an index stands at
    /// the same index.
    pub fn update(&mut self, entities: &mut Vec<Entity>, targets: &Vec<Option<(Scalar, Scalar)>>)
        ensures
            final(entities).len() == old(entities).len(),
            forall|i: int|
                0 <= i < old(entities).len() ==> #[trigger] final(entities)[i] == spec_moved(
                    old(entities)[i],
                    spec_entry(targets@, i),
                ),
    {
        let count = entities.len();
        let mut i: usize = 0;
        while i < count
            invariant
                i <= count,
                count == entities.len(),
                count == old(entities).len(),
                forall|j: int|
                    0 <= j < i ==> #[trigger] entities[j] == spec_moved(
                        old(entities)[j],
                        spec_entry(targets@, j),
                    ),
                forall|j: int| i <= j < count ==> #[trigger] entities[j] == old(entities)[j],
            decreases count - i,
        {
            if i < targets.len() && entities[i].has_component::<Velocity>() {
                if let Some(target) = targets[i] {
                    if let Some(position) = entities[i].get_component_mut::<Position>() {
                        position.set_x(target.0);
                        position.set_y(target.1);
                    }
                }
            }
            i += 1;
        }
    }
}

} // verus!
