//! Bullets: they fly straight, hit once, and vanish after two seconds.

use crate::game::ecs::collision::{CollisionClass, CollisionComponent, CollisionScript};
use crate::game::ecs::color::ColorComponent;
use crate::game::ecs::Entity;
use crate::game::ecs::position::Position;
use crate::game::ecs::ttl::TimeToLive;
use crate::game::ecs::velocity::Velocity;
use crate::game::graphics::{Color, MeshType};
use crate::misc::scalar::{Scalar, ZERO};
use crate::misc::typeset::{spec_empty, TypeSet};
use crate::net::event::Handle;
use vstd::prelude::*;

verus! {

/// How long a bullet lives: two seconds, in microseconds.
pub const BULLET_LIFETIME: u64 = 2_000_000;

/// The script of a bullet: whatever it hits, the bullet is removed.
pub open spec fn spec_bullet_collision(entities: Seq<Entity>, me: int) -> Seq<Entity> {
    entities.update(me, Entity { deleted: true, ..entities[me] })
}

/// Reacts to a collision of the bullet at index `me`: the bullet is marked
/// for removal.
pub fn bullet_collision_script(me: usize, other: usize, entities: &mut Vec<Entity>)
    requires
        me < old(entities).len(),
    ensures
        final(entities)@ == spec_bullet_collision(old(entities)@, me as int),
{
    entities[me].delete();
    assert(entities@ =~= spec_bullet_collision(old(entities)@, me as int));
}

/// The bullet that `bullet` builds.
pub open spec fn spec_bullet(
    handle: Handle,
    shooter_handle: Handle,
    x: Scalar,
    y: Scalar,
    angle: Scalar,
    velocity: Scalar,
    color: Color,
) -> Entity {
    Entity {
        components: TypeSet {
            position: Some(Position { x, y, angle, has_changed: true }),
            velocity: Some(Velocity { velocity, angular_velocity: ZERO }),
            time_to_live: Some(TimeToLive(BULLET_LIFETIME)),
            mesh_type: Some(MeshType::Bullet),
            color: Some(
                ColorComponent {
                    red: color.r,
                    green: color.g,
                    blue: color.b,
                    alpha: color.a,
                    has_changed: true,
                },
            ),
            collision: Some(
                CollisionComponent {
                    handle,
                    class: CollisionClass::Bullet(shooter_handle),
                    script: CollisionScript::Bullet,
                },
            ),
            ..spec_empty()
        },
        deleted: false,
        handle,
    }
}

/// A bullet at `x`, `y`, flying along `angle` with speed `velocity`, in the
/// color of the tank `shooter_handle` that fired it.
pub fn bullet(
    handle: Handle,
    shooter_handle: Handle,
    x: Scalar,
    y: Scalar,
    angle: Scalar,
    velocity: Scalar,
    color: Color,
) -> (bullet: Entity)
    ensures
        bullet == spec_bullet(handle, shooter_handle, x, y, angle, velocity, color),
{
    let mut bullet = Entity::new(handle);
    bullet.put_component(Position::new(x, y, angle));
    bullet.put_component(Velocity::new(velocity, ZERO));
    bullet.put_component(TimeToLive::new(BULLET_LIFETIME));
    bullet.put_component(MeshType::Bullet);
    bullet.put_component(ColorComponent::from_color(color));
    bullet.put_component(
        CollisionComponent::new_bullet(handle, shooter_handle, CollisionScript::Bullet),
    );
    bullet
}

} // verus!
