//! Walls: they stand still and stop tanks.

use crate::game::ecs::collision::{CollisionClass, CollisionComponent, CollisionScript};
use crate::game::ecs::color::ColorComponent;
use crate::game::ecs::Entity;
use crate::game::ecs::position::Position;
use crate::game::ecs::scale::Scale;
use crate::game::graphics::{Color, MeshType};
use crate::misc::scalar::{Scalar, ZERO};
use crate::misc::typeset::{spec_empty, TypeSet};
use crate::net::event::Handle;
use vstd::prelude::*;

verus! {

/// Reacts to a collision of the wall at index `me`: a wall does nothing.
pub fn wall_collision_script(me: usize, other: usize, entities: &mut Vec<Entity>)
    ensures
        final(entities)@ == old(entities)@,
{
}

/// The wall that `wall` builds.
pub open spec fn spec_wall(
    handle: Handle,
    x: Scalar,
    y: Scalar,
    w: Scalar,
    h: Scalar,
    color: Color,
) -> Entity {
    Entity {
        components: TypeSet {
            position: Some(Position { x, y, angle: ZERO, has_changed: true }),
            scale: Some(Scale { width: w, height: h, has_changed: true }),
            color: Some(
                ColorComponent {
                    red: color.r,
                    green: color.g,
                    blue: color.b,
                    alpha: color.a,
                    has_changed: true,
                },
            ),
            collision: Some(
                CollisionComponent {
                    handle,
                    class: CollisionClass::Wall(w, h),
                    script: CollisionScript::Wall,
                },
            ),
            mesh_type: Some(MeshType::Wall),
            ..spec_empty()
        },
        deleted: false,
        handle,
    }
}

/// A wall whose corner is at `x`, `y` and which is `w` wide and `h` high.
pub fn wall(
    handle: Handle,
    x: Scalar,
    y: Scalar,
    w: Scalar,
    h: Scalar,
    color: Color,
) -> (wall: Entity)
    ensures
        wall == spec_wall(handle, x, y, w, h, color),
{
    let mut wall = Entity::new(handle);
    wall.put_component(Position::new(x, y, ZERO));
    wall.put_component(Scale::new(w, h));
    wall.put_component(ColorComponent::from_color(color));
    wall.put_component(CollisionComponent::new_wall(handle, CollisionScript::Wall, w, h));
    wall.put_component(MeshType::Wall);
    wall
}

} // verus!
