//! The tank that a client steers.

use crate::game::ecs::collision::{CollisionClass, CollisionComponent, CollisionScript};
use crate::game::ecs::color::ColorComponent;
use crate::game::ecs::control::{ControlComponent, ControlScript, Drive};
use crate::game::ecs::death::{DeathComponent, DeathScript};
use crate::game::ecs::Entity;
use crate::game::ecs::health::Health;
use crate::game::ecs::item::{InventoryComponent, ItemUseScript};
use crate::game::ecs::position::Position;
use crate::game::ecs::prefabs::bullet::{bullet, spec_bullet};
use crate::game::ecs::prefabs::items::{heal_item_script, spec_healed};
use crate::game::ecs::velocity::Velocity;
use crate::game::graphics::{white, Color, MeshType};
use crate::game::keyboard::{KeyCode, KeySet};
use crate::game::server::{spec_spawn_queued, ContextView, ServerCommand, ServerContext};
use crate::misc::scalar::{halved, spec_halved, Scalar, ZERO};
use crate::misc::typeset::{spec_empty, TypeSet};
use crate::net::event::{Handle, NULL_HANDLE};
use vstd::prelude::*;

verus! {

/// The speed of a bullet as it leaves the barrel: a thousand units per
/// second.
pub const BULLET_SPEED: Scalar = 0x447A_0000;

/// The health that a tank starts with, which is also the most it can have.
pub const PLAYER_HEALTH: u8 = 50;

/// The color of the bullets of a tank that has no color of its own.
pub open spec fn spec_default_color() -> Color {
    Color { r: 255, g: 255, b: 255, a: 255 }
}

/// The color of the bullets of a tank that has no color of its own: white.
pub fn default_color() -> (color: Color)
    ensures
        color == spec_default_color(),
{
    white()
}

/// The commands that a dying tank leaves behind: a fresh tank for the client
/// that steered it, and the end of the game.
pub open spec fn spec_player_last_wishes(me: Entity) -> Seq<ServerCommand> {
    seq![
        ServerCommand::SpawnPlayer(me.components.control.unwrap().input_device_index),
        ServerCommand::GameOver,
    ]
}

/// The last act of a tank: it asks for a fresh tank for the client that
/// steered it, and for the game to end.
pub fn player_death_script(me: &mut Entity, ctx: &mut ServerContext)
    requires
        old(me).components.control.is_some(),
    ensures
        *final(me) == *old(me),
        final(ctx)@ == (ContextView {
            commands: old(ctx)@.commands + spec_player_last_wishes(*old(me)),
            ..old(ctx)@
        }),
{
    let client_index = match me.get_component::<ControlComponent>() {
        Some(control_comp) => control_comp.get_input_device_index(),
        None => 0,
    };
    ctx.spawn_player(client_index);
    ctx.trigger_game_over();
    assert(ctx@.commands =~= old(ctx)@.commands + spec_player_last_wishes(*old(me)));
}

/// A tank after a bullet hit it. A tank with health left loses one point,
/// and the tank that loses its last point is marked for removal. A tank
/// without health left is not touched, so health never goes below zero.
pub open spec fn spec_shot_at(me: Entity) -> Entity {
    match me.components.health {
        Some(health) if health.health > 0 => Entity {
            components: TypeSet {
                health: Some(health.with_health((health.health - 1) as u8)),
                ..me.components
            },
            deleted: me.deleted || health.health == 1,
            ..me
        },
        _ => me,
    }
}

/// A tank with its speed replaced, if it has a velocity.
pub open spec fn spec_slowed(me: Entity, speed: Scalar) -> Entity {
    match me.components.velocity {
        Some(velocity) => Entity {
            components: TypeSet {
                velocity: Some(Velocity { velocity: speed, ..velocity }),
                ..me.components
            },
            ..me
        },
        None => me,
    }
}

/// The speed of an entity, or zero if it has no velocity.
pub open spec fn spec_speed(me: Entity) -> Scalar {
    match me.components.velocity {
        Some(velocity) => velocity.velocity,
        None => ZERO,
    }
}

/// A tank after it ran into something of class `other`. A bullet costs a
/// health point; another tank halves the speed, so that two tanks never
/// get stuck in each other; a wall stops the tank; an item does nothing.
pub open spec fn spec_player_collided(me: Entity, other: CollisionClass) -> Entity {
    match other {
        CollisionClass::Bullet(_) => spec_shot_at(me),
        CollisionClass::Tank(_) => spec_slowed(me, spec_halved(spec_speed(me))),
        CollisionClass::Wall(_, _) => spec_slowed(me, ZERO),
        CollisionClass::Item => me,
    }
}

/// The script of a tank, on a list of entities.
pub open spec fn spec_player_collision(entities: Seq<Entity>, me: int, other: int) -> Seq<Entity> {
    entities.update(
        me,
        spec_player_collided(entities[me], entities[other].components.collision.unwrap().class),
    )
}

/// Reacts to a collision of the tank at index `me` with the entity at index
/// `other`.
pub fn player_collision_script(me: usize, other: usize, entities: &mut Vec<Entity>)
    requires
        me < old(entities).len(),
        other < old(entities).len(),
        old(entities)[other as int].components.collision.is_some(),
    ensures
        final(entities)@ == spec_player_collision(old(entities)@, me as int, other as int),
{
    let collision_class = match entities[other].get_component::<CollisionComponent>() {
        Some(component) => component.get_collision_class(),
        None => CollisionClass::Item,
    };
    match collision_class {
        CollisionClass::Bullet(_) => {
            let mut dead = false;
            if let Some(health) = entities[me].get_component_mut::<Health>() {
                if health.get_health() > 0 {
                    let new_health = health.get_health() - 1;
                    health.set_health(new_health);
                    if new_health == 0 {
                        dead = true;
                    }
                }
            }
            if dead {
                entities[me].delete();
            }
        },
        CollisionClass::Tank(_) => {
            if let Some(velocity) = entities[me].get_component_mut::<Velocity>() {
                velocity.set_velocity(halved(velocity.get_velocity()));
            }
        },
        CollisionClass::Wall(_, _) => {
            if let Some(velocity) = entities[me].get_component_mut::<Velocity>() {
                velocity.set_velocity(ZERO);
            }
        },
        CollisionClass::Item => {},
    }
    assert(entities@ =~= spec_player_collision(old(entities)@, me as int, other as int));
}

/// A tank with the speed and the angle that the host worked out. Without a
/// drive nothing changes.
pub open spec fn spec_driven(player: Entity, drive: Option<Drive>) -> Entity {
    match drive {
        Some(drive) => Entity {
            components: TypeSet {
                velocity: match player.components.velocity {
                    Some(velocity) => Some(Velocity { velocity: drive.velocity, ..velocity }),
                    None => None,
                },
                position: match player.components.position {
                    Some(position) => Some(position.with_angle(drive.angle)),
                    None => None,
                },
                ..player.components
            },
            ..player
        },
        None => player,
    }
}

/// Whether the tank fires in this tick: the trigger is held, and it was not
/// held in the tick before.
pub open spec fn spec_fires(player: Entity, keys: Set<KeyCode>) -> bool {
    player.components.firing == Some(false) && keys.contains(KeyCode::Space)
}

/// A tank whose firing flag follows the trigger.
pub open spec fn spec_triggered(player: Entity, keys: Set<KeyCode>) -> Entity {
    match player.components.firing {
        Some(_) => Entity {
            components: TypeSet {
                firing: Some(keys.contains(KeyCode::Space)),
                ..player.components
            },
            ..player
        },
        None => player,
    }
}

/// The color of a tank's bullets: its own, or the default.
pub open spec fn spec_bullet_color(player: Entity) -> Color {
    match player.components.color {
        Some(color) => color.color(),
        None => spec_default_color(),
    }
}

/// The bullet that a tank fires: it starts where the tank is, flies the way
/// the tank faces, and has the tank's color. It has no handle yet.
pub open spec fn spec_shot(player: Entity) -> Entity {
    spec_bullet(
        NULL_HANDLE,
        player.handle,
        player.components.position.unwrap().x,
        player.components.position.unwrap().y,
        player.components.position.unwrap().angle,
        BULLET_SPEED,
        spec_bullet_color(player),
    )
}

/// An entity after it used an item with the given script.
pub open spec fn spec_used(script: ItemUseScript, user: Entity) -> Entity {
    match script {
        ItemUseScript::Heal => spec_healed(user),
    }
}

/// A tank after the key for using an item was looked at: if the key is held
/// and the inventory holds an item, the item leaves the inventory and is
/// used on the tank.
pub open spec fn spec_item_used(player: Entity, keys: Set<KeyCode>) -> Entity {
    match player.components.inventory {
        Some(inventory) if keys.contains(KeyCode::I) && inventory.item.is_some() => spec_used(
            inventory.item.unwrap().1,
            Entity {
                components: TypeSet {
                    inventory: Some(InventoryComponent { item: None, has_changed: true }),
                    ..player.components
                },
                ..player
            },
        ),
        _ => player,
    }
}

/// A tank after one tick of steering.
pub open spec fn spec_player_controlled(
    player: Entity,
    keys: Set<KeyCode>,
    drive: Option<Drive>,
) -> Entity {
    spec_item_used(spec_triggered(spec_driven(player, drive), keys), keys)
}

/// The mediator after one tick of steering a tank: if the tank fires, its
/// bullet is queued for spawning under the next handle.
pub open spec fn spec_player_requested(
    player: Entity,
    keys: Set<KeyCode>,
    drive: Option<Drive>,
    ctx: ContextView,
) -> ContextView {
    if spec_fires(player, keys) {
        spec_spawn_queued(ctx, spec_shot(spec_driven(player, drive)))
    } else {
        ctx
    }
}

/// Steers a tank for one tick.
///
/// `keys` are the keys held on the tank's input device. `drive` is the speed
/// and the angle that the host worked out from them: a thousand units per
/// second squared forwards for the up key and backwards for the down key, a
/// friction that takes nine tenths of the speed per second, a speed of a
/// hundredth or less rounded to zero, and a turn of 180 degrees per second
/// to the right for the right key and to the left for the left key.
///
/// Holding space fires one bullet; the key has to be let go before the next.
/// Holding I uses the item in the inventory.
pub fn player_control_script(
    player: &mut Entity,
    ctx: &mut ServerContext,
    keys: KeySet,
    drive: Option<Drive>,
)
    requires
        old(player).components.position.is_some(),
        old(ctx)@.last_handle < u64::MAX,
    ensures
        *final(player) == spec_player_controlled(*old(player), keys@, drive),
        final(ctx)@ == spec_player_requested(*old(player), keys@, drive, old(ctx)@),
{
    if let Some(drive) = drive {
        if let Some(velocity) = player.get_component_mut::<Velocity>() {
            velocity.set_velocity(drive.velocity);
        }
    }
    let mut x: Scalar = ZERO;
    let mut y: Scalar = ZERO;
    let mut angle: Scalar = ZERO;
    if let Some(position) = player.get_component_mut::<Position>() {
        if let Some(drive) = drive {
            position.set_angle(drive.angle);
        }
        x = position.get_x();
        y = position.get_y();
        angle = position.get_angle();
    }
    let color = match player.get_component::<ColorComponent>() {
        Some(color) => color.get_color(),
        None => default_color(),
    };
    let handle = player.get_handle();
    let space = keys.contains(KeyCode::Space);
    let mut fires = false;
    if let Some(firing) = player.get_component_mut::<bool>() {
        if space {
            if !*firing {
                *firing = true;
                fires = true;
            }
        } else {
            *firing = false;
        }
    }
    if fires {
        ctx.spawn(bullet(NULL_HANDLE, handle, x, y, angle, BULLET_SPEED, color));
    }
    if keys.contains(KeyCode::I) {
        let mut used: Option<ItemUseScript> = None;
        if let Some(inventory) = player.get_component_mut::<InventoryComponent>() {
            if let Some(item) = inventory.remove_item() {
                used = Some(item.1);
            }
        }
        match used {
            Some(ItemUseScript::Heal) => heal_item_script(player),
            None => {},
        }
    }
}

/// The control component of a tank.
pub fn player_control_component(input_device_index: usize) -> (component: ControlComponent)
    ensures
        component == (ControlComponent { script: ControlScript::Player, input_device_index }),
{
    ControlComponent::new(input_device_index, ControlScript::Player)
}

/// The tank that `player` builds.
pub open spec fn spec_player(
    handle: Handle,
    input_device_index: usize,
    x: Scalar,
    y: Scalar,
    angle: Scalar,
    color: Color,
) -> Entity {
    Entity {
        components: TypeSet {
            position: Some(Position { x, y, angle, has_changed: true }),
            velocity: Some(Velocity { velocity: ZERO, angular_velocity: ZERO }),
            control: Some(ControlComponent { script: ControlScript::Player, input_device_index }),
            mesh_type: Some(MeshType::Tank),
            health: Some(
                Health { max_health: PLAYER_HEALTH, health: PLAYER_HEALTH, has_changed: true },
            ),
            color: Some(
                ColorComponent {
                    red: color.r,
                    green: color.g,
                    blue: color.b,
                    alpha: color.a,
                    has_changed: true,
                },
            ),
            collision: Some(
                CollisionComponent {
                    handle,
                    class: CollisionClass::Tank(handle),
                    script: CollisionScript::Player,
                },
            ),
            death: Some(DeathComponent { script: DeathScript::Player }),
            inventory: Some(InventoryComponent { item: None, has_changed: true }),
            firing: Some(false),
            ..spec_empty()
        },
        deleted: false,
        handle,
    }
}

/// A tank at `x`, `y`, facing `angle`, steered by the keys of the input
/// device `input_device_index`.
pub fn player(
    handle: Handle,
    input_device_index: usize,
    x: Scalar,
    y: Scalar,
    angle: Scalar,
    color: Color,
) -> (player: Entity)
    ensures
        player == spec_player(handle, input_device_index, x, y, angle, color),
{
    let mut player = Entity::new(handle);
    player.put_component(Position::new(x, y, angle));
    player.put_component(Velocity::new(ZERO, ZERO));
    player.put_component(player_control_component(input_device_index));
    player.put_component(MeshType::Tank);
    player.put_component(Health::new(PLAYER_HEALTH, PLAYER_HEALTH));
    player.put_component(ColorComponent::from_color(color));
    player.put_component(CollisionComponent::new_tank(handle, CollisionScript::Player));
    player.put_component(DeathComponent::new(DeathScript::Player));
    player.put_component(InventoryComponent::empty());
    player.put_component(false);
    player
}

/// A tank after `count` bullets have hit it.
pub open spec fn spec_shot_at_times(me: Entity, count: nat) -> Entity
    decreases count,
{
    if count == 0 {
        me
    } else {
        spec_shot_at(spec_shot_at_times(me, (count - 1) as nat))
    }
}

/// However many bullets hit a tank, its health goes down by one for each
/// until it reaches zero and stays there; everything but health and the
/// deletion flag stays as it is; and the tank is marked for removal exactly
/// if it was marked before or the bullets have used up health that it had.
pub proof fn lemma_health_clamps(me: Entity, count: nat)
    requires
        me.components.health.is_some(),
        me.components.health.unwrap().health <= me.components.health.unwrap().max_health,
    ensures
        ({
            let before = me.components.health.unwrap();
            let after = spec_shot_at_times(me, count);
            &&& after.components.health.is_some()
            &&& after.components.health.unwrap().health == if count <= before.health {
                before.health - count
            } else {
                0
            }
            &&& after.components.health.unwrap().max_health == before.max_health
            &&& after.deleted == (me.deleted || (before.health >= 1 && count >= before.health))
            &&& after.handle == me.handle
            &&& after == (Entity {
                components: TypeSet { health: after.components.health, ..me.components },
                deleted: after.deleted,
                ..me
            })
        }),
    decreases count,
{
    if count > 0 {
        lemma_health_clamps(me, (count - 1) as nat);
    }
}

} // verus!
