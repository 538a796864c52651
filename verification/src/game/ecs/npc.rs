//! Tanks that steer themselves.
//!
//! A self-steering tank heads for a target point and holds keys on an input
//! device of its own, which its control script then reads like any other.
//! Where the target lies relative to the tank takes real arithmetic and is
//! the host's part; which keys follow from that, and from two rolls of the
//! dice, is decided here.

use crate::game::ecs::collision::{CollisionClass, CollisionComponent, CollisionScript};
use crate::game::ecs::color::ColorComponent;
use crate::game::ecs::control::{ControlComponent, ControlScript};
use crate::game::ecs::Entity;
use crate::game::ecs::health::Health;
use crate::game::ecs::position::Position;
use crate::game::ecs::prefabs::player::{player_control_component, PLAYER_HEALTH};
use crate::game::ecs::velocity::{spec_entry, Velocity};
use crate::game::graphics::{Color, MeshType};
use crate::game::keyboard::KeyCode;
use crate::game::server::{ContextView, ServerContext, NPC_INPUT_DEVICE};
use crate::misc::scalar::{Scalar, ZERO};
use crate::misc::typeset::{spec_empty, TypeSet};
use crate::net::event::Handle;
use rand::Rng;
use vstd::prelude::*;

verus! {

/// A self-steering tank fires when a roll below this bound comes up one.
pub const SHOOT_ODDS: i32 = 50;

/// A self-steering tank drives forwards when a roll below this bound comes
/// up one.
pub const FORWARD_ODDS: i32 = 2;

/// Marks an entity as steering itself, toward a point that is replaced
/// whenever the entity gets close to it.
#[derive(Clone, Copy, Debug, PartialEq)]
pub struct NPC {
    pub target_point: (Scalar, Scalar),
}

impl NPC {
    pub fn new(target_point: (Scalar, Scalar)) -> (npc: Self)
        ensures
            npc == (NPC { target_point }),
    {
        NPC { target_point }
    }

    pub fn set_target_point(&mut self, point: (Scalar, Scalar))
        ensures
            *final(self) == (NPC { target_point: point }),
    {
        self.target_point = point
    }

    pub fn get_target_point(&self) -> (point: (Scalar, Scalar))
        ensures
            point == self.target_point,
    {
        self.target_point
    }
}

/// What the host worked out for a self-steering tank from its position and
/// its target.
#[derive(Clone, Copy, Debug, PartialEq)]
pub struct NpcSteering {
    /// A new target, drawn at random, if the tank is within two hundred
    /// units of the old one along both axes.
    pub retarget: Option<(Scalar, Scalar)>,
    /// Minus one if the shorter turn toward the target is to the left,
    /// anything else if it is to the right.
    pub turn: i32,
}

/// The tank that `npc` builds.
pub open spec fn spec_npc(
    handle: Handle,
    input_device_index: usize,
    x: Scalar,
    y: Scalar,
    angle: Scalar,
    color: Color,
    target_point: (Scalar, Scalar),
) -> Entity {
    Entity {
        components: TypeSet {
            position: Some(Position { x, y, angle, has_changed: true }),
            control: Some(ControlComponent { script: ControlScript::Player, input_device_index }),
            velocity: Some(Velocity { velocity: ZERO, angular_velocity: ZERO }),
            mesh_type: Some(MeshType::Tank),
            health: Some(
                Health { max_health: PLAYER_HEALTH, health: PLAYER_HEALTH, has_changed: true },
            ),
            color: Some(
                ColorComponent {
                    red: color.r,
                    green: color.g,
                    blue: color.b,
                    alpha: color.a,
                    has_changed: true,
                },
            ),
            collision: Some(
                CollisionComponent {
                    handle,
                    class: CollisionClass::Tank(handle),
                    script: CollisionScript::Player,
                },
            ),
            firing: Some(false),
            npc: Some(NPC { target_point }),
            ..spec_empty()
        },
        deleted: false,
        handle,
    }
}

/// A self-steering tank at `x`, `y`, facing `angle`, that heads for
/// `target_point` first. It is steered like a client's tank, by the keys of
/// the input device `input_device_index`.
pub fn npc(
    handle: Handle,
    input_device_index: usize,
    x: Scalar,
    y: Scalar,
    angle: Scalar,
    color: Color,
    target_point: (Scalar, Scalar),
) -> (npc: Entity)
    ensures
        npc == spec_npc(handle, input_device_index, x, y, angle, color, target_point),
{
    let mut npc = Entity::new(handle);
    npc.put_component(Position::new(x, y, angle));
    npc.put_component(player_control_component(input_device_index));
    npc.put_component(Velocity::new(ZERO, ZERO));
    npc.put_component(MeshType::Tank);
    npc.put_component(Health::new(PLAYER_HEALTH, PLAYER_HEALTH));
    npc.put_component(ColorComponent::from_color(color));
    npc.put_component(CollisionComponent::new_tank(handle, CollisionScript::Player));
    npc.put_component(false);
    npc.put_component(NPC::new(target_point));
    npc
}

/// The type `rand::rngs::ThreadRng`, of which nothing is known here.
#[verifier::external_type_specification]
#[verifier::external_body]
pub struct ExThreadRng(rand::rngs::ThreadRng);

/// The random number generator of this thread.
///
/// Calls `rand::thread_rng`. Nothing is claimed of the generator. The call
/// panics if the system cannot seed the generator when a thread first asks
/// for it.
#[verifier::external_body]
fn thread_rng() -> (rng: rand::rngs::ThreadRng) {
    rand::thread_rng()
}

/// Draws a whole number from zero up to, but not including, `bound`.
///
/// Calls `Rng::gen_range` with the range `0..bound`. The contract claims
/// only what `gen_range` documents of an exclusive range: the value lies in
/// it. An empty range makes `gen_range` panic, so `bound` has to be
/// positive. The call also panics if the generator is due for fresh
/// entropy and the system cannot supply it.
#[verifier::external_body]
fn random_below(rng: &mut rand::rngs::ThreadRng, bound: i32) -> (value: i32)
    requires
        bound > 0,
    ensures
        0 <= value < bound,
{
    rng.gen_range(0..bound)
}

/// The key that a turn holds: left for minus one, right for anything else.
pub open spec fn spec_turn_key(turn: i32) -> KeyCode {
    if turn == -1 {
        KeyCode::Left
    } else {
        KeyCode::Right
    }
}

/// The keys that a self-steering tank holds for one tick: the key of its
/// turn, space if the first roll came up one, up if the second did.
pub open spec fn spec_npc_keys(turn: i32, shoot_roll: i32, forward_roll: i32) -> Set<KeyCode> {
    let turning = Set::<KeyCode>::empty().insert(spec_turn_key(turn));
    let shooting = if shoot_roll == 1 {
        turning.insert(KeyCode::Space)
    } else {
        turning
    };
    if forward_roll == 1 {
        shooting.insert(KeyCode::Up)
    } else {
        shooting
    }
}

/// The mediator after a self-steering tank has held its keys.
pub open spec fn spec_pressed(
    ctx: ContextView,
    turn: i32,
    shoot_roll: i32,
    forward_roll: i32,
) -> ContextView {
    ContextView {
        keys: ctx.keys.update(
            NPC_INPUT_DEVICE as int,
            ctx.keys[NPC_INPUT_DEVICE as int].union(spec_npc_keys(turn, shoot_roll, forward_roll)),
        ),
        ..ctx
    }
}

/// Holds the keys of a self-steering tank on its input device: the key of
/// the turn, space if `shoot_roll` is one, up if `forward_roll` is one.
pub fn press(ctx: &mut ServerContext, turn: i32, shoot_roll: i32, forward_roll: i32)
    requires
        NPC_INPUT_DEVICE < old(ctx)@.keys.len(),
    ensures
        final(ctx)@ == spec_pressed(old(ctx)@, turn, shoot_roll, forward_roll),
{
    if turn == -1 {
        ctx.insert_pressed_key(NPC_INPUT_DEVICE, KeyCode::Left)
    } else {
        ctx.insert_pressed_key(NPC_INPUT_DEVICE, KeyCode::Right)
    }
    if shoot_roll == 1 {
        ctx.insert_pressed_key(NPC_INPUT_DEVICE, KeyCode::Space);
    }
    if forward_roll == 1 {
        ctx.insert_pressed_key(NPC_INPUT_DEVICE, KeyCode::Up);
    }
    proof {
        let wanted = spec_pressed(old(ctx)@, turn, shoot_roll, forward_roll);
        assert(ctx@.keys[NPC_INPUT_DEVICE as int] =~= wanted.keys[NPC_INPUT_DEVICE as int]);
        assert(ctx@.keys =~= wanted.keys);
    }
}

/// A self-steering tank with its target replaced, if there is a new one.
pub open spec fn spec_retargeted(npc: Entity, retarget: Option<(Scalar, Scalar)>) -> Entity {
    match (npc.components.npc, retarget) {
        (Some(_), Some(point)) => Entity {
            components: TypeSet { npc: Some(NPC { target_point: point }), ..npc.components },
            ..npc
        },
        _ => npc,
    }
}

/// Steers a self-steering tank for one tick: takes over a new target, and
/// holds the keys that the turn and two rolls of the dice call for. The tank
/// fires on one roll in fifty and drives forwards on every other. An entity
/// that does not steer itself is left alone.
pub fn update(npc: &mut Entity, ctx: &mut ServerContext, steering: NpcSteering)
    requires
        NPC_INPUT_DEVICE < old(ctx)@.keys.len(),
    ensures
        *final(npc) == spec_retargeted(*old(npc), steering.retarget),
        old(npc).components.npc.is_none() ==> final(ctx)@ == old(ctx)@,
        old(npc).components.npc.is_some() ==> exists|shoot_roll: i32, forward_roll: i32|
            0 <= shoot_roll < SHOOT_ODDS && 0 <= forward_roll < FORWARD_ODDS && final(ctx)@
                == #[trigger] spec_pressed(old(ctx)@, steering.turn, shoot_roll, forward_roll),
{
    let mut steers = false;
    if let Some(npc_2) = npc.get_component_mut::<NPC>() {
        if let Some(point) = steering.retarget {
            npc_2.set_target_point(point);
        }
        steers = true;
    }
    if steers {
        let mut rng = thread_rng();
        let shoot_roll = random_below(&mut rng, SHOOT_ODDS);
        let forward_roll = random_below(&mut rng, FORWARD_ODDS);
        press(ctx, steering.turn, shoot_roll, forward_roll);
    }
}

/// Lets every self-steering tank decide which keys it holds in this tick.
pub struct NpcSystem;

/// Whether the entity steers itself in this tick: it is a self-steering
/// tank, and the host worked out a steering for it.
pub open spec fn spec_steers(entity: Entity, steering: Option<NpcSteering>) -> bool {
    entity.components.npc.is_some() && steering.is_some()
}

/// An entity after the system has seen it.
pub open spec fn spec_npc_steered(entity: Entity, steering: Option<NpcSteering>) -> Entity {
    match steering {
        Some(steering) => spec_retargeted(entity, steering.retarget),
        None => entity,
    }
}

/// Whether `key` is one that the first `count` entities may hold in this
/// tick: space, up, or the key of the turn of one that steers itself.
pub open spec fn spec_may_hold(
    entities: Seq<Entity>,
    steerings: Seq<Option<NpcSteering>>,
    count: int,
    key: KeyCode,
) -> bool {
    exists|i: int|
        0 <= i < count && #[trigger] spec_steers(entities[i], spec_entry(steerings, i)) && (key
            == KeyCode::Space || key == KeyCode::Up || key == spec_turn_key(
            spec_entry(steerings, i).unwrap().turn,
        ))
}

/// What holds of the mediator after the first `count` entities have decided,
/// whatever the dice showed. Only the keys of the self-steering tanks'
/// device change. No key is let go; each tank that steers itself holds the
/// key of its turn; and no key is held that none of them may hold.
pub open spec fn spec_npc_pressed(
    entities: Seq<Entity>,
    steerings: Seq<Option<NpcSteering>>,
    count: int,
    before: ContextView,
    after: ContextView,
) -> bool {
    let held = after.keys[NPC_INPUT_DEVICE as int];
    let held_before = before.keys[NPC_INPUT_DEVICE as int];
    &&& after == (ContextView { keys: before.keys.update(NPC_INPUT_DEVICE as int, held), ..before })
    &&& held_before.subset_of(held)
    &&& forall|i: int|
        0 <= i < count && #[trigger] spec_steers(entities[i], spec_entry(steerings, i))
            ==> held.contains(spec_turn_key(spec_entry(steerings, i).unwrap().turn))
    &&& forall|key: KeyCode|
        held.contains(key) ==> held_before.contains(key) || spec_may_hold(
            entities,
            steerings,
            count,
            key,
        )
}

impl NpcSystem {
    /// Steers every self-steering tank for which the host worked out a
    /// steering, in the order of the entities. `steerings` is lined up with
    /// `entities`.
    pub fn update(
        &mut self,
        entities: &mut Vec<Entity>,
        ctx: &mut ServerContext,
        steerings: &Vec<Option<NpcSteering>>,
    )
        requires
            NPC_INPUT_DEVICE < old(ctx)@.keys.len(),
        ensures
            final(entities).len() == old(entities).len(),
            forall|i: int|
                0 <= i < old(entities).len() ==> #[trigger] final(entities)[i] == spec_npc_steered(
                    old(entities)[i],
                    spec_entry(steerings@, i),
                ),
            spec_npc_pressed(
                old(entities)@,
                steerings@,
                old(entities).len() as int,
                old(ctx)@,
                final(ctx)@,
            ),
    {
        let count = entities.len();
        let mut i: usize = 0;
        assert(old(ctx)@.keys.update(NPC_INPUT_DEVICE as int, old(ctx)@.keys[NPC_INPUT_DEVICE as int])
            =~= old(ctx)@.keys);
        while i < count
            invariant
                i <= count,
                count == entities.len(),
                count == old(entities).len(),
                NPC_INPUT_DEVICE < old(ctx)@.keys.len(),
                forall|j: int|
                    0 <= j < i ==> #[trigger] entities[j] == spec_npc_steered(
                        old(entities)[j],
                        spec_entry(steerings@, j),
                    ),
                forall|j: int| i <= j < count ==> #[trigger] entities[j] == old(entities)[j],
                spec_npc_pressed(old(entities)@, steerings@, i as int, old(ctx)@, ctx@),
            decreases count - i,
        {
            let steering = if i < steerings.len() {
                steerings[i]
            } else {
                None
            };
            let ghost before = ctx@;
            if let Some(steering) = steering {
                update(&mut entities[i], ctx, steering);
            }
            proof {
                let held = ctx@.keys[NPC_INPUT_DEVICE as int];
                let held_before = before.keys[NPC_INPUT_DEVICE as int];
                let steers = spec_steers(old(entities)[i as int], steering);
                if steers {
                    let (shoot_roll, forward_roll) = choose|shoot_roll: i32, forward_roll: i32|
                        0 <= shoot_roll < SHOOT_ODDS && 0 <= forward_roll < FORWARD_ODDS && ctx@
                            == #[trigger] spec_pressed(
                            before,
                            steering.unwrap().turn,
                            shoot_roll,
                            forward_roll,
                        );
                    assert(ctx@.keys =~= old(ctx)@.keys.update(NPC_INPUT_DEVICE as int, held));
                }
                assert forall|key: KeyCode| held.contains(key) implies old(
                    ctx,
                )@.keys[NPC_INPUT_DEVICE as int].contains(key) || spec_may_hold(
                    old(entities)@,
                    steerings@,
                    i + 1,
                    key,
                ) by {
                    if held_before.contains(key) {
                        if !old(ctx)@.keys[NPC_INPUT_DEVICE as int].contains(key) {
                            let j = choose|j: int|
                                0 <= j < i && #[trigger] spec_steers(
                                    old(entities)[j],
                                    spec_entry(steerings@, j),
                                ) && (key == KeyCode::Space || key == KeyCode::Up || key
                                    == spec_turn_key(spec_entry(steerings@, j).unwrap().turn));
                            assert(spec_steers(old(entities)[j], spec_entry(steerings@, j)));
                        }
                    } else {
                        assert(spec_steers(old(entities)[i as int], spec_entry(steerings@, i as int)));
                    }
                }
            }
            i += 1;
        }
    }
}

} // verus!
