//! Which input device steers an entity, and how.

use crate::game::ecs::Entity;
use crate::game::ecs::prefabs::player::{
    player_control_script, spec_player_controlled, spec_player_requested,
};
use crate::game::ecs::velocity::spec_entry;
use crate::game::keyboard::{KeyCode, KeySet};
use crate::game::server::{ContextView, ServerContext};
use crate::misc::scalar::Scalar;
use vstd::prelude::*;

verus! {

/// How held keys turn into what an entity does.
#[derive(Clone, Copy, Debug, PartialEq, Eq, Structural)]
pub enum ControlScript {
    /// Arrow keys drive and turn, space fires, I uses the held item.
    Player,
}

/// What the host worked out for a steered entity from its speed, its angle,
/// the keys held and the length of the tick: the speed after acceleration
/// and friction, and the angle after turning.
#[derive(Clone, Copy, Debug, PartialEq)]
pub struct Drive {
    pub velocity: Scalar,
    pub angle: Scalar,
}

/// Subscribes an entity to the keys of one input device.
#[derive(Clone, Copy, Debug, PartialEq, Eq)]
pub struct ControlComponent {
    pub script: ControlScript,
    pub input_device_index: usize,
}

impl ControlComponent {
    pub fn new(input_device_index: usize, script: ControlScript) -> (component: Self)
        ensures
            component == (ControlComponent { script, input_device_index }),
    {
        ControlComponent { script, input_device_index }
    }

    pub fn get_input_device_index(&self) -> (index: usize)
        ensures
            index == self.input_device_index,
    {
        self.input_device_index
    }
}

/// What the held keys ask of a steered entity, as two signs.
#[derive(Clone, Copy, Debug, PartialEq, Eq)]
pub struct Steering {
    /// One for forwards, minus one for backwards, zero for neither or both.
    pub throttle: i32,
    /// One for a turn to the right, minus one for a turn to the left, zero
    /// for neither or both.
    pub turn: i32,
}

/// One if the first key is held, minus one if the second is, zero if both or
/// neither are.
pub open spec fn spec_balance(keys: Set<KeyCode>, plus: KeyCode, minus: KeyCode) -> int {
    (if keys.contains(plus) { 1int } else { 0int }) - (if keys.contains(minus) { 1int } else { 0int })
}

/// What the held keys ask of a steered entity.
pub open spec fn spec_steering(keys: Set<KeyCode>) -> Steering {
    Steering {
        throttle: spec_balance(keys, KeyCode::Up, KeyCode::Down) as i32,
        turn: spec_balance(keys, KeyCode::Right, KeyCode::Left) as i32,
    }
}

/// Hands the held keys to every entity that subscribed to an input device.
///
/// Turning keys into speed and angle takes real arithmetic and is the
/// host's part: for each steered entity it works out a `Drive` from the
/// entity's `Steering`, and `update` applies it.
pub struct ControlSystem;

/// Whether the entity can be steered with the given number of input
/// devices: its device exists, and it has a position.
pub open spec fn spec_steerable(entity: Entity, devices: nat) -> bool {
    match entity.components.control {
        Some(control) => control.input_device_index < devices
            && entity.components.position.is_some(),
        None => true,
    }
}

/// An entity after one tick of steering.
pub open spec fn spec_controlled(
    entity: Entity,
    keys: Seq<Set<KeyCode>>,
    drive: Option<Drive>,
) -> Entity {
    match entity.components.control {
        Some(control) => match control.script {
            ControlScript::Player => spec_player_controlled(
                entity,
                keys[control.input_device_index as int],
                drive,
            ),
        },
        None => entity,
    }
}

/// The mediator after one tick of steering an entity.
pub open spec fn spec_control_requested(
    entity: Entity,
    drive: Option<Drive>,
    ctx: ContextView,
) -> ContextView {
    match entity.components.control {
        Some(control) => match control.script {
            ControlScript::Player => spec_player_requested(
                entity,
                ctx.keys[control.input_device_index as int],
                drive,
                ctx,
            ),
        },
        None => ctx,
    }
}

/// The mediator after one tick of steering the first `count` entities, in
/// their order.
pub open spec fn spec_all_control_requested(
    entities: Seq<Entity>,
    drives: Seq<Option<Drive>>,
    ctx: ContextView,
    count: int,
) -> ContextView
    decreases count,
{
    if count <= 0 {
        ctx
    } else {
        spec_control_requested(
            entities[count - 1],
            spec_entry(drives, count - 1),
            spec_all_control_requested(entities, drives, ctx, count - 1),
        )
    }
}

/// Steering an entity leaves the held keys, the length of the tick and the
/// queued events alone, and gives out at most one handle.
pub proof fn lemma_control_requested(entity: Entity, drive: Option<Drive>, ctx: ContextView)
    ensures
        spec_control_requested(entity, drive, ctx).keys == ctx.keys,
        spec_control_requested(entity, drive, ctx).delta_time == ctx.delta_time,
        spec_control_requested(entity, drive, ctx).events == ctx.events,
        ctx.last_handle < u64::MAX ==> ctx.last_handle <= spec_control_requested(
            entity,
            drive,
            ctx,
        ).last_handle <= ctx.last_handle + 1,
{
}

impl ControlSystem {
    /// What the held keys ask of a steered entity.
    pub fn steering(keys: &KeySet) -> (steering: Steering)
        ensures
            steering == spec_steering(keys@),
    {
        let mut throttle: i32 = 0;
        let mut turn: i32 = 0;
        if keys.contains(KeyCode::Up) {
            throttle = throttle + 1;
        }
        if keys.contains(KeyCode::Down) {
            throttle = throttle - 1;
        }
        if keys.contains(KeyCode::Right) {
            turn = turn + 1;
        }
        if keys.contains(KeyCode::Left) {
            turn = turn - 1;
        }
        Steering { throttle, turn }
    }

    /// Runs the control script of every entity that has one, in the order of
    /// the entities. `drives` is lined up with `entities`.
    pub fn update(
        &mut self,
        entities: &mut Vec<Entity>,
        ctx: &mut ServerContext,
        drives: &Vec<Option<Drive>>,
    )
        requires
            forall|i: int|
                0 <= i < old(entities).len() ==> spec_steerable(
                    #[trigger] old(entities)[i],
                    old(ctx)@.keys.len(),
                ),
            old(ctx)@.last_handle + old(entities).len() <= u64::MAX,
        ensures
            final(entities).len() == old(entities).len(),
            forall|i: int|
                0 <= i < old(entities).len() ==> #[trigger] final(entities)[i] == spec_controlled(
                    old(entities)[i],
                    old(ctx)@.keys,
                    spec_entry(drives@, i),
                ),
            final(ctx)@ == spec_all_control_requested(
                old(entities)@,
                drives@,
                old(ctx)@,
                old(entities).len() as int,
            ),
    {
        let count = entities.len();
        let mut i: usize = 0;
        while i < count
            invariant
                i <= count,
                count == entities.len(),
                count == old(entities).len(),
                forall|j: int|
                    0 <= j < old(entities).len() ==> spec_steerable(
                        #[trigger] old(entities)[j],
                        old(ctx)@.keys.len(),
                    ),
                old(ctx)@.last_handle + count <= u64::MAX,
                ctx@.last_handle <= old(ctx)@.last_handle + i,
                ctx@.keys == old(ctx)@.keys,
                forall|j: int|
                    0 <= j < i ==> #[trigger] entities[j] == spec_controlled(
                        old(entities)[j],
                        old(ctx)@.keys,
                        spec_entry(drives@, j),
                    ),
                forall|j: int| i <= j < count ==> #[trigger] entities[j] == old(entities)[j],
                ctx@ == spec_all_control_requested(old(entities)@, drives@, old(ctx)@, i as int),
            decreases count - i,
        {
            let drive = if i < drives.len() {
                drives[i]
            } else {
                None
            };
            proof {
                assert(spec_steerable(old(entities)[i as int], old(ctx)@.keys.len()));
                lemma_control_requested(old(entities)[i as int], drive, ctx@);
            }
            let control = match entities[i].get_component::<ControlComponent>() {
                Some(component) => Some(*component),
                None => None,
            };
            if let Some(component) = control {
                let keys = ctx.pressed_keys(component.input_device_index).clone();
                match component.script {
                    ControlScript::Player => player_control_script(
                        &mut entities[i],
                        ctx,
                        keys,
                        drive,
                    ),
                }
            }
            i += 1;
        }
    }
}

} // verus!
