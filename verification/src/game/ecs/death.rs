//! What happens when an entity leaves the world.

use crate::game::ecs::Entity;
use crate::game::ecs::prefabs::player::{player_death_script, spec_player_last_wishes};
use crate::game::server::{ContextView, ServerCommand, ServerContext};
use vstd::prelude::*;

verus! {

/// What an entity does in the last tick before it is removed.
#[derive(Clone, Copy, Debug, PartialEq, Eq, Structural)]
pub enum DeathScript {
    /// Asks for a fresh player for the same client and ends the game.
    Player,
}

/// Gives an entity something to do before it is removed.
#[derive(Clone, Copy, Debug, PartialEq, Eq)]
pub struct DeathComponent {
    pub script: DeathScript,
}

impl DeathComponent {
    pub fn new(script: DeathScript) -> (component: Self)
        ensures
            component == (DeathComponent { script }),
    {
        DeathComponent { script }
    }
}

/// Lets every entity that is marked for removal do its last act. Runs last
/// in a tick; the entities are removed right after.
pub struct ReaperSystem;

/// Whether the entity is about to be removed and has something to do first.
pub open spec fn spec_dying(entity: Entity) -> bool {
    entity.deleted && entity.components.death.is_some()
}

/// The commands that an entity leaves behind when it is removed.
pub open spec fn spec_last_wishes(entity: Entity) -> Seq<ServerCommand> {
    if spec_dying(entity) {
        match entity.components.death.unwrap().script {
            DeathScript::Player => spec_player_last_wishes(entity),
        }
    } else {
        Seq::empty()
    }
}

/// The commands that a list of entities leaves behind, in their order.
pub open spec fn spec_all_last_wishes(entities: Seq<Entity>) -> Seq<ServerCommand>
    decreases entities.len(),
{
    if entities.len() == 0 {
        Seq::empty()
    } else {
        spec_all_last_wishes(entities.drop_last()) + spec_last_wishes(entities.last())
    }
}

/// Whether the entity can do its last act: a tank that dies must know which
/// client steered it.
pub open spec fn spec_can_die(entity: Entity) -> bool {
    spec_dying(entity) ==> entity.components.control.is_some()
}

impl ReaperSystem {
    /// Runs the death script of every entity that is marked for removal and
    /// has one, in the order of the entities.
    pub fn update(&mut self, entities: &mut Vec<Entity>, ctx: &mut ServerContext)
        requires
            forall|i: int|
                0 <= i < old(entities).len() ==> spec_can_die(#[trigger] old(entities)[i]),
        ensures
            final(entities)@ == old(entities)@,
            final(ctx)@ == (ContextView {
                commands: old(ctx)@.commands + spec_all_last_wishes(old(entities)@),
                ..old(ctx)@
            }),
    {
        let count = entities.len();
        let mut i: usize = 0;
        assert(old(ctx)@.commands + spec_all_last_wishes(old(entities)@.take(0)) =~= old(
            ctx,
        )@.commands);
        while i < count
            invariant
                i <= count,
                count == entities.len(),
                entities@ == old(entities)@,
                forall|j: int| 0 <= j < count ==> spec_can_die(#[trigger] entities[j]),
                ctx@ == (ContextView {
                    commands: old(ctx)@.commands + spec_all_last_wishes(
                        old(entities)@.take(i as int),
                    ),
                    ..old(ctx)@
                }),
            decreases count - i,
        {
            let ghost before = ctx@.commands;
            proof {
                assert(old(entities)@.take(i + 1).drop_last() =~= old(entities)@.take(i as int));
                assert(spec_can_die(entities[i as int]));
            }
            if entities[i].deleted() {
                let script = match entities[i].get_component::<DeathComponent>() {
                    Some(death_component) => Some(death_component.script),
                    None => None,
                };
                match script {
                    Some(DeathScript::Player) => player_death_script(&mut entities[i], ctx),
                    None => {},
                }
            }
            proof {
                assert(ctx@.commands =~= before + spec_last_wishes(old(entities)[i as int]));
                assert(ctx@.commands =~= old(ctx)@.commands + spec_all_last_wishes(
                    old(entities)@.take(i + 1),
                ));
                assert(entities@ =~= old(entities)@);
            }
            i += 1;
        }
        assert(old(entities)@.take(count as int) =~= old(entities)@);
    }
}

} // verus!
