//! The invariant of the world: no two entities have the same handle.
//!
//! The invariant holds of a world in order: one in which handles are
//! unique, none lies above the handle given out last, and every entity that
//! leaves a last wish is the tank of a client under that client's handle.
//! The start of a game puts the world in order, and a tick keeps it so.

use crate::game::ecs::collision::{lemma_contacts_keep_build, spec_same_build, spec_synced};
use crate::game::ecs::control::{spec_all_control_requested, spec_control_requested, Drive};
use crate::game::ecs::death::{spec_all_last_wishes, spec_dying, spec_last_wishes};
use crate::game::ecs::velocity::spec_entry;
use crate::game::ecs::Entity;
use crate::game::server::context::{ContextView, ServerCommand};
use crate::game::server::maps::{spec_player_handle, spec_player_spawned};
use crate::game::server::session::{spec_started, START_ENTITY_COUNT};
use crate::game::server::tick::{
    spec_all_controlled, spec_all_moved, spec_applied, spec_apply, spec_call_systems, spec_despawned, spec_fit,
    spec_settled_context, spec_settled_entities, spec_survivors, spec_ticked, Input, Request,
};
use crate::game::server::{Phase, ServerView, SystemKind, CLIENT_COUNT, PLAYER2_HANDLE};
use crate::misc::scalar::Scalar;
use crate::net::event::Handle;
use crate::net::protocol::Protocol;
use vstd::prelude::*;

verus! {

/// Whether no two entities of a list have the same handle.
pub open spec fn spec_unique_handles(entities: Seq<Entity>) -> bool {
    forall|i: int, j: int|
        0 <= i < j < entities.len() ==> (#[trigger] entities[i]).handle != (
        #[trigger] entities[j]).handle
}

/// Whether an entity of a list has the given handle.
pub open spec fn spec_has_handle(entities: Seq<Entity>, handle: Handle) -> bool {
    exists|i: int| 0 <= i < entities.len() && (#[trigger] entities[i]).handle == handle
}

/// Whether an entity that leaves a last wish is the tank of a client, under
/// that client's handle.
pub open spec fn spec_registered(entity: Entity) -> bool {
    match (entity.components.death, entity.components.control) {
        (Some(_), Some(control)) => control.input_device_index < CLIENT_COUNT && entity.handle
            == spec_player_handle(control.input_device_index),
        (Some(_), None) => false,
        (None, _) => true,
    }
}

/// Whether a world is in order: handles are unique, none lies above
/// `last_handle`, and every entity that leaves a last wish is registered.
pub open spec fn spec_in_order(entities: Seq<Entity>, last_handle: Handle) -> bool {
    &&& spec_unique_handles(entities)
    &&& forall|i: int|
        0 <= i < entities.len() ==> (#[trigger] entities[i]).handle <= last_handle
            && spec_registered(entities[i])
}

/// Whether a queue of commands holds nothing but spawns of entities that
/// leave no last wish, under handles that increase strictly and lie above
/// `low` and not above `high`. This is what the passes before the reaper
/// leave in a mediator that started out empty.
pub open spec fn spec_orderly(commands: Seq<ServerCommand>, low: Handle, high: Handle) -> bool {
    &&& forall|k: int|
        0 <= k < commands.len() ==> (#[trigger] commands[k] matches ServerCommand::Spawn(entity)
            && low < entity.handle <= high && entity.components.death.is_none())
    &&& forall|k: int, l: int|
        0 <= k < l < commands.len() ==> (#[trigger] commands[k])->Spawn_0.handle < (
        #[trigger] commands[l])->Spawn_0.handle
}

/// A world in order stays in order when an entity joins it whose handle is
/// not in use.
pub proof fn lemma_joining_keeps_order(
    entities: Seq<Entity>,
    last_handle: Handle,
    entity: Entity,
    bound: Handle,
)
    requires
        spec_in_order(entities, last_handle),
        last_handle <= bound,
        entity.handle <= bound,
        spec_registered(entity),
        !spec_has_handle(entities, entity.handle),
    ensures
        spec_in_order(entities.push(entity), bound),
{
    let joined = entities.push(entity);
    assert forall|i: int, j: int| 0 <= i < j < joined.len() implies (#[trigger] joined[i]).handle != (
    #[trigger] joined[j]).handle by {
        if j == entities.len() {
            assert(entities[i].handle != entity.handle);
        } else {
            assert(entities[i].handle != entities[j].handle);
        }
    }
    assert forall|i: int| 0 <= i < joined.len() implies (#[trigger] joined[i]).handle <= bound
        && spec_registered(joined[i]) by {
        if i < entities.len() {
            assert(entities[i].handle <= last_handle);
        }
    }
}

/// What remains of a world in order after removal is in order, and every
/// handle that remains is the handle of an entity that was not marked for
/// removal.
pub proof fn lemma_survivors_in_order(entities: Seq<Entity>, last_handle: Handle)
    requires
        spec_in_order(entities, last_handle),
    ensures
        spec_in_order(spec_survivors(entities), last_handle),
        forall|handle: Handle| #[trigger]
            spec_has_handle(spec_survivors(entities), handle) ==> exists|i: int|
                0 <= i < entities.len() && (#[trigger] entities[i]).handle == handle
                    && !entities[i].deleted,
    decreases entities.len(),
{
    if entities.len() > 0 {
        let shorter = entities.drop_last();
        let last = entities.last();
        assert forall|i: int, j: int| 0 <= i < j < shorter.len() implies (#[trigger] shorter[i]).handle
            != (#[trigger] shorter[j]).handle by {
            assert(entities[i].handle != entities[j].handle);
        }
        assert forall|i: int| 0 <= i < shorter.len() implies (#[trigger] shorter[i]).handle
            <= last_handle && spec_registered(shorter[i]) by {
            assert(entities[i].handle <= last_handle);
        }
        lemma_survivors_in_order(shorter, last_handle);
        let kept = spec_survivors(shorter);
        assert forall|handle: Handle| #[trigger] spec_has_handle(kept, handle) implies exists|i: int|
            0 <= i < entities.len() && (#[trigger] entities[i]).handle == handle
                && !entities[i].deleted by {
            let i = choose|i: int|
                0 <= i < shorter.len() && (#[trigger] shorter[i]).handle == handle
                    && !shorter[i].deleted;
            assert(entities[i].handle == handle);
        }
        if !last.deleted {
            assert(entities[entities.len() - 1] == last);
            if spec_has_handle(kept, last.handle) {
                let i = choose|i: int|
                    0 <= i < entities.len() && (#[trigger] entities[i]).handle == last.handle
                        && !entities[i].deleted && i < shorter.len();
                assert(entities[i].handle != entities[entities.len() - 1].handle);
            }
            lemma_joining_keeps_order(kept, last_handle, last, last_handle);
            let all = kept.push(last);
            assert forall|handle: Handle| #[trigger] spec_has_handle(all, handle) implies exists|
                i: int,
            |
                0 <= i < entities.len() && (#[trigger] entities[i]).handle == handle
                    && !entities[i].deleted by {
                let k = choose|k: int| 0 <= k < all.len() && (#[trigger] all[k]).handle == handle;
                if k < kept.len() {
                    assert(kept[k].handle == handle);
                    assert(spec_has_handle(kept, handle));
                } else {
                    assert(entities[entities.len() - 1].handle == handle);
                }
            }
        }
    }
}

/// Applying one queue of commands after another is applying the two in a
/// row.
pub proof fn lemma_applied_in_a_row<P: Protocol>(
    server: ServerView,
    first: Seq<ServerCommand>,
    second: Seq<ServerCommand>,
)
    ensures
        spec_applied::<P>(server, first + second) == spec_applied::<P>(
            spec_applied::<P>(server, first),
            second,
        ),
    decreases first.len(),
{
    if first.len() == 0 {
        assert(first + second =~= second);
    } else {
        assert((first + second)[0] == first[0]);
        assert((first + second).skip(1) =~= first.skip(1) + second);
        lemma_applied_in_a_row::<P>(spec_apply::<P>(server, first[0]), first.skip(1), second);
    }
}

/// The passes that need no arithmetic change neither a handle nor what an
/// entity leaves as its last wish, so they keep a world in order.
pub proof fn lemma_settling_keeps_order(entities: Seq<Entity>, delta_time: u64, last_handle: Handle)
    requires
        spec_in_order(entities, last_handle),
    ensures
        spec_in_order(spec_settled_entities(entities, delta_time), last_handle),
{
    let settled = spec_settled_entities(entities, delta_time);
    assert forall|i: int, j: int| 0 <= i < j < settled.len() implies (#[trigger] settled[i]).handle
        != (#[trigger] settled[j]).handle by {
        assert(entities[i].handle != entities[j].handle);
    }
    assert forall|i: int| 0 <= i < settled.len() implies (#[trigger] settled[i]).handle
        <= last_handle && spec_registered(settled[i]) by {
        assert(entities[i].handle <= last_handle && spec_registered(entities[i]));
    }
}

/// Applying an orderly queue of commands to a world in order leaves the
/// world in order, with nothing changed but the entities and the events.
/// Every handle in the world afterwards was there before or lies in the
/// range of the queue.
pub proof fn lemma_spawns_keep_order<P: Protocol>(
    server: ServerView,
    commands: Seq<ServerCommand>,
    low: Handle,
    high: Handle,
)
    requires
        spec_in_order(server.entities, low),
        spec_orderly(commands, low, high),
        low <= high,
    ensures
        spec_in_order(spec_applied::<P>(server, commands).entities, high),
        forall|handle: Handle| #[trigger]
            spec_has_handle(spec_applied::<P>(server, commands).entities, handle)
                ==> spec_has_handle(server.entities, handle) || low < handle <= high,
        spec_applied::<P>(server, commands) == (ServerView {
            entities: spec_applied::<P>(server, commands).entities,
            events: spec_applied::<P>(server, commands).events,
            ..server
        }),
    decreases commands.len(),
{
    if commands.len() == 0 {
        assert forall|i: int| 0 <= i < server.entities.len() implies (
        #[trigger] server.entities[i]).handle <= high && spec_registered(server.entities[i]) by {
            assert(server.entities[i].handle <= low);
        }
    } else {
        let entity = commands[0]->Spawn_0;
        let next = spec_apply::<P>(server, commands[0]);
        let rest = commands.skip(1);
        assert(commands[0] matches ServerCommand::Spawn(e) && low < e.handle <= high);
        if spec_has_handle(server.entities, entity.handle) {
            let i = choose|i: int|
                0 <= i < server.entities.len() && (#[trigger] server.entities[i]).handle
                    == entity.handle;
            assert(server.entities[i].handle <= low);
        }
        lemma_joining_keeps_order(server.entities, low, entity, entity.handle);
        assert forall|k: int| 0 <= k < rest.len() implies (#[trigger] rest[k] matches ServerCommand::Spawn(
            e,
        ) && entity.handle < e.handle <= high && e.components.death.is_none()) by {
            assert(rest[k] == commands[k + 1]);
            assert(commands[0]->Spawn_0.handle < commands[k + 1]->Spawn_0.handle);
        }
        assert forall|k: int, l: int| 0 <= k < l < rest.len() implies (#[trigger] rest[k])->Spawn_0.handle
            < (#[trigger] rest[l])->Spawn_0.handle by {
            assert(rest[k] == commands[k + 1]);
            assert(rest[l] == commands[l + 1]);
            assert(commands[k + 1]->Spawn_0.handle < commands[l + 1]->Spawn_0.handle);
        }
        lemma_spawns_keep_order::<P>(next, rest, entity.handle, high);
        let after = spec_applied::<P>(server, commands);
        assert forall|handle: Handle| #[trigger] spec_has_handle(after.entities, handle) implies spec_has_handle(
            server.entities,
            handle,
        ) || low < handle <= high by {
            if spec_has_handle(next.entities, handle) {
                let i = choose|i: int|
                    0 <= i < next.entities.len() && (#[trigger] next.entities[i]).handle == handle;
                if i < server.entities.len() {
                    assert(server.entities[i].handle == handle);
                }
            }
        }
    }
}

/// Granting the last wishes of the first `count` of the entities that the
/// tick has settled keeps the world in order. `settled` are those entities,
/// the ones marked for removal among them; the world holds what remained of
/// them, and what was spawned under handles above those of the clients'
/// tanks. Each dying tank is replaced under its own handle, which is free
/// because the dying tank itself has left the world.
pub proof fn lemma_last_wishes_keep_order<P: Protocol>(
    server: ServerView,
    settled: Seq<Entity>,
    count: int,
    high: Handle,
)
    requires
        0 <= count <= settled.len(),
        spec_in_order(settled, high),
        spec_in_order(server.entities, high),
        forall|handle: Handle| #[trigger]
            spec_has_handle(server.entities, handle) ==> handle > PLAYER2_HANDLE || exists|i: int|
                0 <= i < settled.len() && (#[trigger] settled[i]).handle == handle
                    && !settled[i].deleted,
    ensures
        spec_in_order(
            spec_applied::<P>(server, spec_all_last_wishes(settled.take(count))).entities,
            high,
        ),
        forall|handle: Handle| #[trigger]
            spec_has_handle(
                spec_applied::<P>(server, spec_all_last_wishes(settled.take(count))).entities,
                handle,
            ) ==> spec_has_handle(server.entities, handle) || exists|j: int|
                0 <= j < count && spec_dying(#[trigger] settled[j]) && settled[j].handle == handle,
    decreases count,
{
    if count == 0 {
        assert(settled.take(0) =~= Seq::<Entity>::empty());
    } else {
        let dying = settled[count - 1];
        let earlier = spec_all_last_wishes(settled.take(count - 1));
        let wishes = spec_last_wishes(dying);
        assert(settled.take(count).drop_last() =~= settled.take(count - 1));
        assert(settled.take(count).last() == dying);
        lemma_applied_in_a_row::<P>(server, earlier, wishes);
        lemma_last_wishes_keep_order::<P>(server, settled, count - 1, high);
        let before = spec_applied::<P>(server, earlier);
        let after = spec_applied::<P>(before, wishes);
        if spec_dying(dying) {
            assert(spec_registered(dying) && dying.handle <= high);
            let client_index = dying.components.control.unwrap().input_device_index;
            let manned = spec_player_spawned::<P>(before, client_index);
            let tank = manned.entities.last();
            let rest = wishes.skip(1);
            assert(wishes.len() == 2);
            assert(wishes[0] == ServerCommand::SpawnPlayer(client_index));
            assert(rest[0] == ServerCommand::GameOver);
            assert(rest.skip(1).len() == 0);
            assert(spec_apply::<P>(before, wishes[0]) == manned);
            let over = spec_apply::<P>(manned, rest[0]);
            assert(spec_applied::<P>(over, rest.skip(1)) == over);
            assert(spec_applied::<P>(manned, rest) == over);
            assert(after == over);
            assert(after.entities == before.entities.push(tank));
            assert(tank.handle == dying.handle);
            if spec_has_handle(before.entities, tank.handle) {
                if spec_has_handle(server.entities, tank.handle) {
                    let i = choose|i: int|
                        0 <= i < settled.len() && (#[trigger] settled[i]).handle == tank.handle
                            && !settled[i].deleted;
                    if i < count - 1 {
                        assert(settled[i].handle != settled[count - 1].handle);
                    } else {
                        assert(settled[count - 1].handle != settled[i].handle);
                    }
                } else {
                    let j = choose|j: int|
                        0 <= j < count - 1 && spec_dying(#[trigger] settled[j]) && settled[j].handle
                            == tank.handle;
                    assert(settled[j].handle != settled[count - 1].handle);
                }
            }
            lemma_joining_keeps_order(before.entities, high, tank, high);
            assert forall|handle: Handle| #[trigger] spec_has_handle(after.entities, handle) implies spec_has_handle(
                server.entities,
                handle,
            ) || exists|j: int|
                0 <= j < count && spec_dying(#[trigger] settled[j]) && settled[j].handle
                    == handle by {
                let k = choose|k: int|
                    0 <= k < after.entities.len() && (#[trigger] after.entities[k]).handle == handle;
                if k < before.entities.len() {
                    assert(before.entities[k].handle == handle);
                    assert(spec_has_handle(before.entities, handle));
                } else {
                    assert(spec_dying(settled[count - 1]));
                }
            }
        } else {
            assert(wishes.len() == 0);
        }
    }
}

/// A tick keeps the world in order. This holds of a tick whose mediator
/// gives out handles from where the server stopped, and holds, when the
/// last passes run, nothing but the spawns that the passes before asked
/// for.
pub proof fn lemma_tick_keeps_handles_unique<P: Protocol>(server: ServerView, ctx: ContextView)
    requires
        spec_in_order(server.entities, server.last_handle),
        PLAYER2_HANDLE <= server.last_handle <= ctx.last_handle,
        spec_orderly(ctx.commands, server.last_handle, ctx.last_handle),
    ensures
        spec_in_order(
            spec_ticked::<P>(server, ctx).entities,
            spec_ticked::<P>(server, ctx).last_handle,
        ),
        spec_unique_handles(spec_ticked::<P>(server, ctx).entities),
        spec_ticked::<P>(server, ctx).last_handle == ctx.last_handle,
{
    let low = server.last_handle;
    let high = ctx.last_handle;
    let settled = spec_settled_entities(server.entities, ctx.delta_time);
    let cleared = spec_despawned(ServerView { entities: settled, ..server });
    let wishes = spec_all_last_wishes(settled);
    lemma_settling_keeps_order(server.entities, ctx.delta_time, low);
    lemma_survivors_in_order(settled, low);
    lemma_spawns_keep_order::<P>(cleared, ctx.commands, low, high);
    lemma_applied_in_a_row::<P>(cleared, ctx.commands, wishes);
    let spawned = spec_applied::<P>(cleared, ctx.commands);
    assert forall|i: int| 0 <= i < settled.len() implies (#[trigger] settled[i]).handle <= high
        && spec_registered(settled[i]) by {
        assert(settled[i].handle <= low);
    }
    assert forall|handle: Handle| #[trigger] spec_has_handle(spawned.entities, handle) implies handle
        > PLAYER2_HANDLE || exists|i: int|
        0 <= i < settled.len() && (#[trigger] settled[i]).handle == handle
            && !settled[i].deleted by {
        if spec_has_handle(cleared.entities, handle) {
            assert(spec_has_handle(spec_survivors(settled), handle));
        }
    }
    lemma_last_wishes_keep_order::<P>(spawned, settled, settled.len() as int, high);
    assert(settled.take(settled.len() as int) =~= settled);
    assert(spec_settled_context(server.entities, ctx).commands == ctx.commands + wishes);
}

/// Whether two entities have the same handle and leave the same last wish.
pub open spec fn spec_same_identity(a: Entity, b: Entity) -> bool {
    &&& a.handle == b.handle
    &&& a.components.control == b.components.control
    &&& a.components.death == b.components.death
}

/// A list of entities that have, place by place, the identities of those of
/// a world in order is in order as well.
pub proof fn lemma_same_identities_keep_order(
    before: Seq<Entity>,
    after: Seq<Entity>,
    last_handle: Handle,
)
    requires
        spec_in_order(before, last_handle),
        after.len() == before.len(),
        forall|i: int| 0 <= i < before.len() ==> spec_same_identity(before[i], #[trigger] after[i]),
    ensures
        spec_in_order(after, last_handle),
{
    assert forall|i: int, j: int| 0 <= i < j < after.len() implies (#[trigger] after[i]).handle != (
    #[trigger] after[j]).handle by {
        assert(spec_same_identity(before[i], after[i]));
        assert(spec_same_identity(before[j], after[j]));
        assert(before[i].handle != before[j].handle);
    }
    assert forall|i: int| 0 <= i < after.len() implies (#[trigger] after[i]).handle <= last_handle
        && spec_registered(after[i]) by {
        assert(spec_same_identity(before[i], after[i]));
        assert(before[i].handle <= last_handle && spec_registered(before[i]));
    }
}

/// The control pass leaves the mediator's queue orderly: all that it adds
/// are bullets, each under the next handle.
pub proof fn lemma_control_keeps_queue_orderly(
    entities: Seq<Entity>,
    drives: Seq<Option<Drive>>,
    ctx: ContextView,
    count: int,
    low: Handle,
)
    requires
        0 <= count,
        low <= ctx.last_handle,
        ctx.last_handle + count <= u64::MAX,
        spec_orderly(ctx.commands, low, ctx.last_handle),
    ensures
        ({
            let after = spec_all_control_requested(entities, drives, ctx, count);
            &&& spec_orderly(after.commands, low, after.last_handle)
            &&& ctx.last_handle <= after.last_handle <= ctx.last_handle + count
        }),
    decreases count,
{
    if count > 0 {
        lemma_control_keeps_queue_orderly(entities, drives, ctx, count - 1, low);
        let before = spec_all_control_requested(entities, drives, ctx, count - 1);
        let after = spec_control_requested(entities[count - 1], spec_entry(drives, count - 1), before);
        if after != before {
            let shot = after.commands.last();
            assert(after.commands == before.commands.push(shot));
            assert forall|k: int| 0 <= k < after.commands.len() implies (
            #[trigger] after.commands[k] matches ServerCommand::Spawn(entity) && low < entity.handle
                <= after.last_handle && entity.components.death.is_none()) by {
                if k < before.commands.len() {
                    assert(before.commands[k] matches ServerCommand::Spawn(entity) && low
                        < entity.handle <= before.last_handle);
                }
            }
            assert forall|k: int, l: int| 0 <= k < l < after.commands.len() implies (
            #[trigger] after.commands[k])->Spawn_0.handle < (
            #[trigger] after.commands[l])->Spawn_0.handle by {
                if l < before.commands.len() {
                    assert(before.commands[k]->Spawn_0.handle < before.commands[l]->Spawn_0.handle);
                } else {
                    assert(before.commands[k] matches ServerCommand::Spawn(entity) && low
                        < entity.handle <= before.last_handle);
                }
            }
        }
    }
}

/// Whether a server and the mediator of its tick are in order: the world is
/// in order, the mediator gives out handles from where the server stopped
/// or beyond, and its queue is orderly.
pub open spec fn spec_tick_in_order(server: ServerView, ctx: ContextView) -> bool {
    &&& spec_in_order(server.entities, server.last_handle)
    &&& PLAYER2_HANDLE <= server.last_handle <= ctx.last_handle
    &&& spec_orderly(ctx.commands, server.last_handle, ctx.last_handle)
}

/// Every call of `call_systems` keeps the server and the mediator of its
/// tick in order. So handles are unique before and after every pass of
/// every tick, as long as nothing but the passes writes to the mediator.
pub proof fn lemma_call_systems_keeps_handles_unique<P: Protocol>(
    server: ServerView,
    ctx: ContextView,
    input: Input,
    after: ServerView,
    ctx_after: ContextView,
    request: Request,
)
    requires
        spec_tick_in_order(server, ctx),
        spec_fit(server, ctx, input),
        spec_call_systems::<P>(server, ctx, input, after, ctx_after, request),
    ensures
        spec_unique_handles(after.entities),
        spec_in_order(after.entities, after.last_handle),
        PLAYER2_HANDLE <= after.last_handle,
        after.stage.is_some() ==> spec_tick_in_order(after, ctx_after),
{
    match (server.stage, input) {
        (Some(SystemKind::Npc), Input::Steerings(steerings)) => {
            lemma_same_identities_keep_order(server.entities, after.entities, server.last_handle);
        },
        (Some(SystemKind::Control), Input::Drives(drives)) => {
            let controlled = spec_all_controlled(server.entities, ctx.keys, drives@);
            assert forall|i: int| 0 <= i < server.entities.len() implies spec_same_identity(
                server.entities[i],
                #[trigger] after.entities[i],
            ) by {
                assert(spec_same_identity(server.entities[i], controlled[i]));
                assert(after.entities[i] == spec_synced(controlled[i]));
            }
            lemma_same_identities_keep_order(server.entities, after.entities, server.last_handle);
            lemma_control_keeps_queue_orderly(
                server.entities,
                drives@,
                ctx,
                server.entities.len() as int,
                server.last_handle,
            );
        },
        (Some(SystemKind::Collision), Input::Contacts(contacts)) => {
            lemma_contacts_keep_build(server.entities, contacts@);
            assert forall|i: int| 0 <= i < server.entities.len() implies spec_same_identity(
                server.entities[i],
                #[trigger] after.entities[i],
            ) by {
                assert(spec_same_build(server.entities[i], after.entities[i]));
            }
            lemma_same_identities_keep_order(server.entities, after.entities, server.last_handle);
        },
        (Some(SystemKind::Velocity), Input::Targets(targets)) => {
            let moved = spec_all_moved(server.entities, targets@);
            lemma_same_identities_keep_order(server.entities, moved, server.last_handle);
            lemma_tick_keeps_handles_unique::<P>(ServerView { entities: moved, ..server }, ctx);
        },
        _ => {},
    }
}

/// The start of a game puts an empty world in order.
pub proof fn lemma_start_puts_world_in_order<P: Protocol>(
    server: ServerView,
    map_index: usize,
    target_point: (Scalar, Scalar),
)
    requires
        server.phase == Phase::AwaitingMapChoice,
        server.entities.len() == 0,
        PLAYER2_HANDLE <= server.last_handle,
        server.last_handle + START_ENTITY_COUNT <= u64::MAX,
    ensures
        spec_in_order(
            spec_started::<P>(server, map_index, target_point).entities,
            spec_started::<P>(server, map_index, target_point).last_handle,
        ),
        PLAYER2_HANDLE <= spec_started::<P>(server, map_index, target_point).last_handle,
{
}

} // verus!
