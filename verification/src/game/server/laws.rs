//! What holds of the server and its mediator whatever the host does.

use crate::game::ecs::collision::{
    lemma_bullets_wear_down_a_tank, lemma_contacts_keep_build, spec_bullet_contacts, spec_contacts,
    spec_index_of, spec_same_build, CollisionScript,
};
use crate::game::ecs::color::spec_color_reports;
use crate::game::ecs::health::spec_health_reports;
use crate::game::ecs::item::spec_inventory_reports;
use crate::game::ecs::position::spec_position_reports;
use crate::game::ecs::prefabs::player::lemma_health_clamps;
use crate::game::ecs::scale::spec_scale_reports;
use crate::game::ecs::Entity;
use crate::game::server::handles::{lemma_applied_in_a_row, spec_unique_handles};
use crate::game::server::context::{spec_spawn_queued, ContextView, ServerCommand};
use crate::game::server::session::{
    spec_await_clients, spec_await_map_choice, spec_chosen_map, spec_ready_after, spec_started,
};
use crate::game::server::{spec_pipeline, Phase, ServerView, SystemKind, CLIENT_COUNT};
use crate::game::server::tick::{
    spec_all_moved, spec_applied, spec_apply, spec_before_color, spec_before_health,
    spec_before_inventory, spec_before_scale, spec_call_systems, spec_despawned, spec_despawns,
    spec_settled_context, spec_settled_entities, spec_survivors, spec_transferred,
    Input, Request,
};
use crate::misc::scalar::Scalar;
use crate::net::event::{Event, Handle};
use crate::net::protocol::Protocol;
use vstd::prelude::*;

verus! {

/// Whether every entity of a list has a handle of at most `bound`.
pub open spec fn spec_handles_up_to(entities: Seq<Entity>, bound: Handle) -> bool {
    forall|i: int| 0 <= i < entities.len() ==> (#[trigger] entities[i]).handle <= bound
}

/// Two entities spawned through the mediator in one tick are queued in the
/// order in which they were asked for, under handles that increase strictly
/// and lie above every handle given out before.
pub proof fn lemma_spawns_take_increasing_handles(ctx: ContextView, first: Entity, second: Entity)
    requires
        ctx.last_handle + 2 <= u64::MAX,
    ensures
        ({
            let queued = spec_spawn_queued(spec_spawn_queued(ctx, first), second);
            let first_handle = (ctx.last_handle + 1) as u64;
            let second_handle = (ctx.last_handle + 2) as u64;
            &&& queued.commands == ctx.commands.push(
                ServerCommand::Spawn(Entity { handle: first_handle, ..first }),
            ).push(ServerCommand::Spawn(Entity { handle: second_handle, ..second }))
            &&& ctx.last_handle < first_handle < second_handle
            &&& queued.last_handle == second_handle
            &&& queued.events == ctx.events
            &&& queued.keys == ctx.keys
        }),
{
}

/// Entities that were spawned through the mediator join the world when the
/// server takes over what the tick collected, and not before: they stand
/// behind the entities that were there, in the order in which they were
/// asked for.
pub proof fn lemma_spawned_join_at_transfer<P: Protocol>(
    server: ServerView,
    ctx: ContextView,
    first: Entity,
    second: Entity,
)
    requires
        ctx.commands == seq![ServerCommand::Spawn(first), ServerCommand::Spawn(second)],
    ensures
        spec_transferred::<P>(server, ctx).entities == server.entities.push(first).push(second),
        spec_transferred::<P>(server, ctx).last_handle == ctx.last_handle,
{
    let after_first = spec_apply::<P>(server, ctx.commands[0]);
    let rest = ctx.commands.skip(1);
    assert(rest[0] == ServerCommand::Spawn(second));
    assert(rest.skip(1).len() == 0);
    let after_second = spec_apply::<P>(after_first, rest[0]);
    assert(spec_applied::<P>(after_second, rest.skip(1)) == after_second);
    assert(spec_applied::<P>(after_first, rest) == after_second);
}

/// A handle that the mediator gives out is in use by no entity of a world
/// whose handles lie at or below the handle given out last.
pub proof fn lemma_fresh_handle_is_unused(entities: Seq<Entity>, ctx: ContextView, entity: Entity)
    requires
        spec_handles_up_to(entities, ctx.last_handle),
        ctx.last_handle < u64::MAX,
    ensures
        forall|i: int|
            0 <= i < entities.len() ==> (#[trigger] entities[i]).handle != spec_spawn_queued(
                ctx,
                entity,
            ).last_handle,
{
}

/// The session leaves the wait for the clients exactly when both have said
/// that they are ready, in whatever order and over however many calls; and
/// until it has left, no game starts, so no client is told that one has.
pub proof fn lemma_start_needs_both_ready<P: Protocol>(
    server: ServerView,
    map_index: usize,
    target_point: (Scalar, Scalar),
)
    requires
        server.well_formed(),
        server.phase == Phase::AwaitingClients,
    ensures
        spec_started::<P>(server, map_index, target_point) == server,
        spec_await_map_choice::<P>(server) == server,
        spec_chosen_map::<P>(server).is_none(),
        spec_await_clients::<P>(server).phase == Phase::AwaitingMapChoice <==> (spec_ready_after::<P>(
            server,
            0,
        ) && spec_ready_after::<P>(server, 1)),
        spec_await_clients::<P>(server).phase == Phase::AwaitingClients ==> (forall|i: int|
            0 <= i < CLIENT_COUNT ==> #[trigger] spec_await_clients::<P>(server).ready[i]
                == spec_ready_after::<P>(server, i)),
{
}

/// Removal treats a list of entities piece by piece: what it announces and
/// what it keeps of two lists in a row is what it announces and keeps of
/// each, in a row.
pub proof fn lemma_despawn_splits(front: Seq<Entity>, back: Seq<Entity>)
    ensures
        spec_despawns(front + back) == spec_despawns(front) + spec_despawns(back),
        spec_survivors(front + back) == spec_survivors(front) + spec_survivors(back),
    decreases back.len(),
{
    if back.len() == 0 {
        assert(front + back =~= front);
        assert(spec_despawns(front) + spec_despawns(back) =~= spec_despawns(front));
        assert(spec_survivors(front) + spec_survivors(back) =~= spec_survivors(front));
    } else {
        lemma_despawn_splits(front, back.drop_last());
        assert((front + back).drop_last() =~= front + back.drop_last());
        assert(spec_despawns(front + back) =~= spec_despawns(front) + spec_despawns(back));
        assert(spec_survivors(front + back) =~= spec_survivors(front) + spec_survivors(back));
    }
}

/// Entities of which none is marked for removal all stay, and nothing is
/// announced.
pub proof fn lemma_despawn_spares_the_living(entities: Seq<Entity>)
    requires
        forall|i: int| 0 <= i < entities.len() ==> !(#[trigger] entities[i]).deleted,
    ensures
        spec_despawns(entities) == Seq::<Event>::empty(),
        spec_survivors(entities) == entities,
    decreases entities.len(),
{
    if entities.len() > 0 {
        lemma_despawn_spares_the_living(entities.drop_last());
        assert(entities.drop_last().push(entities.last()) =~= entities);
    }
}

/// An entity that is marked for removal among others that are not is
/// announced as removed exactly once, and the others stay in their order.
pub proof fn lemma_despawned_once(before: Seq<Entity>, victim: Entity, after: Seq<Entity>)
    requires
        victim.deleted,
        forall|i: int| 0 <= i < before.len() ==> !(#[trigger] before[i]).deleted,
        forall|i: int| 0 <= i < after.len() ==> !(#[trigger] after[i]).deleted,
    ensures
        spec_despawns(before + seq![victim] + after) == seq![Event::Despawn(victim.handle)],
        spec_survivors(before + seq![victim] + after) == before + after,
{
    let single = seq![victim];
    lemma_despawn_spares_the_living(before);
    lemma_despawn_spares_the_living(after);
    lemma_despawn_splits(before + single, after);
    lemma_despawn_splits(before, single);
    assert(single.drop_last() =~= Seq::<Entity>::empty());
    assert(single.last() == victim);
    assert(spec_despawns(single.drop_last()) =~= Seq::<Event>::empty());
    assert(spec_survivors(single.drop_last()) =~= Seq::<Entity>::empty());
    assert(spec_despawns(single) =~= seq![Event::Despawn(victim.handle)]);
    assert(spec_survivors(single) =~= Seq::<Entity>::empty());
    assert(spec_despawns(before + single + after) =~= seq![Event::Despawn(victim.handle)]);
    assert(spec_survivors(before + single + after) =~= before + after);
}

/// The position of a pass in the pipeline.
pub open spec fn spec_place(kind: SystemKind) -> int {
    match kind {
        SystemKind::Npc => 0,
        SystemKind::Control => 1,
        SystemKind::Collision => 2,
        SystemKind::Velocity => 3,
        SystemKind::PositionWatcher => 4,
        SystemKind::Scale => 5,
        SystemKind::Color => 6,
        SystemKind::Health => 7,
        SystemKind::Ttl => 8,
        SystemKind::Inventory => 9,
        SystemKind::Reaper => 10,
    }
}

/// The pass that an input is for.
pub open spec fn spec_pass_of(input: Input) -> SystemKind {
    match input {
        Input::Steerings(_) => SystemKind::Npc,
        Input::Drives(_) => SystemKind::Control,
        Input::Contacts(_) => SystemKind::Collision,
        Input::Targets(_) => SystemKind::Velocity,
    }
}

/// The passes of a tick run in the order of the pipeline, none twice and
/// none skipped. A call of `call_systems` changes something only if its
/// input is for the pass that is next; the pass that is next afterwards is
/// the one behind it in the pipeline; and once the last pass that needs the
/// host has run, the tick runs to its end.
pub proof fn lemma_passes_follow_the_pipeline<P: Protocol>(
    server: ServerView,
    ctx: ContextView,
    input: Input,
    after: ServerView,
    ctx_after: ContextView,
    request: Request,
)
    requires
        spec_call_systems::<P>(server, ctx, input, after, ctx_after, request),
    ensures
        forall|kind: SystemKind| #[trigger] spec_pipeline()[spec_place(kind)] == kind,
        server.stage != Some(spec_pass_of(input)) ==> after == server && ctx_after == ctx
            && request is OutOfTurn,
        server.stage == Some(spec_pass_of(input)) && !(input is Targets) ==> after.stage == Some(
            spec_pipeline()[spec_place(spec_pass_of(input)) + 1],
        ),
        server.stage == Some(spec_pass_of(input)) ==> ((input is Targets) <==> after.stage.is_none()),
        server.stage == Some(spec_pass_of(input)) ==> ((input is Targets) <==> (request is Done)),
{
}

/// No pass before the end of a tick adds an entity, removes one, or changes
/// a handle: whatever the passes ask for waits in the mediator until every
/// pass has run.
pub proof fn lemma_world_waits_for_the_end_of_the_tick<P: Protocol>(
    server: ServerView,
    ctx: ContextView,
    input: Input,
    after: ServerView,
    ctx_after: ContextView,
    request: Request,
)
    requires
        spec_call_systems::<P>(server, ctx, input, after, ctx_after, request),
        !(server.stage == Some(SystemKind::Velocity) && input is Targets),
    ensures
        after.entities.len() == server.entities.len(),
        forall|i: int|
            0 <= i < server.entities.len() ==> (#[trigger] after.entities[i]).handle
                == server.entities[i].handle,
        after.events == server.events,
        after.last_handle == server.last_handle,
        after.game_over == server.game_over,
        after.clients == server.clients,
{
    match (server.stage, input) {
        (Some(SystemKind::Collision), Input::Contacts(contacts)) => {
            lemma_contacts_keep_build(server.entities, contacts@);
        },
        _ => {},
    }
}

/// How often an event stands in a queue.
pub open spec fn spec_count(events: Seq<Event>, event: Event) -> nat
    decreases events.len(),
{
    if events.len() == 0 {
        0
    } else if events.last() == event {
        spec_count(events.drop_last(), event) + 1
    } else {
        spec_count(events.drop_last(), event)
    }
}

/// An event stands in two queues in a row as often as in the one and in the
/// other together.
pub proof fn lemma_count_in_a_row(front: Seq<Event>, back: Seq<Event>, event: Event)
    ensures
        spec_count(front + back, event) == spec_count(front, event) + spec_count(back, event),
    decreases back.len(),
{
    if back.len() == 0 {
        assert(front + back =~= front);
    } else {
        lemma_count_in_a_row(front, back.drop_last(), event);
        assert((front + back).drop_last() =~= front + back.drop_last());
        assert((front + back).last() == back.last());
    }
}

/// A queue of at most one event, and that one another event, does not hold
/// the event.
pub proof fn lemma_count_of_another(events: Seq<Event>, event: Event)
    requires
        events.len() <= 1,
        forall|i: int| 0 <= i < events.len() ==> #[trigger] events[i] != event,
    ensures
        spec_count(events, event) == 0,
{
    if events.len() == 1 {
        assert(events.last() == events[0]);
        assert(events.drop_last().len() == 0);
        assert(spec_count(events.drop_last(), event) == 0);
    }
}

/// Adding one event to a queue adds one to that event's count and nothing
/// to the count of any other.
pub proof fn lemma_count_after_push(events: Seq<Event>, added: Event, event: Event)
    ensures
        spec_count(events.push(added), event) == spec_count(events, event) + (if added == event {
            1nat
        } else {
            0nat
        }),
{
    assert(events.push(added).drop_last() =~= events);
    assert(events.push(added).last() == added);
}

/// No pass that reports changes reports a removal.
pub proof fn lemma_reports_announce_no_removal(entities: Seq<Entity>, handle: Handle)
    ensures
        spec_count(spec_position_reports(entities), Event::Despawn(handle)) == 0,
        spec_count(spec_scale_reports(entities), Event::Despawn(handle)) == 0,
        spec_count(spec_color_reports(entities), Event::Despawn(handle)) == 0,
        spec_count(spec_health_reports(entities), Event::Despawn(handle)) == 0,
        spec_count(spec_inventory_reports(entities), Event::Despawn(handle)) == 0,
    decreases entities.len(),
{
    let removal = Event::Despawn(handle);
    if entities.len() > 0 {
        let shorter = entities.drop_last();
        let last = entities.last();
        lemma_reports_announce_no_removal(shorter, handle);
        lemma_count_of_another(crate::game::ecs::position::spec_position_report(last), removal);
        lemma_count_in_a_row(
            spec_position_reports(shorter),
            crate::game::ecs::position::spec_position_report(last),
            removal,
        );
        lemma_count_of_another(crate::game::ecs::scale::spec_scale_report(last), removal);
        lemma_count_in_a_row(
            spec_scale_reports(shorter),
            crate::game::ecs::scale::spec_scale_report(last),
            removal,
        );
        lemma_count_of_another(crate::game::ecs::color::spec_color_report(last), removal);
        lemma_count_in_a_row(
            spec_color_reports(shorter),
            crate::game::ecs::color::spec_color_report(last),
            removal,
        );
        lemma_count_of_another(crate::game::ecs::health::spec_health_report(last), removal);
        lemma_count_in_a_row(
            spec_health_reports(shorter),
            crate::game::ecs::health::spec_health_report(last),
            removal,
        );
        lemma_count_of_another(crate::game::ecs::item::spec_inventory_report(last), removal);
        lemma_count_in_a_row(
            spec_inventory_reports(shorter),
            crate::game::ecs::item::spec_inventory_report(last),
            removal,
        );
    }
}

/// Whether no entity of a list is marked for removal.
pub open spec fn spec_all_live(entities: Seq<Entity>) -> bool {
    forall|i: int| 0 <= i < entities.len() ==> !(#[trigger] entities[i]).deleted
}

/// Whether every entity that a queue of commands spawns is one that is not
/// marked for removal.
pub open spec fn spec_spawns_live(commands: Seq<ServerCommand>) -> bool {
    forall|k: int|
        0 <= k < commands.len() ==> (#[trigger] commands[k] matches ServerCommand::Spawn(entity)
            ==> !entity.deleted)
}

/// What remains after removal holds no entity that is marked for removal.
pub proof fn lemma_survivors_are_live(entities: Seq<Entity>)
    ensures
        spec_all_live(spec_survivors(entities)),
    decreases entities.len(),
{
    if entities.len() > 0 {
        lemma_survivors_are_live(entities.drop_last());
    }
}

/// Among entities with unique handles, the removal of the one entity under
/// a handle is announced once if that entity is marked for removal, and not
/// at all if it is not.
pub proof fn lemma_removal_is_announced_once(entities: Seq<Entity>, index: int)
    requires
        0 <= index < entities.len(),
        spec_unique_handles(entities),
    ensures
        spec_count(spec_despawns(entities), Event::Despawn(entities[index].handle)) == (if entities[index].deleted {
            1nat
        } else {
            0nat
        }),
    decreases entities.len(),
{
    let removal = Event::Despawn(entities[index].handle);
    let shorter = entities.drop_last();
    let last = entities.last();
    assert forall|i: int, j: int| 0 <= i < j < shorter.len() implies (#[trigger] shorter[i]).handle
        != (#[trigger] shorter[j]).handle by {
        assert(entities[i].handle != entities[j].handle);
    }
    lemma_count_after_push(spec_despawns(shorter), Event::Despawn(last.handle), removal);
    if index < shorter.len() {
        lemma_removal_is_announced_once(shorter, index);
        assert(shorter[index] == entities[index]);
        assert(entities[index].handle != entities[entities.len() - 1].handle);
    } else {
        lemma_no_removal_of_an_absent_handle(shorter, entities[index].handle);
        assert forall|i: int| 0 <= i < shorter.len() implies (#[trigger] shorter[i]).handle
            != entities[index].handle by {
            assert(entities[i].handle != entities[index].handle);
        }
    }
}

/// The removal of a handle that no entity has is not announced.
pub proof fn lemma_no_removal_of_an_absent_handle(entities: Seq<Entity>, handle: Handle)
    ensures
        (forall|i: int| 0 <= i < entities.len() ==> (#[trigger] entities[i]).handle != handle)
            ==> spec_count(spec_despawns(entities), Event::Despawn(handle)) == 0,
    decreases entities.len(),
{
    if entities.len() > 0 {
        let shorter = entities.drop_last();
        lemma_no_removal_of_an_absent_handle(shorter, handle);
        lemma_count_after_push(
            spec_despawns(shorter),
            Event::Despawn(entities.last().handle),
            Event::Despawn(handle),
        );
        if forall|i: int| 0 <= i < entities.len() ==> (#[trigger] entities[i]).handle != handle {
            assert forall|i: int| 0 <= i < shorter.len() implies (#[trigger] shorter[i]).handle
                != handle by {
                assert(entities[i].handle != handle);
            }
            assert(entities[entities.len() - 1].handle != handle);
        }
    }
}

/// Applying commands announces no removal, and brings no entity into the
/// world that is marked for removal unless a command spawns one.
pub proof fn lemma_commands_remove_nothing<P: Protocol>(
    server: ServerView,
    commands: Seq<ServerCommand>,
    handle: Handle,
)
    ensures
        spec_count(spec_applied::<P>(server, commands).events, Event::Despawn(handle))
            == spec_count(server.events, Event::Despawn(handle)),
        spec_all_live(server.entities) && spec_spawns_live(commands) ==> spec_all_live(
            spec_applied::<P>(server, commands).entities,
        ),
    decreases commands.len(),
{
    let removal = Event::Despawn(handle);
    if commands.len() > 0 {
        let next = spec_apply::<P>(server, commands[0]);
        let rest = commands.skip(1);
        lemma_commands_remove_nothing::<P>(next, rest, handle);
        let gained = next.events.skip(server.events.len() as int);
        assert(next.events =~= server.events + gained);
        match commands[0] {
            ServerCommand::Spawn(entity) => {
                lemma_count_of_another(gained, removal);
            },
            ServerCommand::SpawnPlayer(client_index) => {
                if client_index < CLIENT_COUNT {
                    let color = gained.take(1);
                    let spawn = gained.skip(1);
                    assert(gained =~= color + spawn);
                    lemma_count_of_another(color, removal);
                    lemma_count_of_another(spawn, removal);
                    lemma_count_in_a_row(color, spawn, removal);
                } else {
                    lemma_count_of_another(gained, removal);
                }
            },
            ServerCommand::GameOver => {
                lemma_count_of_another(gained, removal);
            },
        }
        lemma_count_in_a_row(server.events, gained, removal);
        if spec_all_live(server.entities) && spec_spawns_live(commands) {
            assert(spec_spawns_live(rest)) by {
                assert forall|k: int| 0 <= k < rest.len() implies (#[trigger] rest[k] matches ServerCommand::Spawn(
                    entity,
                ) ==> !entity.deleted) by {
                    assert(rest[k] == commands[k + 1]);
                }
            }
            assert(spec_all_live(next.entities)) by {
                assert forall|i: int| 0 <= i < next.entities.len() implies !(
                #[trigger] next.entities[i]).deleted by {
                    if i < server.entities.len() {
                        assert(!server.entities[i].deleted);
                    }
                }
            }
        }
    }
}

/// A tank with health left that at least as many bullets touch within one
/// tick as it has health leaves the collision pass with no health and marked
/// for removal; its health never goes below zero. At the end of the same
/// tick its removal has been announced exactly once, and no entity that is
/// marked for removal remains in the world.
///
/// The law speaks of two calls of `call_systems`: the one that is handed the
/// contacts, after which the server and the mediator are `between` and
/// `ctx_between`, and the one that is handed the targets and ends the tick.
/// Each contact has the tank on one side and a bullet on the other, the
/// world has unique handles, and the mediator's queue spawns nothing that is
/// marked for removal, as is the case where only the passes write to it.
pub proof fn lemma_tick_removes_a_dead_tank_once<P: Protocol>(
    server: ServerView,
    ctx: ContextView,
    tank: int,
    bullets: Seq<int>,
    contacts: Input,
    between: ServerView,
    ctx_between: ContextView,
    targets: Input,
    after: ServerView,
    ctx_after: ContextView,
    asked: Request,
    done: Request,
)
    requires
        server.stage == Some(SystemKind::Collision),
        contacts is Contacts,
        targets is Targets,
        spec_call_systems::<P>(server, ctx, contacts, between, ctx_between, asked),
        spec_call_systems::<P>(between, ctx_between, targets, after, ctx_after, done),
        0 <= tank < server.entities.len(),
        spec_unique_handles(server.entities),
        spec_spawns_live(ctx.commands),
        server.entities[tank].components.collision.is_some(),
        server.entities[tank].components.collision.unwrap().script == CollisionScript::Player,
        server.entities[tank].components.health.is_some(),
        1 <= server.entities[tank].components.health.unwrap().health
            <= server.entities[tank].components.health.unwrap().max_health,
        bullets.len() >= server.entities[tank].components.health.unwrap().health,
        forall|k: int|
            0 <= k < bullets.len() ==> {
                let bullet = #[trigger] bullets[k];
                &&& 0 <= bullet < server.entities.len()
                &&& bullet != tank
                &&& server.entities[bullet].components.collision.is_some()
                &&& server.entities[bullet].components.collision.unwrap().script
                    == CollisionScript::Bullet
                &&& server.entities[bullet].components.collision.unwrap().class is Bullet
            },
        spec_bullet_contacts(server.entities, tank, bullets, contacts->Contacts_0@),
    ensures
        ({
            let removal = Event::Despawn(server.entities[tank].handle);
            &&& asked is Targets
            &&& done is Done
            &&& between.entities.len() == server.entities.len()
            &&& between.entities[tank].components.health.is_some()
            &&& between.entities[tank].components.health.unwrap().health == 0
            &&& between.entities[tank].deleted
            &&& after.stage.is_none()
            &&& spec_count(after.events, removal) == spec_count(server.events, removal) + spec_count(
                ctx.events,
                removal,
            ) + 1
            &&& spec_all_live(after.entities)
        }),
{
    let contacts = contacts->Contacts_0@;
    let targets = targets->Targets_0@;
    let entities = server.entities;
    let handle = entities[tank].handle;
    let removal = Event::Despawn(handle);
    lemma_unique_handles_are_found(entities);
    assert(spec_index_of(entities, entities[tank].handle) == Some(tank));
    assert forall|k: int| 0 <= k < bullets.len() implies spec_index_of(
        entities,
        entities[#[trigger] bullets[k]].handle,
    ) == Some(bullets[k]) by {
        let bullet = bullets[k];
        assert(0 <= bullet < entities.len() && entities[bullet].components.collision.is_some());
    }
    lemma_bullets_wear_down_a_tank(entities, tank, bullets, contacts);
    lemma_health_clamps(entities[tank], bullets.len());
    lemma_contacts_keep_build(entities, contacts);
    let hit = spec_contacts(entities, contacts);
    let moved = spec_all_moved(hit, targets);
    let settled = spec_settled_entities(moved, ctx.delta_time);
    assert(settled[tank].deleted && settled[tank].handle == handle) by {
        assert(moved[tank].deleted && moved[tank].handle == handle);
    }
    assert(spec_unique_handles(settled)) by {
        assert forall|i: int, j: int| 0 <= i < j < settled.len() implies (
        #[trigger] settled[i]).handle != (#[trigger] settled[j]).handle by {
            assert(spec_same_build(entities[i], hit[i]));
            assert(spec_same_build(entities[j], hit[j]));
            assert(moved[i].handle == hit[i].handle);
            assert(moved[j].handle == hit[j].handle);
            assert(entities[i].handle != entities[j].handle);
        }
    }
    let cleared = spec_despawned(ServerView { entities: settled, ..between });
    let told = spec_settled_context(moved, ctx);
    lemma_removal_is_announced_once(settled, tank);
    lemma_count_in_a_row(server.events, spec_despawns(settled), removal);
    lemma_survivors_are_live(settled);
    let wishes = told.commands.skip(ctx.commands.len() as int);
    assert(told.commands =~= ctx.commands + wishes);
    lemma_last_wishes_spawn_live(settled);
    lemma_applied_in_a_row::<P>(cleared, ctx.commands, wishes);
    lemma_commands_remove_nothing::<P>(cleared, ctx.commands, handle);
    lemma_commands_remove_nothing::<P>(spec_applied::<P>(cleared, ctx.commands), wishes, handle);
    lemma_reports_announce_no_removal(moved, handle);
    lemma_reports_announce_no_removal(spec_before_scale(moved), handle);
    lemma_reports_announce_no_removal(spec_before_color(moved), handle);
    lemma_reports_announce_no_removal(spec_before_health(moved), handle);
    lemma_reports_announce_no_removal(spec_before_inventory(moved, ctx.delta_time), handle);
    let positions = spec_position_reports(moved);
    let scales = spec_scale_reports(spec_before_scale(moved));
    let colors = spec_color_reports(spec_before_color(moved));
    let healths = spec_health_reports(spec_before_health(moved));
    let inventories = spec_inventory_reports(spec_before_inventory(moved, ctx.delta_time));
    lemma_count_in_a_row(ctx.events, positions, removal);
    lemma_count_in_a_row(ctx.events + positions, scales, removal);
    lemma_count_in_a_row(ctx.events + positions + scales, colors, removal);
    lemma_count_in_a_row(ctx.events + positions + scales + colors, healths, removal);
    lemma_count_in_a_row(ctx.events + positions + scales + colors + healths, inventories, removal);
    let applied = spec_applied::<P>(cleared, told.commands);
    lemma_count_in_a_row(applied.events, told.events, removal);
}

/// Among entities with unique handles, every entity that takes part in
/// collisions is the one that is found under its handle.
pub proof fn lemma_unique_handles_are_found(entities: Seq<Entity>)
    requires
        spec_unique_handles(entities),
    ensures
        forall|i: int|
            0 <= i < entities.len() && (#[trigger] entities[i]).components.collision.is_some()
                ==> spec_index_of(entities, entities[i].handle) == Some(i),
    decreases entities.len(),
{
    if entities.len() > 0 {
        let shorter = entities.drop_last();
        assert forall|i: int, j: int| 0 <= i < j < shorter.len() implies (#[trigger] shorter[i]).handle
            != (#[trigger] shorter[j]).handle by {
            assert(entities[i].handle != entities[j].handle);
        }
        lemma_unique_handles_are_found(shorter);
        assert forall|i: int|
            0 <= i < entities.len() && (#[trigger] entities[i]).components.collision.is_some() implies spec_index_of(
            entities,
            entities[i].handle,
        ) == Some(i) by {
            if i < shorter.len() {
                assert(shorter[i] == entities[i]);
                assert(entities[i].handle != entities[entities.len() - 1].handle);
            }
        }
    }
}

/// The last wishes of entities spawn nothing that is marked for removal.
pub proof fn lemma_last_wishes_spawn_live(entities: Seq<Entity>)
    ensures
        spec_spawns_live(crate::game::ecs::death::spec_all_last_wishes(entities)),
    decreases entities.len(),
{
    if entities.len() > 0 {
        lemma_last_wishes_spawn_live(entities.drop_last());
    }
}

} // verus!
