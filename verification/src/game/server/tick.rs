//! One tick of the world: the passes in their order, the removal of what
//! was marked for it, and the commands that the passes collected.

use crate::game::ecs::collision::{
    spec_contacts, spec_hitboxes, spec_synced, spec_well_built, CollisionComponent,
    CollisionScript, CollisionSystem, Hitbox,
};
use crate::game::ecs::color::{spec_color_reports, spec_color_settled, ColorSystem};
use crate::game::ecs::control::{
    spec_all_control_requested, spec_controlled, spec_steerable, ControlComponent, ControlSystem,
    Drive,
};
use crate::game::ecs::death::{spec_all_last_wishes, spec_can_die, DeathComponent, ReaperSystem};
use crate::game::ecs::Entity;
use crate::game::ecs::health::{spec_health_reports, spec_health_settled, HealthSystem};
use crate::game::ecs::item::{
    spec_inventory_reports, spec_inventory_settled, InventorySystem, PickUpComponent,
};
use crate::game::ecs::npc::{spec_npc_pressed, spec_npc_steered, NpcSteering, NpcSystem};
use crate::game::ecs::position::{
    spec_position_reports, spec_position_settled, Position, PositionWatcherSystem,
};
use crate::game::ecs::scale::{spec_scale_reports, spec_scale_settled, ScaleSystem};
use crate::game::ecs::ttl::{spec_aged, TtlSystem};
use crate::game::ecs::velocity::{spec_entry, spec_moved, VelocitySystem};
use crate::game::keyboard::{KeyCode, KeySet};
use crate::game::server::{
    spec_client_views, spec_spawned, Phase, Server, ServerView, SystemKind, CLIENT_COUNT,
    INPUT_DEVICE_COUNT, NPC_INPUT_DEVICE,
};
use crate::game::server::context::{spec_key_views, ContextView, ServerCommand, ServerContext};
use crate::game::server::maps::spec_player_spawned;
use crate::misc::scalar::Scalar;
use crate::net::event::{Event, Handle};
use crate::net::protocol::Protocol;
use vstd::prelude::*;

verus! {

/// The events that announce the removal of the entities that are marked for
/// it, in the order of the entities.
pub open spec fn spec_despawns(entities: Seq<Entity>) -> Seq<Event>
    decreases entities.len(),
{
    if entities.len() == 0 {
        Seq::empty()
    } else if entities.last().deleted {
        spec_despawns(entities.drop_last()).push(Event::Despawn(entities.last().handle))
    } else {
        spec_despawns(entities.drop_last())
    }
}

/// The entities that are not marked for removal, in their order.
pub open spec fn spec_survivors(entities: Seq<Entity>) -> Seq<Entity>
    decreases entities.len(),
{
    if entities.len() == 0 {
        Seq::empty()
    } else if entities.last().deleted {
        spec_survivors(entities.drop_last())
    } else {
        spec_survivors(entities.drop_last()).push(entities.last())
    }
}

/// The server after the entities that are marked for removal have left the
/// world.
pub open spec fn spec_despawned(server: ServerView) -> ServerView {
    ServerView {
        events: server.events + spec_despawns(server.entities),
        entities: spec_survivors(server.entities),
        ..server
    }
}

/// The phase after the game has been declared over: a running game is over;
/// every other phase stays.
pub open spec fn spec_phase_after_game_over(phase: Phase) -> Phase {
    if phase == Phase::Running {
        Phase::GameOver
    } else {
        phase
    }
}

/// The server after one command has been applied. A command that asks for a
/// tank for a client that does not exist is passed over.
pub open spec fn spec_apply<P: Protocol>(server: ServerView, command: ServerCommand) -> ServerView {
    match command {
        ServerCommand::Spawn(entity) => spec_spawned(server, entity),
        ServerCommand::SpawnPlayer(client_index) => if client_index < CLIENT_COUNT {
            spec_player_spawned::<P>(server, client_index)
        } else {
            server
        },
        ServerCommand::GameOver => ServerView {
            game_over: true,
            phase: spec_phase_after_game_over(server.phase),
            ..server
        },
    }
}

/// The server after a queue of commands has been applied, oldest first.
pub open spec fn spec_applied<P: Protocol>(
    server: ServerView,
    commands: Seq<ServerCommand>,
) -> ServerView
    decreases commands.len(),
{
    if commands.len() == 0 {
        server
    } else {
        spec_applied::<P>(spec_apply::<P>(server, commands[0]), commands.skip(1))
    }
}

/// The server after it has taken over what a tick's mediator collected: the
/// commands are applied, the handle given out last is the mediator's, and
/// the mediator's events join the queue behind those that the commands
/// caused.
pub open spec fn spec_transferred<P: Protocol>(server: ServerView, ctx: ContextView) -> ServerView {
    let applied = spec_applied::<P>(server, ctx.commands);
    ServerView { last_handle: ctx.last_handle, events: applied.events + ctx.events, ..applied }
}

/// Applying a command keeps the server's two clients and three input
/// devices.
pub proof fn lemma_apply_well_formed<P: Protocol>(server: ServerView, command: ServerCommand)
    requires
        server.well_formed(),
    ensures
        spec_apply::<P>(server, command).well_formed(),
{
}

/// The entities after the passes that need no arithmetic: position, size,
/// color and health have been reported, countdowns have run, inventories
/// have been reported.
pub open spec fn spec_settled_entities(entities: Seq<Entity>, delta_time: u64) -> Seq<Entity> {
    entities.map_values(
        |entity: Entity|
            spec_inventory_settled(
                spec_aged(
                    spec_health_settled(
                        spec_color_settled(spec_scale_settled(spec_position_settled(entity))),
                    ),
                    delta_time,
                ),
            ),
    )
}

/// The entities as the health pass finds them.
pub open spec fn spec_before_health(entities: Seq<Entity>) -> Seq<Entity> {
    entities.map_values(
        |entity: Entity| spec_color_settled(spec_scale_settled(spec_position_settled(entity))),
    )
}

/// The entities as the color pass finds them.
pub open spec fn spec_before_color(entities: Seq<Entity>) -> Seq<Entity> {
    entities.map_values(|entity: Entity| spec_scale_settled(spec_position_settled(entity)))
}

/// The entities as the size pass finds them.
pub open spec fn spec_before_scale(entities: Seq<Entity>) -> Seq<Entity> {
    entities.map_values(|entity: Entity| spec_position_settled(entity))
}

/// The entities as the inventory pass finds them.
pub open spec fn spec_before_inventory(entities: Seq<Entity>, delta_time: u64) -> Seq<Entity> {
    entities.map_values(
        |entity: Entity|
            spec_aged(
                spec_health_settled(
                    spec_color_settled(spec_scale_settled(spec_position_settled(entity))),
                ),
                delta_time,
            ),
    )
}

/// The mediator after the passes that need no arithmetic: the reports of
/// position, size, color, health and inventory have been queued in this
/// order, and behind the commands that were there stand the last wishes of
/// what is about to be removed.
pub open spec fn spec_settled_context(entities: Seq<Entity>, ctx: ContextView) -> ContextView {
    ContextView {
        events: ctx.events + spec_position_reports(entities) + spec_scale_reports(
            spec_before_scale(entities),
        ) + spec_color_reports(spec_before_color(entities)) + spec_health_reports(
            spec_before_health(entities),
        ) + spec_inventory_reports(spec_before_inventory(entities, ctx.delta_time)),
        commands: ctx.commands + spec_all_last_wishes(
            spec_settled_entities(entities, ctx.delta_time),
        ),
        ..ctx
    }
}

/// The server at the end of a tick. The passes that need no arithmetic have
/// run in their order; then what was marked for removal has left the world;
/// only then has the server applied the commands that the tick collected.
pub open spec fn spec_ticked<P: Protocol>(server: ServerView, ctx: ContextView) -> ServerView {
    spec_transferred::<P>(
        spec_despawned(
            ServerView {
                entities: spec_settled_entities(server.entities, ctx.delta_time),
                ..server
            },
        ),
        spec_settled_context(server.entities, ctx),
    )
}

/// What the host worked out for the pass of a tick that is next.
#[derive(Debug)]
pub enum Input {
    /// For the self-steering pass: what each self-steering tank wants.
    Steerings(Vec<Option<NpcSteering>>),
    /// For the control pass: the speed and angle of each steered entity.
    Drives(Vec<Option<Drive>>),
    /// For the collision pass: the contacts within the tick, earliest first,
    /// each as the handles of its two sides.
    Contacts(Vec<(Handle, Handle)>),
    /// For the velocity pass: where each moving entity is after the tick.
    Targets(Vec<Option<(Scalar, Scalar)>>),
}

/// What the server asks of the host next. Every list that the host hands in
/// is lined up with the entities of the world.
#[derive(Debug)]
pub enum Request {
    /// The speed and angle of each steered entity, for the control pass.
    Drives,
    /// The contacts among these hitboxes, for the collision pass.
    Contacts(Vec<Hitbox>),
    /// Where each moving entity is after the tick, for the velocity pass.
    Targets,
    /// Nothing: the tick is complete.
    Done,
    /// Nothing: the input was not the input of the pass that is next.
    OutOfTurn,
}

/// The entities after the control pass.
pub open spec fn spec_all_controlled(
    entities: Seq<Entity>,
    keys: Seq<Set<KeyCode>>,
    drives: Seq<Option<Drive>>,
) -> Seq<Entity> {
    Seq::new(entities.len(), |i: int| spec_controlled(entities[i], keys, spec_entry(drives, i)))
}

/// The entities with every collision component carrying its entity's
/// handle.
pub open spec fn spec_all_synced(entities: Seq<Entity>) -> Seq<Entity> {
    Seq::new(entities.len(), |i: int| spec_synced(entities[i]))
}

/// The entities after the velocity pass.
pub open spec fn spec_all_moved(
    entities: Seq<Entity>,
    targets: Seq<Option<(Scalar, Scalar)>>,
) -> Seq<
    Entity,
> {
    Seq::new(entities.len(), |i: int| spec_moved(entities[i], spec_entry(targets, i)))
}

/// Whether the world is fit for the pass that `input` is for. Entities
/// that lack what their scripts read are a fault of whoever built them, and
/// running out of handles is a fault of the machine; neither is handled.
pub open spec fn spec_fit(server: ServerView, ctx: ContextView, input: Input) -> bool {
    match (server.stage, input) {
        (Some(SystemKind::Npc), Input::Steerings(_)) => NPC_INPUT_DEVICE < ctx.keys.len(),
        (Some(SystemKind::Control), Input::Drives(_)) => {
            &&& forall|i: int|
                0 <= i < server.entities.len() ==> spec_steerable(
                    #[trigger] server.entities[i],
                    ctx.keys.len(),
                )
            &&& ctx.last_handle + server.entities.len() <= u64::MAX
        },
        (Some(SystemKind::Collision), Input::Contacts(_)) => forall|i: int|
            0 <= i < server.entities.len() ==> spec_well_built(#[trigger] server.entities[i]),
        (Some(SystemKind::Velocity), Input::Targets(_)) => {
            &&& server.well_formed()
            &&& forall|i: int|
                0 <= i < server.entities.len() ==> spec_knows_its_client(
                    #[trigger] server.entities[i],
                )
        },
        _ => true,
    }
}

/// What one call of `call_systems` does: the server and the mediator
/// before, the input, and the server, the mediator and the request after.
pub open spec fn spec_call_systems<P: Protocol>(
    server: ServerView,
    ctx: ContextView,
    input: Input,
    after: ServerView,
    ctx_after: ContextView,
    request: Request,
) -> bool {
    match (server.stage, input) {
        (Some(SystemKind::Npc), Input::Steerings(steerings)) => {
            &&& after == (ServerView {
                entities: after.entities,
                stage: Some(SystemKind::Control),
                ..server
            })
            &&& after.entities.len() == server.entities.len()
            &&& forall|i: int|
                0 <= i < server.entities.len() ==> #[trigger] after.entities[i] == spec_npc_steered(
                    server.entities[i],
                    spec_entry(steerings@, i),
                )
            &&& spec_npc_pressed(
                server.entities,
                steerings@,
                server.entities.len() as int,
                ctx,
                ctx_after,
            )
            &&& request is Drives
        },
        (Some(SystemKind::Control), Input::Drives(drives)) => {
            let controlled = spec_all_controlled(server.entities, ctx.keys, drives@);
            &&& after == (ServerView {
                entities: spec_all_synced(controlled),
                stage: Some(SystemKind::Collision),
                ..server
            })
            &&& ctx_after == spec_all_control_requested(
                server.entities,
                drives@,
                ctx,
                server.entities.len() as int,
            )
            &&& request matches Request::Contacts(hitboxes) && hitboxes@ == spec_hitboxes(
                controlled,
                controlled.len() as int,
            )
        },
        (Some(SystemKind::Collision), Input::Contacts(contacts)) => {
            &&& after == (ServerView {
                entities: spec_contacts(server.entities, contacts@),
                stage: Some(SystemKind::Velocity),
                ..server
            })
            &&& ctx_after == ctx
            &&& request is Targets
        },
        (Some(SystemKind::Velocity), Input::Targets(targets)) => {
            &&& after == (ServerView {
                stage: None,
                ..spec_ticked::<P>(
                    ServerView { entities: spec_all_moved(server.entities, targets@), ..server },
                    ctx,
                )
            })
            &&& ctx_after == (ContextView { events: Seq::empty(), commands: Seq::empty(), ..ctx })
            &&& request is Done
        },
        _ => {
            &&& after == server
            &&& ctx_after == ctx
            &&& request is OutOfTurn
        },
    }
}

/// Whether an entity that leaves a last wish knows which client steered
/// it.
pub open spec fn spec_knows_its_client(entity: Entity) -> bool {
    entity.components.death.is_some() ==> entity.components.control.is_some()
}

/// Whether every entity can be steered with the given number of input
/// devices.
fn all_steerable(entities: &Vec<Entity>, devices: usize) -> (all: bool)
    ensures
        all == (forall|i: int|
            0 <= i < entities.len() ==> spec_steerable(#[trigger] entities[i], devices as nat)),
{
    let mut i: usize = 0;
    while i < entities.len()
        invariant
            i <= entities.len(),
            forall|j: int| 0 <= j < i ==> spec_steerable(#[trigger] entities[j], devices as nat),
        decreases entities.len() - i,
    {
        let steerable = match entities[i].get_component::<ControlComponent>() {
            Some(control) => control.get_input_device_index() < devices
                && entities[i].has_component::<Position>(),
            None => true,
        };
        if !steerable {
            return false;
        }
        i += 1;
    }
    true
}

/// Whether every entity has what its collision script reads.
fn all_well_built(entities: &Vec<Entity>) -> (all: bool)
    ensures
        all == (forall|i: int| 0 <= i < entities.len() ==> spec_well_built(#[trigger] entities[i])),
{
    let mut i: usize = 0;
    while i < entities.len()
        invariant
            i <= entities.len(),
            forall|j: int| 0 <= j < i ==> spec_well_built(#[trigger] entities[j]),
        decreases entities.len() - i,
    {
        let well_built = match entities[i].get_component::<CollisionComponent>() {
            Some(collision) => match collision.script {
                CollisionScript::PickUp => entities[i].has_component::<PickUpComponent>(),
                _ => true,
            },
            None => true,
        };
        if !well_built {
            return false;
        }
        i += 1;
    }
    true
}

/// Whether every entity that leaves a last wish knows which client steered
/// it.
fn all_know_their_client(entities: &Vec<Entity>) -> (all: bool)
    ensures
        all == (forall|i: int|
            0 <= i < entities.len() ==> spec_knows_its_client(#[trigger] entities[i])),
{
    let mut i: usize = 0;
    while i < entities.len()
        invariant
            i <= entities.len(),
            forall|j: int| 0 <= j < i ==> spec_knows_its_client(#[trigger] entities[j]),
        decreases entities.len() - i,
    {
        if entities[i].has_component::<DeathComponent>() && !entities[i].has_component::<
            ControlComponent,
        >() {
            return false;
        }
        i += 1;
    }
    true
}

impl<PROTOCOL: Protocol> Server<PROTOCOL> {
    /// Whether the world is fit for the pass that `input` is for. A host
    /// that cannot rule out a world that is unfit asks before it calls
    /// `call_systems`.
    pub fn fit(&self, ctx: &ServerContext, input: &Input) -> (fit: bool)
        ensures
            fit == spec_fit(self@, ctx@, *input),
    {
        match (self.stage, input) {
            (Some(SystemKind::Npc), Input::Steerings(_)) => NPC_INPUT_DEVICE
                < ctx.input_device_count(),
            (Some(SystemKind::Control), Input::Drives(_)) => {
                let room = self.entities.len() as u64 <= u64::MAX - ctx.last_handle();
                all_steerable(&self.entities, ctx.input_device_count()) && room
            },
            (Some(SystemKind::Collision), Input::Contacts(_)) => all_well_built(&self.entities),
            (Some(SystemKind::Velocity), Input::Targets(_)) => {
                let well_formed = self.clients.len() == CLIENT_COUNT && self.ready.len()
                    == CLIENT_COUNT && self.pressed_keys.len() == INPUT_DEVICE_COUNT;
                assert(well_formed == self@.well_formed());
                well_formed && all_know_their_client(&self.entities)
            },
            _ => true,
        }
    }

    /// Removes the entities that are marked for removal and queues a
    /// `Despawn` event for each.
    pub fn despawn_deleted(&mut self)
        ensures
            final(self)@ == spec_despawned(old(self)@),
    {
        let count = self.entities.len();
        let mut survivors: Vec<Entity> = Vec::new();
        let mut i: usize = 0;
        assert(self.entities@.take(0) =~= Seq::<Entity>::empty());
        assert(old(self)@.events + spec_despawns(self.entities@.take(0)) =~= old(self)@.events);
        while i < count
            invariant
                i <= count,
                count == self.entities.len(),
                self.entities == old(self).entities,
                self.clients == old(self).clients,
                self.phase == old(self).phase,
                self.ready == old(self).ready,
                self.last_handle == old(self).last_handle,
                self.pressed_keys == old(self).pressed_keys,
                self.stage == old(self).stage,
                self.game_over == old(self).game_over,
                survivors@ == spec_survivors(self.entities@.take(i as int)),
                self.events@ == old(self).events@ + spec_despawns(self.entities@.take(i as int)),
            decreases count - i,
        {
            proof {
                assert(self.entities@.take(i + 1).drop_last() =~= self.entities@.take(i as int));
            }
            if self.entities[i].deleted() {
                let handle = self.entities[i].get_handle();
                self.events.push_back(Event::Despawn(handle));
            } else {
                survivors.push(self.entities[i].clone());
            }
            i += 1;
        }
        assert(self.entities@.take(count as int) =~= self.entities@);
        self.entities = survivors;
    }

    /// Begins a tick that covers `delta_time` microseconds, and returns the
    /// mediator for it. The mediator shows the keys as they are held now and
    /// gives out handles from where the server stopped. The first pass of
    /// the tick is the next to run; a tick that was in progress is given up.
    pub fn begin_tick(&mut self, delta_time: u64) -> (ctx: ServerContext)
        ensures
            ctx@ == (ContextView {
                keys: old(self)@.pressed_keys,
                delta_time,
                events: Seq::empty(),
                commands: Seq::empty(),
                last_handle: old(self)@.last_handle,
            }),
            final(self)@ == (ServerView { stage: Some(SystemKind::Npc), ..old(self)@ }),
    {
        let mut input_devices: Vec<KeySet> = Vec::new();
        let mut i: usize = 0;
        while i < self.pressed_keys.len()
            invariant
                i <= self.pressed_keys.len(),
                input_devices.len() == i,
                forall|j: int|
                    0 <= j < i ==> (#[trigger] input_devices[j])@ == self.pressed_keys[j]@,
            decreases self.pressed_keys.len() - i,
        {
            input_devices.push(self.pressed_keys[i].clone());
            i += 1;
        }
        assert(spec_key_views(input_devices@) =~= self@.pressed_keys);
        self.stage = Some(SystemKind::Npc);
        ServerContext::new(input_devices, delta_time, self.last_handle)
    }

    /// The pass that a tick in progress runs next, if a tick is in progress.
    pub fn stage(&self) -> (stage: Option<SystemKind>)
        ensures
            stage == self@.stage,
    {
        self.stage
    }
}

impl<PROTOCOL: Protocol> Server<PROTOCOL> {
    /// Runs the passes that need no arithmetic, in their order: position,
    /// size, color, health, countdown, inventory, reaper. Then removes what
    /// is marked for removal, and only then applies the commands that the
    /// tick collected in `ctx`.
    fn settle(&mut self, ctx: &mut ServerContext)
        requires
            old(self)@.well_formed(),
            forall|i: int|
                0 <= i < old(self)@.entities.len() ==> spec_knows_its_client(
                    #[trigger] old(self)@.entities[i],
                ),
        ensures
            final(self)@ == spec_ticked::<PROTOCOL>(old(self)@, old(ctx)@),
            final(self)@.well_formed(),
            final(ctx)@ == (ContextView {
                events: Seq::empty(),
                commands: Seq::empty(),
                ..old(ctx)@
            }),
    {
        let ghost start = self.entities@;
        let ghost delta_time = ctx@.delta_time;
        PositionWatcherSystem.update(&mut self.entities, ctx);
        assert(self.entities@ =~= spec_before_scale(start));
        ScaleSystem.update(&mut self.entities, ctx);
        assert(self.entities@ =~= spec_before_color(start));
        ColorSystem.update(&mut self.entities, ctx);
        assert(self.entities@ =~= spec_before_health(start));
        HealthSystem.update(&mut self.entities, ctx);
        TtlSystem.update(&mut self.entities, ctx);
        assert(self.entities@ =~= spec_before_inventory(start, delta_time));
        InventorySystem.update(&mut self.entities, ctx);
        assert(self.entities@ =~= spec_settled_entities(start, delta_time));
        proof {
            assert forall|i: int| 0 <= i < self.entities.len() implies spec_can_die(
                #[trigger] self.entities[i],
            ) by {
                assert(spec_knows_its_client(old(self)@.entities[i]));
            }
        }
        ReaperSystem.update(&mut self.entities, ctx);
        assert(ctx@ =~= spec_settled_context(start, old(ctx)@));
        self.despawn_deleted();
        ctx.transfer_state(self);
    }

    /// Runs the next passes of the tick in progress, as far as they can run
    /// without the host: up to the next pass that needs numbers which only
    /// the host can work out. `input` holds the numbers that the host worked
    /// out for the pass that is next; what comes back says what the host is
    /// to work out for the pass after it.
    ///
    /// The passes run in the order of `pipeline`, each exactly once per
    /// tick. Input that is not the input of the next pass changes nothing
    /// and is answered with `Request::OutOfTurn`.
    pub fn call_systems(&mut self, ctx: &mut ServerContext, input: Input) -> (request: Request)
        requires
            spec_fit(old(self)@, old(ctx)@, input),
        ensures
            spec_call_systems::<PROTOCOL>(
                old(self)@,
                old(ctx)@,
                input,
                final(self)@,
                final(ctx)@,
                request,
            ),
            old(self)@.well_formed() ==> final(self)@.well_formed(),
    {
        match (self.stage, input) {
            (Some(SystemKind::Npc), Input::Steerings(steerings)) => {
                NpcSystem.update(&mut self.entities, ctx, &steerings);
                self.stage = Some(SystemKind::Control);
                Request::Drives
            },
            (Some(SystemKind::Control), Input::Drives(drives)) => {
                ControlSystem.update(&mut self.entities, ctx, &drives);
                let ghost controlled = self.entities@;
                let hitboxes = CollisionSystem.hitboxes(&mut self.entities);
                self.stage = Some(SystemKind::Collision);
                proof {
                    assert(controlled =~= spec_all_controlled(
                        old(self)@.entities,
                        old(ctx)@.keys,
                        drives@,
                    ));
                    assert(self.entities@ =~= spec_all_synced(controlled));
                }
                Request::Contacts(hitboxes)
            },
            (Some(SystemKind::Collision), Input::Contacts(contacts)) => {
                CollisionSystem.update(&mut self.entities, &contacts);
                self.stage = Some(SystemKind::Velocity);
                Request::Targets
            },
            (Some(SystemKind::Velocity), Input::Targets(targets)) => {
                VelocitySystem.update(&mut self.entities, &targets);
                proof {
                    assert(self.entities@ =~= spec_all_moved(old(self)@.entities, targets@));
                    assert forall|i: int| 0 <= i < self.entities.len() implies spec_knows_its_client(
                        #[trigger] self.entities[i],
                    ) by {
                        assert(spec_knows_its_client(old(self)@.entities[i]));
                    }
                }
                self.settle(ctx);
                self.stage = None;
                Request::Done
            },
            _ => Request::OutOfTurn,
        }
    }
}

} // verus!
