//! The mediator: the one channel through which the passes of a tick ask the
//! server for changes to the world.

use crate::game::ecs::Entity;
use crate::game::keyboard::{KeyCode, KeySet};
use crate::game::server::{Phase, Server, CLIENT_COUNT};
use crate::game::server::tick::{lemma_apply_well_formed, spec_applied, spec_transferred};
use crate::net::event::{Event, Handle};
use crate::net::protocol::Protocol;
use std::collections::VecDeque;
use vstd::prelude::*;

verus! {

/// A change to the world that a system asked for. Commands are applied in
/// the order in which they were asked for, after every system has run.
#[derive(Debug)]
pub enum ServerCommand {
    /// Add this entity to the world.
    Spawn(Entity),
    /// Add a fresh tank for the client with this index.
    SpawnPlayer(usize),
    /// End the game.
    GameOver,
}

/// The mediator as a mathematical value.
pub ghost struct ContextView {
    /// The keys held on each input device.
    pub keys: Seq<Set<KeyCode>>,
    /// The time that the tick covers, in microseconds.
    pub delta_time: u64,
    /// The events queued for the clients, oldest first.
    pub events: Seq<Event>,
    /// The commands queued for the server, oldest first.
    pub commands: Seq<ServerCommand>,
    /// The handle given out last.
    pub last_handle: Handle,
}

/// The one channel a system has to the server. It shows the held keys and
/// the length of the tick, and it queues events for the clients and commands
/// for the server. Nothing queued here touches the world before the tick's
/// systems have all run.
pub struct ServerContext {
    input_devices: Vec<KeySet>,
    delta_time: u64,
    events: VecDeque<Event>,
    commands: VecDeque<ServerCommand>,
    last_handle: Handle,
}

/// The mediator after a system has asked for an entity to be spawned: the
/// entity is queued under the next unused handle, whatever handle it came
/// with.
pub open spec fn spec_spawn_queued(ctx: ContextView, entity: Entity) -> ContextView {
    ContextView {
        last_handle: (ctx.last_handle + 1) as u64,
        commands: ctx.commands.push(
            ServerCommand::Spawn(Entity { handle: (ctx.last_handle + 1) as u64, ..entity }),
        ),
        ..ctx
    }
}

/// The keys held on each of a list of input devices.
pub open spec fn spec_key_views(devices: Seq<KeySet>) -> Seq<Set<KeyCode>> {
    devices.map_values(|keys: KeySet| keys@)
}

impl View for ServerContext {
    type V = ContextView;

    closed spec fn view(&self) -> ContextView {
        ContextView {
            keys: spec_key_views(self.input_devices@),
            delta_time: self.delta_time,
            events: self.events@,
            commands: self.commands@,
            last_handle: self.last_handle,
        }
    }
}

impl ServerContext {
    /// A mediator for one tick, with nothing queued.
    pub fn new(input_devices: Vec<KeySet>, delta_time: u64, last_handle: Handle) -> (ctx: Self)
        ensures
            ctx@ == (ContextView {
                keys: spec_key_views(input_devices@),
                delta_time,
                events: Seq::empty(),
                commands: Seq::empty(),
                last_handle,
            }),
    {
        ServerContext {
            input_devices,
            delta_time,
            events: VecDeque::new(),
            commands: VecDeque::new(),
            last_handle,
        }
    }

    /// Asks the server to add an entity to the world. The entity gets the
    /// next unused handle, whatever handle it came with.
    pub fn spawn(&mut self, entity: Entity)
        requires
            old(self)@.last_handle < u64::MAX,
        ensures
            final(self)@ == spec_spawn_queued(old(self)@, entity),
    {
        let handle = self.last_handle + 1;
        self.last_handle = handle;
        let entity = entity.change_handle(handle);
        self.commands.push_back(ServerCommand::Spawn(entity));
    }

    /// Asks the server to add a fresh tank for a client.
    pub fn spawn_player(&mut self, client_index: usize)
        ensures
            final(self)@ == (ContextView {
                commands: old(self)@.commands.push(ServerCommand::SpawnPlayer(client_index)),
                ..old(self)@
            }),
    {
        self.commands.push_back(ServerCommand::SpawnPlayer(client_index));
    }

    /// The keys held on an input device.
    pub fn pressed_keys(&self, input_device_index: usize) -> (keys: &KeySet)
        requires
            input_device_index < self@.keys.len(),
        ensures
            keys@ == self@.keys[input_device_index as int],
    {
        &self.input_devices[input_device_index]
    }

    /// Holds a key down on an input device, for the rest of the tick.
    pub fn insert_pressed_key(&mut self, input_device_index: usize, key: KeyCode)
        requires
            input_device_index < old(self)@.keys.len(),
        ensures
            final(self)@ == (ContextView {
                keys: old(self)@.keys.update(
                    input_device_index as int,
                    old(self)@.keys[input_device_index as int].insert(key),
                ),
                ..old(self)@
            }),
    {
        let mut keys = self.input_devices[input_device_index].clone();
        keys.insert(key);
        self.input_devices.set(input_device_index, keys);
        assert(spec_key_views(self.input_devices@) =~= old(self)@.keys.update(
            input_device_index as int,
            old(self)@.keys[input_device_index as int].insert(key),
        ));
    }

    /// The number of input devices.
    pub fn input_device_count(&self) -> (count: usize)
        ensures
            count == self@.keys.len(),
    {
        self.input_devices.len()
    }

    /// The time that the tick covers, in microseconds.
    pub fn delta_time(&self) -> (delta_time: u64)
        ensures
            delta_time == self@.delta_time,
    {
        self.delta_time
    }

    /// Queues an event for the clients.
    pub fn push_event(&mut self, event: Event)
        ensures
            final(self)@ == (ContextView {
                events: old(self)@.events.push(event),
                ..old(self)@
            }),
    {
        self.events.push_back(event);
    }

    /// The handle given out last.
    pub fn last_handle(&self) -> (last_handle: Handle)
        ensures
            last_handle == self@.last_handle,
    {
        self.last_handle
    }

    /// The events queued for the clients, oldest first.
    pub fn events(&self) -> (events: &VecDeque<Event>)
        ensures
            events@ == self@.events,
    {
        &self.events
    }

    /// The commands queued for the server, oldest first.
    pub fn commands(&self) -> (commands: &VecDeque<ServerCommand>)
        ensures
            commands@ == self@.commands,
    {
        &self.commands
    }

    /// Asks the server to end the game.
    pub fn trigger_game_over(&mut self)
        ensures
            final(self)@ == (ContextView {
                commands: old(self)@.commands.push(ServerCommand::GameOver),
                ..old(self)@
            }),
    {
        self.commands.push_back(ServerCommand::GameOver);
    }
}

impl ServerContext {
    /// Hands what the tick collected to the server. The commands are applied
    /// oldest first, then the server takes over the handle given out last
    /// and the queued events. The mediator is left with nothing queued.
    pub fn transfer_state<PROTOCOL: Protocol>(&mut self, server: &mut Server<PROTOCOL>)
        requires
            old(server)@.well_formed(),
        ensures
            final(server)@ == spec_transferred::<PROTOCOL>(old(server)@, old(self)@),
            final(server)@.well_formed(),
            final(self)@ == (ContextView {
                events: Seq::empty(),
                commands: Seq::empty(),
                ..old(self)@
            }),
    {
        while self.commands.len() > 0
            invariant
                server@.well_formed(),
                self.input_devices == old(self).input_devices,
                self.delta_time == old(self).delta_time,
                self.events == old(self).events,
                self.last_handle == old(self).last_handle,
                spec_applied::<PROTOCOL>(old(server)@, old(self)@.commands) == spec_applied::<
                    PROTOCOL,
                >(server@, self.commands@),
            decreases self.commands.len(),
        {
            let ghost before = self.commands@;
            let ghost server_before = server@;
            let command = self.commands.pop_front();
            proof {
                assert(self.commands@ =~= before.skip(1));
                lemma_apply_well_formed::<PROTOCOL>(server_before, before[0]);
            }
            match command {
                Some(ServerCommand::Spawn(entity)) => server.spawn(entity),
                Some(ServerCommand::SpawnPlayer(client_index)) => {
                    if client_index < CLIENT_COUNT {
                        server.spawn_player(client_index)
                    }
                },
                Some(ServerCommand::GameOver) => {
                    server.game_over = true;
                    if matches!(server.phase, Phase::Running) {
                        server.phase = Phase::GameOver;
                    }
                },
                None => {},
            }
        }
        server.last_handle = self.last_handle;
        server.events.append(&mut self.events);
        proof {
            assert(self@.commands =~= Seq::<ServerCommand>::empty());
            assert(self@.events =~= Seq::<Event>::empty());
        }
    }
}

} // verus!
