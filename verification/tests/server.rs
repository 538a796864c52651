use netgame::game::ecs::prefabs::player::BULLET_SPEED;
use netgame::game::ecs::prefabs::{bullet, player};
use netgame::game::ecs::{
    CollisionClass, CollisionComponent, ControlSystem, Drive, Entity, Health, NpcSteering,
    Position, Scale, TimeToLive, Velocity, VelocitySystem, NPC,
};
use netgame::game::graphics::{Color, MeshType};
use netgame::game::keyboard::{KeyCode, KeySet};
use netgame::game::server::{
    client_color, pipeline, Input, Phase, Request, Server, ServerCommand, ServerContext,
    SystemKind, CLIENT_COUNT, INPUT_DEVICE_COUNT, NPC_COUNT, NPC_INPUT_DEVICE, PLAYER1_HANDLE,
    PLAYER2_HANDLE,
};
use netgame::misc::scalar::{whole, ZERO};
use netgame::net::connection::Connection;
use netgame::net::event::{Event, EventListener};
use netgame::net::protocol::SmartProtocol;

type Host = Server<SmartProtocol>;

fn server(guest_is_local: bool) -> Host {
    Server::new(Connection::new(true), Connection::new(guest_is_local))
}

fn say(server: &mut Host, client: usize, event: &Event) {
    let mut peer = Connection::<SmartProtocol>::new(false);
    peer.send(event);
    server.client_mut(client).feed(&peer.take_outgoing());
}

fn heard_by(server: &mut Host, client: usize) -> Vec<Event> {
    let wire = server.client_mut(client).take_outgoing();
    let mut peer = Connection::<SmartProtocol>::new(false);
    peer.feed(&wire);
    peer.recv_multiple(usize::MAX).into_iter().collect()
}

fn queued(server: &Host) -> Vec<Event> {
    server.events().iter().cloned().collect()
}

fn steerings(server: &Host) -> Vec<Option<NpcSteering>> {
    server
        .entities()
        .iter()
        .map(|entity| entity.get_component::<NPC>().map(|_| NpcSteering { retarget: None, turn: 1 }))
        .collect()
}

fn drives(server: &Host, ctx: &ServerContext, seconds: f32) -> Vec<Option<Drive>> {
    server
        .entities()
        .iter()
        .map(|entity| {
            let control = entity.get_component::<netgame::game::ecs::ControlComponent>()?;
            let keys = ctx.pressed_keys(control.get_input_device_index());
            let steering = ControlSystem::steering(keys);
            let speed = f32::from_bits(entity.get_component::<Velocity>()?.get_velocity());
            let angle = f32::from_bits(entity.get_component::<Position>()?.get_angle());
            let mut velocity =
                (speed + steering.throttle as f32 * 1000.0 * seconds) * 0.1f32.powf(seconds);
            if velocity.abs() <= 0.01 {
                velocity = 0.0;
            }
            Some(Drive {
                velocity: velocity.to_bits(),
                angle: (angle + steering.turn as f32 * 180.0 * seconds).to_bits(),
            })
        })
        .collect()
}

fn targets(server: &Host, seconds: f32) -> Vec<Option<(u32, u32)>> {
    server
        .entities()
        .iter()
        .map(|entity| {
            VelocitySystem::motion(entity).map(|motion| {
                let angle = f32::from_bits(motion.angle).to_radians();
                let speed = f32::from_bits(motion.velocity);
                (
                    (f32::from_bits(motion.x) + angle.cos() * speed * seconds).to_bits(),
                    (f32::from_bits(motion.y) + angle.sin() * speed * seconds).to_bits(),
                )
            })
        })
        .collect()
}

fn run(server: &mut Host, ctx: &mut ServerContext, input: Input) -> Request {
    assert!(server.fit(ctx, &input));
    server.call_systems(ctx, input)
}

/// Runs the rest of a tick the way a host does, with the given contacts.
fn finish_tick(server: &mut Host, ctx: &mut ServerContext, contacts: Vec<(u64, u64)>) -> usize {
    let seconds = ctx.delta_time() as f32 / 1.0e6;
    let wanted = steerings(server);
    assert!(matches!(run(server, ctx, Input::Steerings(wanted)), Request::Drives));
    let driven = drives(server, ctx, seconds);
    let hitboxes = match run(server, ctx, Input::Drives(driven)) {
        Request::Contacts(hitboxes) => hitboxes,
        other => panic!("asked for {:?}", other),
    };
    assert!(matches!(run(server, ctx, Input::Contacts(contacts)), Request::Targets));
    let reached = targets(server, seconds);
    assert!(matches!(run(server, ctx, Input::Targets(reached)), Request::Done));
    hitboxes.len()
}

/// How many bullets the self-steering tank fired in the tick of `ctx`, one
/// or none as its dice fell. It pulls the trigger anew in every tick.
fn fired_by_the_dice(ctx: &ServerContext) -> usize {
    usize::from(ctx.pressed_keys(NPC_INPUT_DEVICE).contains(KeyCode::Space))
}

fn running(map_index: usize) -> Host {
    let mut server = server(false);
    say(&mut server, 0, &Event::Ready);
    say(&mut server, 1, &Event::Ready);
    assert!(server.await_clients());
    say(&mut server, 0, &Event::MapChoice(map_index));
    assert_eq!(server.await_map_choice(), Some(map_index));
    server.start_game(map_index, (whole(300), whole(400)));
    server
}

#[test]
fn a_new_server_waits_for_its_clients() {
    let server = server(false);
    assert_eq!(server.phase(), Phase::AwaitingClients);
    assert!(!server.game_over());
    assert_eq!(server.last_handle(), 3);
    assert!(server.entities().is_empty());
    assert!(server.events().is_empty());
    assert_eq!((CLIENT_COUNT, NPC_COUNT, INPUT_DEVICE_COUNT, NPC_INPUT_DEVICE), (2, 1, 3, 2));
    assert_eq!((PLAYER1_HANDLE, PLAYER2_HANDLE), (1, 2));
}

#[test]
fn the_passes_run_in_the_documented_order() {
    let expected = vec![
        SystemKind::Npc,
        SystemKind::Control,
        SystemKind::Collision,
        SystemKind::Velocity,
        SystemKind::PositionWatcher,
        SystemKind::Scale,
        SystemKind::Color,
        SystemKind::Health,
        SystemKind::Ttl,
        SystemKind::Inventory,
        SystemKind::Reaper,
    ];
    assert_eq!(pipeline(), expected);
}

#[test]
fn start_is_broadcast_only_after_both_clients_are_ready() {
    for first in [0usize, 1] {
        let second = 1 - first;
        let mut server = server(false);
        assert!(!server.await_clients());
        say(&mut server, first, &Event::Ready);
        assert!(!server.await_clients());
        assert!(!server.await_clients());
        assert_eq!(server.phase(), Phase::AwaitingClients);
        say(&mut server, 0, &Event::MapChoice(1));
        assert_eq!(server.await_map_choice(), None);
        server.start_game(1, (ZERO, ZERO));
        assert_eq!(server.phase(), Phase::AwaitingClients);
        assert!(server.entities().is_empty());
        assert!(heard_by(&mut server, 0).is_empty());
        assert!(heard_by(&mut server, 1).is_empty());
        assert!(!server.await_clients());

        say(&mut server, second, &Event::Ready);
        assert!(server.await_clients());
        assert_eq!(server.phase(), Phase::AwaitingMapChoice);
        assert_eq!(heard_by(&mut server, 0), vec![Event::Standby]);
        assert_eq!(heard_by(&mut server, 1), vec![Event::Standby]);
        assert!(!server.await_clients());

        assert_eq!(server.await_map_choice(), None);
        say(&mut server, 1, &Event::MapChoice(2));
        assert_eq!(server.await_map_choice(), None);
        say(&mut server, 0, &Event::MapChoice(1));
        assert_eq!(server.await_map_choice(), Some(1));
        server.start_game(1, (ZERO, ZERO));
        assert_eq!(server.phase(), Phase::Running);
        assert_eq!(heard_by(&mut server, 0), vec![Event::Start, Event::Yield(1)]);
        assert_eq!(heard_by(&mut server, 1), vec![Event::Start, Event::Yield(2)]);
    }
}

#[test]
fn readiness_survives_interleaving_and_fragments() {
    let mut server = server(false);
    let mut peer = Connection::<SmartProtocol>::new(false);
    peer.send(&Event::Ready);
    let ready = peer.take_outgoing();
    server.client_mut(0).feed(&ready[..1]);
    server.client_mut(1).feed(&ready[..1]);
    assert!(!server.await_clients());
    server.client_mut(1).feed(&ready[1..]);
    assert!(!server.await_clients());
    say(&mut server, 1, &Event::Ready);
    say(&mut server, 1, &Event::KeyDown(KeyCode::A));
    assert!(!server.await_clients());
    assert!(!server.await_clients());
    assert!(heard_by(&mut server, 0).is_empty());
    server.client_mut(0).feed(&ready[1..]);
    assert!(server.await_clients());
    assert_eq!(heard_by(&mut server, 0), vec![Event::Standby]);
    assert_eq!(heard_by(&mut server, 1), vec![Event::Standby]);
}

#[test]
fn a_local_guest_may_choose_the_map() {
    let mut remote = server(false);
    say(&mut remote, 0, &Event::Ready);
    say(&mut remote, 1, &Event::Ready);
    assert!(remote.await_clients());
    say(&mut remote, 1, &Event::MapChoice(2));
    assert_eq!(remote.await_map_choice(), None);

    let mut local = server(true);
    say(&mut local, 0, &Event::Ready);
    say(&mut local, 1, &Event::Ready);
    assert!(local.await_clients());
    say(&mut local, 1, &Event::MapChoice(2));
    say(&mut local, 0, &Event::Ready);
    assert_eq!(local.await_map_choice(), Some(2));
    say(&mut local, 0, &Event::MapChoice(1));
    say(&mut local, 1, &Event::MapChoice(2));
    assert_eq!(local.await_map_choice(), Some(1));
    assert_eq!(local.await_map_choice(), Some(2));
}

#[test]
fn a_game_starts_with_its_tanks_map_and_walls() {
    let mut server = running(1);
    let handles: Vec<u64> = server.entities().iter().map(|e| e.get_handle()).collect();
    assert_eq!(handles, vec![4, 1, 2, 5, 6, 7, 8, 9, 10, 11, 12, 13, 14]);
    assert_eq!(server.last_handle(), 14);
    let meshes: Vec<MeshType> = server
        .entities()
        .iter()
        .map(|e| *e.get_component::<MeshType>().unwrap())
        .collect();
    assert_eq!(meshes[..3], [MeshType::Tank, MeshType::Tank, MeshType::Tank]);
    assert_eq!(meshes[3..7], [MeshType::Heal; 4]);
    assert_eq!(meshes[7..], [MeshType::Wall; 6]);
    let bot = &server.entities()[0];
    assert_eq!(bot.get_component::<NPC>().unwrap().get_target_point(), (whole(300), whole(400)));
    assert_eq!(
        bot.get_component::<Position>(),
        Some(&Position::new(500.0f32.to_bits(), 250.0f32.to_bits(), 0.0f32.to_bits()))
    );
    let host = &server.entities()[1];
    assert_eq!(
        host.get_component::<Position>(),
        Some(&Position::new(800.0f32.to_bits(), 250.0f32.to_bits(), 180.0f32.to_bits()))
    );
    let guest = &server.entities()[2];
    assert_eq!(
        guest.get_component::<Position>(),
        Some(&Position::new(200.0f32.to_bits(), 250.0f32.to_bits(), 0.0f32.to_bits()))
    );
    let shield = &server.entities()[7];
    assert_eq!(
        shield.get_component::<Position>(),
        Some(&Position::new(250.0f32.to_bits(), 200.0f32.to_bits(), 0.0f32.to_bits()))
    );
    assert_eq!(
        shield.get_component::<Scale>(),
        Some(&Scale::new(10.0f32.to_bits(), 100.0f32.to_bits()))
    );
    let upper = &server.entities()[9];
    assert_eq!(
        upper.get_component::<Position>(),
        Some(&Position::new((-10.0f32).to_bits(), (-10.0f32).to_bits(), 0.0f32.to_bits()))
    );
    assert_eq!(
        upper.get_component::<Scale>(),
        Some(&Scale::new(1020.0f32.to_bits(), 20.0f32.to_bits()))
    );
    let lower = &server.entities()[10];
    assert_eq!(
        lower.get_component::<Position>(),
        Some(&Position::new((-10.0f32).to_bits(), 490.0f32.to_bits(), 0.0f32.to_bits()))
    );
    let side = &server.entities()[11];
    assert_eq!(
        side.get_component::<Position>(),
        Some(&Position::new((-10.0f32).to_bits(), 0.0f32.to_bits(), 0.0f32.to_bits()))
    );
    assert_eq!(
        side.get_component::<Scale>(),
        Some(&Scale::new(20.0f32.to_bits(), 500.0f32.to_bits()))
    );
    let other_side = &server.entities()[12];
    assert_eq!(
        other_side.get_component::<Position>(),
        Some(&Position::new(990.0f32.to_bits(), 0.0f32.to_bits(), 0.0f32.to_bits()))
    );
    let events = queued(&server);
    assert_eq!(
        events[..6],
        [
            Event::Color(4, Color::new(0, 255, 255, 255)),
            Event::Spawn(4, MeshType::Tank),
            Event::Color(1, Color::new(255, 0, 0, 255)),
            Event::Spawn(1, MeshType::Tank),
            Event::Color(2, Color::new(0, 0, 255, 255)),
            Event::Spawn(2, MeshType::Tank),
        ]
    );
    assert_eq!(events.len(), 6 + 10);
    assert_eq!(events[6], Event::Spawn(5, MeshType::Heal));
    assert_eq!(events[15], Event::Spawn(14, MeshType::Wall));
    assert_eq!(client_color(0), Color::new(255, 0, 0, 255));
    assert_eq!(client_color(1), Color::new(0, 0, 255, 255));
    assert_eq!(client_color(2), Color::new(0, 255, 255, 255));

    let drained = heard_by(&mut server, 0);
    assert_eq!(drained, vec![Event::Standby, Event::Start, Event::Yield(1)]);
    server.flush_events();
    assert!(server.events().is_empty());
    assert_eq!(heard_by(&mut server, 0), events);
    assert_eq!(heard_by(&mut server, 1)[3..], events[..]);
}

#[test]
fn maps_differ_and_an_unknown_map_is_empty() {
    let second = running(2);
    let meshes: Vec<MeshType> = second
        .entities()
        .iter()
        .map(|e| *e.get_component::<MeshType>().unwrap())
        .collect();
    assert_eq!(meshes[3..7], [MeshType::Wall; 4]);
    assert_eq!(meshes[7..9], [MeshType::Heal; 2]);
    assert_eq!(meshes.len(), 13);
    assert_eq!(
        second.entities()[4].get_component::<Position>(),
        Some(&Position::new(605.0f32.to_bits(), 185.0f32.to_bits(), 0.0f32.to_bits()))
    );
    assert_eq!(
        second.entities()[8].get_component::<Position>(),
        Some(&Position::new(920.0f32.to_bits(), 250.0f32.to_bits(), 0.0f32.to_bits()))
    );
    let brown = Color::new((0.4f32 * 255.0) as u8, (0.3f32 * 255.0) as u8, (0.2f32 * 255.0) as u8, 255);
    assert_eq!(
        second.entities()[3]
            .get_component::<netgame::game::ecs::ColorComponent>()
            .unwrap()
            .get_color(),
        brown
    );
    let purple = Color::new((0.7f32 * 255.0) as u8, 0, (0.7f32 * 255.0) as u8, 255);
    assert_eq!(
        second.entities()[12]
            .get_component::<netgame::game::ecs::ColorComponent>()
            .unwrap()
            .get_color(),
        purple
    );
    let bare = running(7);
    assert_eq!(bare.entities().len(), 3 + 4);
    assert_eq!(bare.last_handle(), 8);
}

#[test]
fn keys_are_heard_only_while_a_game_runs() {
    let mut server = server(false);
    say(&mut server, 0, &Event::KeyDown(KeyCode::Up));
    server.receive();
    assert!(!server.pressed_keys(0).contains(KeyCode::Up));

    let mut server = running(1);
    say(&mut server, 0, &Event::KeyDown(KeyCode::Up));
    say(&mut server, 0, &Event::KeyDown(KeyCode::Left));
    say(&mut server, 1, &Event::KeyDown(KeyCode::Space));
    server.receive();
    assert!(server.pressed_keys(0).contains(KeyCode::Up));
    assert!(!server.pressed_keys(0).contains(KeyCode::Left));
    assert!(server.pressed_keys(1).contains(KeyCode::Space));
    assert!(!server.pressed_keys(1).contains(KeyCode::Up));
    say(&mut server, 0, &Event::KeyUp(KeyCode::Up));
    say(&mut server, 1, &Event::Ready);
    server.receive();
    assert!(server.pressed_keys(0).contains(KeyCode::Up));
    assert!(server.pressed_keys(0).contains(KeyCode::Left));
    server.receive();
    assert!(!server.pressed_keys(0).contains(KeyCode::Up));
    assert!(server.pressed_keys(1).contains(KeyCode::Space));
}

#[test]
fn handle_routes_events_to_their_handlers() {
    let mut server = server(false);
    server.handle(1, Event::KeyDown(KeyCode::I));
    server.handle(2, Event::KeyDown(KeyCode::Up));
    server.handle(3, Event::KeyDown(KeyCode::Up));
    server.handle(0, Event::Ready);
    server.handle(0, Event::Custom(1, vec![1]));
    server.handle(0, Event::Movement(1, 0, 0, 0));
    assert!(server.pressed_keys(1).contains(KeyCode::I));
    assert!(server.pressed_keys(2).contains(KeyCode::Up));
    assert!(!server.pressed_keys(0).contains(KeyCode::I));
    server.on_key_up(1, KeyCode::I);
    server.on_key_down(0, KeyCode::Down);
    server.on_health(0, 1, 1);
    assert!(!server.pressed_keys(1).contains(KeyCode::I));
    assert!(server.pressed_keys(0).contains(KeyCode::Down));
    assert_eq!(server.phase(), Phase::AwaitingClients);
    assert!(server.events().is_empty());
}

#[test]
fn spawns_through_the_mediator_wait_for_the_end_of_the_tick() {
    let mut server = running(0);
    server.flush_events();
    let before: Vec<u64> = server.entities().iter().map(|e| e.get_handle()).collect();
    let last = server.last_handle();
    let mut ctx = server.begin_tick(20_000);
    assert_eq!(ctx.last_handle(), last);
    assert_eq!(ctx.delta_time(), 20_000);
    ctx.spawn(Entity::new(0));
    ctx.spawn(bullet(0, 1, ZERO, ZERO, ZERO, BULLET_SPEED, Color::new(1, 2, 3, 4)));
    assert_eq!(ctx.last_handle(), last + 2);
    let handles: Vec<u64> = ctx
        .commands()
        .iter()
        .map(|command| match command {
            ServerCommand::Spawn(entity) => entity.get_handle(),
            other => panic!("queued {:?}", other),
        })
        .collect();
    assert_eq!(handles, vec![last + 1, last + 2]);
    assert!(handles[0] < handles[1]);
    assert!(before.iter().all(|handle| !handles.contains(handle)));
    ctx.push_event(Event::Custom(5, vec![]));

    let wanted = steerings(&server);
    assert!(matches!(server.call_systems(&mut ctx, Input::Steerings(wanted)), Request::Drives));
    let mid_tick = |server: &Host| {
        let now: Vec<u64> = server.entities().iter().map(|e| e.get_handle()).collect();
        assert_eq!(now, before);
        assert_eq!(server.last_handle(), last);
    };
    mid_tick(&server);
    let driven = drives(&server, &ctx, 0.02);
    assert!(matches!(server.call_systems(&mut ctx, Input::Drives(driven)), Request::Contacts(_)));
    mid_tick(&server);
    assert!(matches!(server.call_systems(&mut ctx, Input::Contacts(vec![])), Request::Targets));
    mid_tick(&server);
    let reached = targets(&server, 0.02);
    assert!(matches!(server.call_systems(&mut ctx, Input::Targets(reached)), Request::Done));

    let after: Vec<u64> = server.entities().iter().map(|e| e.get_handle()).collect();
    let mut expected = before.clone();
    expected.extend_from_slice(&handles);
    let fired = fired_by_the_dice(&ctx);
    if fired == 1 {
        expected.push(last + 3);
    }
    assert_eq!(after, expected);
    assert_eq!(server.last_handle(), last + 2 + fired as u64);
    assert!(ctx.commands().is_empty());
    assert!(ctx.events().is_empty());
    let events = queued(&server);
    let spawn_at = events
        .iter()
        .position(|event| *event == Event::Spawn(last + 1, MeshType::Default))
        .unwrap();
    assert_eq!(events[spawn_at + 1], Event::Spawn(last + 2, MeshType::Bullet));
    assert!(events[spawn_at + 2..].contains(&Event::Custom(5, vec![])));
    assert!(events.contains(&Event::Health(1, 50)));
}

#[test]
fn the_passes_of_a_tick_run_in_turn_or_not_at_all() {
    let mut server = running(0);
    server.flush_events();
    assert_eq!(server.stage(), None);
    let mut idle = ServerContext::new(vec![KeySet::new(), KeySet::new(), KeySet::new()], 1, 99);
    assert!(matches!(server.call_systems(&mut idle, Input::Targets(vec![])), Request::OutOfTurn));
    assert!(matches!(
        server.call_systems(&mut idle, Input::Steerings(vec![])),
        Request::OutOfTurn
    ));
    assert!(server.events().is_empty());

    let mut ctx = server.begin_tick(1_000_000);
    assert_eq!(server.stage(), Some(SystemKind::Npc));
    for wrong in [Input::Drives(vec![]), Input::Contacts(vec![(1, 2)]), Input::Targets(vec![])] {
        assert!(matches!(server.call_systems(&mut ctx, wrong), Request::OutOfTurn));
        assert_eq!(server.stage(), Some(SystemKind::Npc));
    }
    assert!(matches!(server.call_systems(&mut ctx, Input::Steerings(vec![])), Request::Drives));
    assert_eq!(server.stage(), Some(SystemKind::Control));
    assert!(matches!(
        server.call_systems(&mut ctx, Input::Steerings(vec![])),
        Request::OutOfTurn
    ));
    assert!(matches!(server.call_systems(&mut ctx, Input::Targets(vec![])), Request::OutOfTurn));
    assert!(matches!(server.call_systems(&mut ctx, Input::Drives(vec![])), Request::Contacts(_)));
    assert_eq!(server.stage(), Some(SystemKind::Collision));
    assert!(matches!(server.call_systems(&mut ctx, Input::Targets(vec![])), Request::OutOfTurn));
    assert!(server.events().is_empty());
    assert!(matches!(server.call_systems(&mut ctx, Input::Contacts(vec![])), Request::Targets));
    assert_eq!(server.stage(), Some(SystemKind::Velocity));
    assert!(matches!(server.call_systems(&mut ctx, Input::Contacts(vec![])), Request::OutOfTurn));
    assert!(server.events().is_empty());
    assert!(matches!(server.call_systems(&mut ctx, Input::Targets(vec![])), Request::Done));
    assert_eq!(server.stage(), None);
    assert!(!server.events().is_empty());
    let reported = server.events().len();
    assert!(matches!(server.call_systems(&mut ctx, Input::Targets(vec![])), Request::OutOfTurn));
    assert_eq!(server.events().len(), reported);
}

#[test]
fn a_tank_shot_dead_is_removed_once_and_ends_the_game() {
    let mut server = running(0);
    let shots = 80u64;
    for index in 0..shots {
        server.spawn(bullet(
            1000 + index,
            2,
            ZERO,
            ZERO,
            ZERO,
            BULLET_SPEED,
            Color::new(0, 0, 255, 255),
        ));
    }
    let mut ctx = server.begin_tick(0);
    let _ = finish_tick(&mut server, &mut ctx, vec![]);
    let others = 7 + fired_by_the_dice(&ctx);
    server.flush_events();
    let _ = heard_by(&mut server, 0);
    let _ = heard_by(&mut server, 1);
    assert_eq!(server.entities().len(), others + shots as usize);

    let mut ctx = server.begin_tick(20_000);
    let wanted = steerings(&server);
    assert!(matches!(server.call_systems(&mut ctx, Input::Steerings(wanted)), Request::Drives));
    let hitboxes = match server.call_systems(&mut ctx, Input::Drives(vec![])) {
        Request::Contacts(hitboxes) => hitboxes,
        other => panic!("asked for {:?}", other),
    };
    assert_eq!(hitboxes.len(), others + shots as usize);
    let contacts: Vec<(u64, u64)> = (0..shots).map(|index| (1, 1000 + index)).collect();
    assert!(matches!(server.call_systems(&mut ctx, Input::Contacts(contacts)), Request::Targets));
    assert_eq!(server.entities()[1].get_component::<Health>().unwrap().get_health(), 0);
    assert!(server.entities()[1].deleted());
    assert!(server.events().is_empty());
    assert!(matches!(server.call_systems(&mut ctx, Input::Targets(vec![])), Request::Done));

    assert!(server.entities().iter().all(|entity| !entity.deleted()));
    let events = queued(&server);
    let despawned_tank = events.iter().filter(|event| **event == Event::Despawn(1)).count();
    assert_eq!(despawned_tank, 1);
    let despawns = events.iter().filter(|event| matches!(event, Event::Despawn(_))).count();
    assert_eq!(despawns, 1 + shots as usize);
    assert_eq!(
        events.iter().filter(|event| matches!(event, Event::Health(1, _))).count(),
        1
    );
    assert!(events.contains(&Event::Health(1, 0)));
    assert!(server.game_over());
    assert_eq!(server.phase(), Phase::GameOver);
    say(&mut server, 0, &Event::KeyDown(KeyCode::Up));
    server.receive();
    assert!(!server.pressed_keys(0).contains(KeyCode::Up));
    let tanks: Vec<&Entity> =
        server.entities().iter().filter(|entity| entity.get_handle() == 1).collect();
    assert_eq!(tanks.len(), 1);
    assert!(!tanks[0].deleted());
    assert_eq!(tanks[0].get_component::<Health>().unwrap().get_health(), 50);
    assert_eq!(heard_by(&mut server, 0), vec![Event::Yield(1)]);
    assert!(heard_by(&mut server, 1).is_empty());
    let despawn_at = events.iter().position(|event| *event == Event::Despawn(1)).unwrap();
    let respawn_at = events
        .iter()
        .position(|event| *event == Event::Spawn(1, MeshType::Tank))
        .unwrap();
    let health_at = events.iter().position(|event| *event == Event::Health(1, 0)).unwrap();
    assert!(despawn_at < respawn_at);
    assert!(respawn_at < health_at);

    assert!(server.end_game());
    assert_eq!(server.phase(), Phase::AwaitingClients);
    assert!(server.entities().is_empty());
    assert!(server.events().is_empty());
    assert!(!server.game_over());
    assert_eq!(heard_by(&mut server, 0), vec![Event::GameOver]);
    assert_eq!(heard_by(&mut server, 1), vec![Event::GameOver]);
    assert!(!server.end_game());
    say(&mut server, 0, &Event::Ready);
    say(&mut server, 1, &Event::Ready);
    // The key that went down after the end is still in the way.
    assert!(!server.await_clients());
    assert!(server.await_clients());
}

#[test]
fn a_whole_tick_with_the_host_doing_the_arithmetic() {
    let mut server = running(0);
    server.flush_events();
    say(&mut server, 0, &Event::KeyDown(KeyCode::Up));
    say(&mut server, 1, &Event::KeyDown(KeyCode::Space));
    server.receive();
    let mut ctx = server.begin_tick(20_000);
    let hitboxes = finish_tick(&mut server, &mut ctx, vec![]);
    assert_eq!(hitboxes, 7);

    let host = &server.entities()[1];
    let x = f32::from_bits(host.get_component::<Position>().unwrap().get_x());
    assert!(x < 800.0 && x > 799.0, "x is {}", x);
    let speed = f32::from_bits(host.get_component::<Velocity>().unwrap().get_velocity());
    assert!(speed > 19.0 && speed < 20.0, "speed is {}", speed);
    let fired = fired_by_the_dice(&ctx);
    let shot = server.entities().last().unwrap();
    assert_eq!(shot.get_handle(), 9 + fired as u64);
    assert_eq!(
        shot.get_component::<CollisionComponent>().unwrap().get_collision_class(),
        CollisionClass::Bullet(2)
    );
    assert_eq!(shot.get_component::<TimeToLive>(), Some(&TimeToLive(2_000_000)));
    let events = queued(&server);
    assert_eq!(events[0], Event::Spawn(9, MeshType::Bullet));
    assert_eq!(events[fired], Event::Spawn(9 + fired as u64, MeshType::Bullet));
    assert!(matches!(events[1 + fired], Event::Movement(4, _, _, _)));
    assert!(matches!(events[2 + fired], Event::Movement(1, _, _, _)));
    assert!(events.contains(&Event::Health(2, 50)));
    assert!(events.contains(&Event::PickUp(1, MeshType::Nothing)));
    assert!(!server.game_over());
    let _ = heard_by(&mut server, 1);
    server.flush_events();
    assert_eq!(heard_by(&mut server, 1), events);

    let mut ctx = server.begin_tick(2_000_000);
    let _ = finish_tick(&mut server, &mut ctx, vec![]);
    let events = queued(&server);
    assert_eq!(events[0], Event::Despawn(9));
    assert!(server.entities().iter().all(|entity| entity.get_handle() != 9));
}

#[test]
fn an_unfit_world_is_told_apart() {
    let mut server = running(0);
    let mut ctx = server.begin_tick(1);
    assert!(server.fit(&ctx, &Input::Steerings(vec![])));
    assert!(server.fit(&ctx, &Input::Targets(vec![])));
    let short = ServerContext::new(vec![KeySet::new(), KeySet::new()], 1, 99);
    assert!(!server.fit(&short, &Input::Steerings(vec![])));
    assert!(matches!(run(&mut server, &mut ctx, Input::Steerings(vec![])), Request::Drives));
    assert!(server.fit(&ctx, &Input::Drives(vec![])));
    // The self-steering tank reads the third input device.
    assert!(!server.fit(&short, &Input::Drives(vec![])));
    let full = ServerContext::new(vec![KeySet::new(), KeySet::new(), KeySet::new()], 1, u64::MAX - 6);
    assert!(!server.fit(&full, &Input::Drives(vec![])));
    let room = ServerContext::new(vec![KeySet::new(), KeySet::new(), KeySet::new()], 1, u64::MAX - 7);
    assert!(server.fit(&room, &Input::Drives(vec![])));

    let mut lame = server_with(|entity| {
        entity.put_component(netgame::game::ecs::prefabs::player_control_component(0));
    });
    let mut ctx = lame.begin_tick(1);
    assert!(matches!(run(&mut lame, &mut ctx, Input::Steerings(vec![])), Request::Drives));
    assert!(!lame.fit(&ctx, &Input::Drives(vec![])));

    let mut hollow = server_with(|entity| {
        entity.put_component(CollisionComponent::new_item(
            9,
            netgame::game::ecs::CollisionScript::PickUp,
        ));
    });
    let mut ctx = hollow.begin_tick(1);
    assert!(matches!(run(&mut hollow, &mut ctx, Input::Steerings(vec![])), Request::Drives));
    assert!(matches!(run(&mut hollow, &mut ctx, Input::Drives(vec![])), Request::Contacts(_)));
    assert!(!hollow.fit(&ctx, &Input::Contacts(vec![])));

    let mut orphan = server_with(|entity| {
        entity.put_component(netgame::game::ecs::DeathComponent::new(
            netgame::game::ecs::DeathScript::Player,
        ));
    });
    let mut ctx = orphan.begin_tick(1);
    assert!(matches!(run(&mut orphan, &mut ctx, Input::Steerings(vec![])), Request::Drives));
    assert!(matches!(run(&mut orphan, &mut ctx, Input::Drives(vec![])), Request::Contacts(_)));
    assert!(matches!(run(&mut orphan, &mut ctx, Input::Contacts(vec![])), Request::Targets));
    assert!(!orphan.fit(&ctx, &Input::Targets(vec![])));
}

fn server_with(build: fn(&mut Entity)) -> Host {
    let mut server = server(false);
    let mut entity = Entity::new(9);
    build(&mut entity);
    server.spawn(entity);
    server
}

#[test]
fn handles_stay_unique_through_ticks() {
    let unique = |server: &Host| {
        let mut handles: Vec<u64> = server.entities().iter().map(|e| e.get_handle()).collect();
        let count = handles.len();
        handles.sort();
        handles.dedup();
        assert_eq!(handles.len(), count);
        assert!(handles.iter().all(|handle| *handle <= server.last_handle() && *handle != 0));
    };
    for map_index in [0usize, 1, 2] {
        let mut server = running(map_index);
        unique(&server);
        say(&mut server, 0, &Event::KeyDown(KeyCode::Space));
        say(&mut server, 1, &Event::KeyDown(KeyCode::Space));
        server.receive();
        for round in 0..60u64 {
            if round % 2 == 1 {
                say(&mut server, 0, &Event::KeyUp(KeyCode::Space));
                say(&mut server, 1, &Event::KeyUp(KeyCode::Space));
            } else {
                say(&mut server, 0, &Event::KeyDown(KeyCode::Space));
                say(&mut server, 1, &Event::KeyDown(KeyCode::Space));
            }
            server.receive();
            server.receive();
            let bullets: Vec<u64> = server
                .entities()
                .iter()
                .filter(|e| e.get_component::<MeshType>() == Some(&MeshType::Bullet))
                .map(|e| e.get_handle())
                .collect();
            let contacts: Vec<(u64, u64)> = bullets
                .iter()
                .flat_map(|bullet| vec![(1, *bullet), (*bullet, 2), (*bullet, 4)])
                .collect();
            let mut ctx = server.begin_tick(20_000);
            let _ = finish_tick(&mut server, &mut ctx, contacts);
            unique(&server);
            server.flush_events();
        }
        assert!(server.last_handle() > 14);
    }
}

#[test]
fn purge_keeps_the_connections_and_the_handle_counter() {
    let mut server = running(1);
    say(&mut server, 0, &Event::KeyDown(KeyCode::Up));
    server.receive();
    let last = server.last_handle();
    server.purge_state();
    assert!(server.entities().is_empty());
    assert!(server.events().is_empty());
    assert!(!server.pressed_keys(0).contains(KeyCode::Up));
    assert_eq!(server.last_handle(), last);
    assert_eq!(server.phase(), Phase::Running);
    assert_eq!(
        heard_by(&mut server, 0),
        vec![Event::Standby, Event::Start, Event::Yield(1)]
    );
}

#[test]
fn despawn_announces_and_removes_what_is_deleted() {
    let mut server = server(false);
    for handle in 10..15 {
        let mut entity = Entity::new(handle);
        if handle % 2 == 1 {
            entity.put_component(TimeToLive::new(5));
        }
        server.spawn(entity);
    }
    server.flush_events();
    server.despawn_deleted();
    assert!(server.events().is_empty());
    assert_eq!(server.entities().len(), 5);
    let mut ctx = server.begin_tick(5);
    let _ = finish_tick(&mut server, &mut ctx, vec![]);
    assert_eq!(queued(&server), vec![Event::Despawn(11), Event::Despawn(13)]);
    let handles: Vec<u64> = server.entities().iter().map(|e| e.get_handle()).collect();
    assert_eq!(handles, vec![10, 12, 14]);
    server.despawn_deleted();
    assert_eq!(queued(&server).len(), 2);
    server.broadcast_event(&Event::Standby);
    assert_eq!(heard_by(&mut server, 1)[5..], [Event::Standby]);
}

fn server_with_commands() -> Host {
    let mut server = server(false);
    let mut ctx = ServerContext::new(vec![KeySet::new(), KeySet::new(), KeySet::new()], 5, 40);
    ctx.spawn_player(1);
    ctx.spawn(Entity::new(0));
    ctx.trigger_game_over();
    ctx.spawn_player(7);
    ctx.spawn_player(0);
    ctx.push_event(Event::Ready);
    ctx.transfer_state(&mut server);
    server
}

#[test]
fn the_mediator_applies_commands_in_the_order_they_were_asked_for() {
    let mut server = server_with_commands();
    let handles: Vec<u64> = server.entities().iter().map(|e| e.get_handle()).collect();
    assert_eq!(handles, vec![2, 41, 1]);
    assert!(server.game_over());
    assert_eq!(server.phase(), Phase::AwaitingClients);
    assert!(!server.end_game());
    say(&mut server, 0, &Event::Ready);
    say(&mut server, 1, &Event::Ready);
    assert!(server.await_clients());
    server.start_game(0, (ZERO, ZERO));
    assert_eq!(server.phase(), Phase::GameOver);
    let _ = heard_by(&mut server, 1);
    let _ = heard_by(&mut server, 0);
    assert!(server.end_game());
    assert_eq!(heard_by(&mut server, 1), vec![Event::GameOver]);
    assert_eq!(server.phase(), Phase::AwaitingClients);
    let mut server = server_with_commands();
    assert_eq!(server.last_handle(), 41);
    assert_eq!(
        queued(&server),
        vec![
            Event::Color(2, Color::new(0, 0, 255, 255)),
            Event::Spawn(2, MeshType::Tank),
            Event::Spawn(41, MeshType::Default),
            Event::Color(1, Color::new(255, 0, 0, 255)),
            Event::Spawn(1, MeshType::Tank),
            Event::Ready,
        ]
    );
    assert_eq!(heard_by(&mut server, 1), vec![Event::Yield(2)]);
    assert_eq!(heard_by(&mut server, 0), vec![Event::Yield(1)]);
    let tank = player(1, 0, whole(800), whole(250), whole(180), Color::new(255, 0, 0, 255));
    assert_eq!(
        server.entities()[2].get_component::<Position>(),
        tank.get_component::<Position>()
    );
}
