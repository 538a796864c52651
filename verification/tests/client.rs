use netgame::game::client::{await_standby, HealthBars, MyGame, EVENT_LIMIT, OFFSCREEN};
use netgame::game::graphics::{Color, MeshType};
use netgame::game::keyboard::{KeyCode, KeySet};
use netgame::misc::scalar::{less_than, whole, ONE, ZERO};
use netgame::net::connection::Connection;
use netgame::net::event::{Event, EventListener};
use netgame::net::protocol::SmartProtocol;
use std::collections::VecDeque;

fn game() -> MyGame<SmartProtocol> {
    MyGame::new(Connection::new(true))
}

fn tell(game: &mut MyGame<SmartProtocol>, events: &[Event]) {
    let mut server = Connection::<SmartProtocol>::new(true);
    for event in events {
        server.send(event);
    }
    game.server_mut().feed(&server.take_outgoing());
}

fn told(game: &mut MyGame<SmartProtocol>) -> Vec<Event> {
    let wire = game.server_mut().take_outgoing();
    let mut server = Connection::<SmartProtocol>::new(true);
    server.feed(&wire);
    server.recv_multiple(usize::MAX).into_iter().collect()
}

fn keys(held: &[KeyCode]) -> KeySet {
    let mut keys = KeySet::new();
    for key in held {
        keys.insert(*key);
    }
    keys
}

#[test]
fn a_new_picture_is_empty() {
    let game = game();
    assert!(!game.started());
    assert!(!game.game_over());
    assert!(!game.should_continue());
    assert_eq!(game.player_handle(), 0);
    assert_eq!(game.inventory(), None);
    assert!(game.coords().is_empty());
    assert!(game.meshes().is_empty());
    assert_eq!(game.get_dimensions(5), (ONE, ONE));
    assert_eq!(OFFSCREEN, (-100.0f32).to_bits());
    assert_eq!(EVENT_LIMIT, 10000);
}

#[test]
fn events_update_the_picture() {
    let mut game = game();
    game.handle(0, Event::Movement(5, 1, 2, 3));
    assert!(game.coords().is_empty());
    game.handle(0, Event::Spawn(5, MeshType::Tank));
    assert_eq!(game.coords().get(&5), Some(&(OFFSCREEN, OFFSCREEN, ZERO)));
    assert_eq!(game.meshes().get(&5), Some(&MeshType::Tank));
    game.handle(0, Event::Movement(5, 1, 2, 3));
    assert_eq!(game.coords().get(&5), Some(&(1, 2, 3)));
    game.handle(0, Event::Yield(5));
    assert_eq!(game.player_handle(), 5);
    game.handle(0, Event::PickUp(6, MeshType::Heal));
    assert_eq!(game.inventory(), None);
    game.handle(0, Event::PickUp(5, MeshType::Heal));
    assert_eq!(game.inventory(), Some(MeshType::Heal));
    game.handle(0, Event::PickUp(5, MeshType::Nothing));
    assert_eq!(game.inventory(), None);
    game.handle(0, Event::Health(5, 44));
    game.handle(0, Event::Color(5, Color::new(1, 2, 3, 4)));
    game.handle(0, Event::Dimension(5, whole(3), whole(4)));
    assert_eq!(game.healths().get(&5), Some(&44));
    assert_eq!(game.colors().get(&5), Some(&Color::new(1, 2, 3, 4)));
    assert_eq!(game.get_dimensions(5), (whole(3), whole(4)));
    game.handle(0, Event::Despawn(5));
    assert!(game.coords().is_empty());
    assert!(game.meshes().is_empty());
    game.handle(0, Event::Movement(5, 1, 2, 3));
    assert!(game.coords().is_empty());
    assert_eq!(game.healths().get(&5), Some(&44));
    game.handle(0, Event::Ready);
    game.handle(0, Event::KeyDown(KeyCode::A));
    assert!(!game.game_over());
    game.handle(0, Event::GameOver);
    assert!(game.game_over());
    assert!(game.should_continue());
}

#[test]
fn a_batch_applies_movements_last_and_only_the_latest() {
    let mut game = game();
    let batch: VecDeque<Event> = vec![
        Event::Movement(1, 10, 10, 10),
        Event::Spawn(1, MeshType::Tank),
        Event::Movement(2, 20, 20, 20),
        Event::Movement(1, 11, 11, 11),
        Event::Spawn(2, MeshType::Bullet),
        Event::Movement(3, 30, 30, 30),
        Event::Despawn(3),
        Event::Spawn(4, MeshType::Wall),
        Event::Movement(4, 40, 40, 40),
        Event::Despawn(4),
    ]
    .into_iter()
    .collect();
    game.dispatch_events(batch);
    assert_eq!(game.coords().get(&1), Some(&(11, 11, 11)));
    assert_eq!(game.coords().get(&2), Some(&(20, 20, 20)));
    assert_eq!(game.coords().get(&3), None);
    assert_eq!(game.coords().get(&4), None);
    assert_eq!(game.coords().len(), 2);
    game.dispatch_events(VecDeque::new());
    assert_eq!(game.coords().len(), 2);
}

#[test]
fn key_changes_are_sent_once() {
    let mut game = game();
    game.check_keys(&keys(&[]));
    game.send_keys();
    assert_eq!(told(&mut game), vec![]);
    game.check_keys(&keys(&[KeyCode::Up, KeyCode::Space]));
    game.check_keys(&keys(&[KeyCode::Up, KeyCode::Space]));
    game.send_keys();
    assert_eq!(
        told(&mut game),
        vec![Event::KeyDown(KeyCode::Up), Event::KeyDown(KeyCode::Space)]
    );
    game.send_keys();
    assert_eq!(told(&mut game), vec![]);
    game.check_keys(&keys(&[KeyCode::Space, KeyCode::Key1]));
    game.send_keys();
    assert_eq!(
        told(&mut game),
        vec![Event::KeyDown(KeyCode::Key1), Event::KeyUp(KeyCode::Up)]
    );
    game.check_keys(&keys(&[KeyCode::Space, KeyCode::Key1, KeyCode::Cut]));
    game.check_keys(&keys(&[KeyCode::Space, KeyCode::Key1]));
    game.send_keys();
    assert_eq!(told(&mut game), vec![Event::KeyUp(KeyCode::Cut)]);
}

#[test]
fn the_client_waits_for_the_start() {
    let mut game = game();
    assert!(!game.update(&keys(&[KeyCode::Up])));
    assert!(!game.started());
    tell(
        &mut game,
        &[Event::Yield(2), Event::Spawn(2, MeshType::Tank), Event::Start, Event::Movement(2, 7, 8, 9)],
    );
    assert!(!game.update(&keys(&[KeyCode::Up])));
    assert!(!game.update(&keys(&[KeyCode::Up])));
    assert!(!game.started());
    assert_eq!(game.player_handle(), 0);
    assert_eq!(told(&mut game), vec![]);
    assert!(!game.update(&keys(&[KeyCode::Up])));
    assert!(game.started());
    assert!(game.coords().is_empty());
    assert!(!game.update(&keys(&[KeyCode::Up])));
    assert_eq!(game.player_handle(), 2);
    assert_eq!(game.coords().get(&2), Some(&(7, 8, 9)));
    assert_eq!(told(&mut game), vec![Event::KeyDown(KeyCode::Up)]);
    tell(&mut game, &[Event::Health(2, 3), Event::GameOver, Event::Health(2, 1)]);
    assert!(!game.update(&keys(&[])));
    assert_eq!(told(&mut game), vec![Event::KeyUp(KeyCode::Up)]);
    assert_eq!(game.healths().get(&2), Some(&1));
    assert!(game.game_over());
    assert!(game.update(&keys(&[KeyCode::Down])));
    assert_eq!(told(&mut game), vec![]);

    let mut early = MyGame::<SmartProtocol>::new(Connection::new(true));
    tell(&mut early, &[Event::GameOver]);
    early.await_start();
    assert!(early.started());
    assert!(early.game_over());
    assert!(!early.should_continue());
    early.await_start();
    assert!(early.update(&keys(&[])));
}

#[test]
fn the_health_bars_follow_the_tanks() {
    let mut game = game();
    let white = Color::new(255, 255, 255, 255);
    assert_eq!(
        game.health_bars(),
        HealthBars { right_color: white, right_health: 0, left_color: white, left_health: 0 }
    );
    let red = Color::new(255, 0, 0, 255);
    let blue = Color::new(0, 0, 255, 255);
    for event in [
        Event::Yield(1),
        Event::Spawn(1, MeshType::Tank),
        Event::Spawn(2, MeshType::Tank),
        Event::Spawn(4, MeshType::Tank),
        Event::Color(1, red),
        Event::Color(2, blue),
        Event::Health(1, 50),
        Event::Health(2, 40),
        Event::Health(4, 30),
        Event::Movement(1, whole(800), whole(250), whole(180)),
        Event::Movement(2, whole(200), whole(250), ZERO),
    ] {
        game.handle(0, event);
    }
    assert_eq!(
        game.health_bars(),
        HealthBars { right_color: blue, right_health: 40, left_color: red, left_health: 50 }
    );
    game.handle(0, Event::Movement(1, whole(100), whole(250), whole(180)));
    assert_eq!(
        game.health_bars(),
        HealthBars { right_color: red, right_health: 50, left_color: blue, left_health: 40 }
    );
    game.handle(0, Event::Yield(2));
    assert_eq!(
        game.health_bars(),
        HealthBars { right_color: red, right_health: 50, left_color: blue, left_health: 40 }
    );
}

#[test]
fn order_of_numbers_agrees_with_the_machine() {
    let samples = [
        0.0f32,
        -0.0,
        1.0,
        -1.0,
        0.5,
        -0.5,
        1.0e-40,
        -1.0e-40,
        f32::MAX,
        f32::MIN,
        f32::INFINITY,
        f32::NEG_INFINITY,
        f32::NAN,
        800.0,
        200.0,
    ];
    for a in samples {
        for b in samples {
            assert_eq!(less_than(a.to_bits(), b.to_bits()), a < b, "{} < {}", a, b);
        }
    }
}

#[test]
fn standby_is_awaited_one_message_at_a_time() {
    let mut conn = Connection::<SmartProtocol>::new(false);
    assert!(!await_standby(&mut conn));
    let mut server = Connection::<SmartProtocol>::new(false);
    server.send(&Event::Ready);
    server.send(&Event::Standby);
    server.send(&Event::Start);
    conn.feed(&server.take_outgoing());
    assert!(!await_standby(&mut conn));
    assert!(await_standby(&mut conn));
    assert_eq!(conn.recv(), Some(Event::Start));
}
