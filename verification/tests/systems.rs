use netgame::game::ecs::collision::{
    entity_indices_by_handle, index_of, run_collision_script, BULLET_DIAMETER, ITEM_DIAMETER,
    TANK_DIAMETER,
};
use netgame::game::ecs::npc::{press, update, FORWARD_ODDS, SHOOT_ODDS};
use netgame::game::ecs::prefabs::bullet::BULLET_LIFETIME;
use netgame::game::ecs::prefabs::player::BULLET_SPEED;
use netgame::game::ecs::prefabs::{
    bullet, bullet_collision_script, default_color, heal_item, heal_item_script, pickup_script,
    player, player_collision_script, player_control_component, player_control_script,
    player_death_script, wall, wall_collision_script,
};
use netgame::game::ecs::{
    npc, CollisionClass, CollisionComponent, CollisionScript, CollisionSystem, ColorComponent,
    ColorSystem, ControlScript, ControlSystem, DeathComponent, Drive, Entity, Health, HealthSystem,
    Hitbox, InventoryComponent, InventorySystem, ItemUseScript, Motion, NpcSteering, NpcSystem,
    PickUpComponent, Position, PositionWatcherSystem, ReaperSystem, Scale, ScaleSystem, Shape,
    Steering, TimeToLive, TtlSystem, Velocity, VelocitySystem, NPC,
};
use netgame::game::graphics::{Color, MeshType};
use netgame::game::keyboard::{KeyCode, KeySet};
use netgame::game::server::{ServerCommand, ServerContext};
use netgame::misc::scalar::{whole, ZERO};
use netgame::net::event::{Event, NULL_HANDLE};

fn context(delta_time: u64, last_handle: u64) -> ServerContext {
    ServerContext::new(vec![KeySet::new(), KeySet::new(), KeySet::new()], delta_time, last_handle)
}

fn events(ctx: &ServerContext) -> Vec<Event> {
    ctx.events().iter().cloned().collect()
}

fn red() -> Color {
    Color::new(255, 0, 0, 255)
}

fn tank(handle: u64, device: usize) -> Entity {
    player(handle, device, whole(100), whole(200), whole(90), red())
}

fn keys_of(held: &[KeyCode]) -> KeySet {
    let mut keys = KeySet::new();
    for key in held {
        keys.insert(*key);
    }
    keys
}

#[test]
fn watchers_report_each_change_once_in_entity_order() {
    let mut entities = vec![tank(1, 0), Entity::new(5), tank(2, 1)];
    let mut ctx = context(0, 3);
    HealthSystem.update(&mut entities, &mut ctx);
    assert_eq!(events(&ctx), vec![Event::Health(1, 50), Event::Health(2, 50)]);
    HealthSystem.update(&mut entities, &mut ctx);
    assert_eq!(events(&ctx).len(), 2);
    entities[2].get_component_mut::<Health>().unwrap().set_health(49);
    entities[0].get_component_mut::<Health>().unwrap().set_health(50);
    HealthSystem.update(&mut entities, &mut ctx);
    assert_eq!(events(&ctx)[2..], [Event::Health(2, 49)]);

    let mut ctx = context(0, 3);
    PositionWatcherSystem.update(&mut entities, &mut ctx);
    assert_eq!(
        events(&ctx),
        vec![
            Event::Movement(1, whole(100), whole(200), whole(90)),
            Event::Movement(2, whole(100), whole(200), whole(90)),
        ]
    );
    PositionWatcherSystem.update(&mut entities, &mut ctx);
    assert_eq!(events(&ctx).len(), 2);

    let mut ctx = context(0, 3);
    ColorSystem.update(&mut entities, &mut ctx);
    assert_eq!(events(&ctx), vec![Event::Color(1, red()), Event::Color(2, red())]);
    entities[0].get_component_mut::<ColorComponent>().unwrap().set_blue(9);
    ColorSystem.update(&mut entities, &mut ctx);
    assert_eq!(events(&ctx)[2..], [Event::Color(1, Color::new(255, 0, 9, 255))]);

    let mut ctx = context(0, 3);
    InventorySystem.update(&mut entities, &mut ctx);
    assert_eq!(
        events(&ctx),
        vec![Event::PickUp(1, MeshType::Nothing), Event::PickUp(2, MeshType::Nothing)]
    );
    entities[2]
        .get_component_mut::<InventoryComponent>()
        .unwrap()
        .put_item((MeshType::Heal, ItemUseScript::Heal));
    InventorySystem.update(&mut entities, &mut ctx);
    assert_eq!(events(&ctx)[2..], [Event::PickUp(2, MeshType::Heal)]);

    let mut walls = vec![wall(9, whole(1), whole(2), whole(30), whole(40), red())];
    let mut ctx = context(0, 3);
    ScaleSystem.update(&mut walls, &mut ctx);
    ScaleSystem.update(&mut walls, &mut ctx);
    assert_eq!(events(&ctx), vec![Event::Dimension(9, whole(30), whole(40))]);
}

#[test]
fn countdown_marks_what_ran_out() {
    let mut entities = vec![
        bullet(4, 1, ZERO, ZERO, ZERO, BULLET_SPEED, red()),
        Entity::new(5),
        Entity::new(6),
    ];
    entities[2].put_component(TimeToLive::new(10));
    assert_eq!(BULLET_LIFETIME, 2_000_000);
    let ctx = context(1_999_999, 10);
    TtlSystem.update(&mut entities, &ctx);
    assert_eq!(entities[0].get_component::<TimeToLive>(), Some(&TimeToLive(1)));
    assert!(!entities[0].deleted());
    assert!(!entities[1].deleted());
    assert_eq!(entities[2].get_component::<TimeToLive>(), Some(&TimeToLive(0)));
    assert!(entities[2].deleted());
    let ctx = context(1, 10);
    TtlSystem.update(&mut entities, &ctx);
    assert_eq!(entities[0].get_component::<TimeToLive>(), Some(&TimeToLive(0)));
    assert!(entities[0].deleted());
    let ctx = context(0, 10);
    let mut fresh = vec![Entity::new(7)];
    fresh[0].put_component(TimeToLive::new(0));
    TtlSystem.update(&mut fresh, &ctx);
    assert!(fresh[0].deleted());
}

#[test]
fn velocity_system_moves_to_the_targets_of_the_host() {
    let mut entities = vec![tank(1, 0), wall(2, ZERO, ZERO, whole(1), whole(1), red()), tank(3, 1)];
    entities[0].get_component_mut::<Velocity>().unwrap().set_velocity(whole(10));
    assert_eq!(
        VelocitySystem::motion(&entities[0]),
        Some(Motion { x: whole(100), y: whole(200), angle: whole(90), velocity: whole(10) })
    );
    assert_eq!(VelocitySystem::motion(&entities[1]), None);
    for entity in entities.iter_mut() {
        entity.get_component_mut::<Position>().unwrap().has_changed_since_last();
    }
    let delta_seconds = 0.5f32;
    let targets: Vec<Option<(u32, u32)>> = entities
        .iter()
        .map(|entity| {
            VelocitySystem::motion(entity).map(|motion| {
                let angle = f32::from_bits(motion.angle).to_radians();
                let speed = f32::from_bits(motion.velocity);
                (
                    (f32::from_bits(motion.x) + angle.cos() * speed * delta_seconds).to_bits(),
                    (f32::from_bits(motion.y) + angle.sin() * speed * delta_seconds).to_bits(),
                )
            })
        })
        .collect();
    VelocitySystem.update(&mut entities, &targets);
    let moved = entities[0].get_component::<Position>().unwrap();
    assert!((f32::from_bits(moved.get_x()) - 100.0).abs() < 1.0e-3);
    assert_eq!(f32::from_bits(moved.get_y()), 205.0);
    assert!(moved.has_changed);
    let still = entities[2].get_component::<Position>().unwrap();
    assert_eq!((still.get_x(), still.get_y()), (whole(100), whole(200)));
    assert!(!still.has_changed);
    assert!(!entities[1].get_component::<Position>().unwrap().has_changed);

    let short = vec![Some((whole(1), whole(2)))];
    VelocitySystem.update(&mut entities, &short);
    assert_eq!(entities[0].get_component::<Position>().unwrap().get_x(), whole(1));
    assert_eq!(entities[2].get_component::<Position>().unwrap().get_x(), whole(100));
    let wall_target = vec![None, Some((whole(7), whole(7))), None];
    VelocitySystem.update(&mut entities, &wall_target);
    assert_eq!(entities[1].get_component::<Position>().unwrap().get_x(), ZERO);
}

#[test]
fn steering_follows_the_held_keys() {
    assert_eq!(ControlSystem::steering(&keys_of(&[])), Steering { throttle: 0, turn: 0 });
    assert_eq!(
        ControlSystem::steering(&keys_of(&[KeyCode::Up, KeyCode::Left])),
        Steering { throttle: 1, turn: -1 }
    );
    assert_eq!(
        ControlSystem::steering(&keys_of(&[KeyCode::Down, KeyCode::Right])),
        Steering { throttle: -1, turn: 1 }
    );
    assert_eq!(
        ControlSystem::steering(&keys_of(&[
            KeyCode::Up,
            KeyCode::Down,
            KeyCode::Left,
            KeyCode::Right,
            KeyCode::Space
        ])),
        Steering { throttle: 0, turn: 0 }
    );
}

#[test]
fn control_script_drives_fires_once_and_uses_items() {
    let mut tank = tank(1, 0);
    let mut ctx = context(20_000, 41);
    let drive = Some(Drive { velocity: whole(20), angle: whole(93) });
    player_control_script(&mut tank, &mut ctx, keys_of(&[KeyCode::Space]), drive);
    assert_eq!(tank.get_component::<Velocity>().unwrap().get_velocity(), whole(20));
    assert_eq!(tank.get_component::<Position>().unwrap().get_angle(), whole(93));
    assert_eq!(tank.get_component::<bool>(), Some(&true));
    assert_eq!(ctx.last_handle(), 42);
    assert_eq!(ctx.commands().len(), 1);
    match &ctx.commands()[0] {
        ServerCommand::Spawn(shot) => {
            assert_eq!(shot.get_handle(), 42);
            assert_eq!(
                shot.get_component::<Position>(),
                Some(&Position::new(whole(100), whole(200), whole(93)))
            );
            assert_eq!(shot.get_component::<Velocity>(), Some(&Velocity::new(BULLET_SPEED, ZERO)));
            assert_eq!(BULLET_SPEED, 1000.0f32.to_bits());
            assert_eq!(shot.get_component::<TimeToLive>(), Some(&TimeToLive(2_000_000)));
            assert_eq!(shot.get_component::<MeshType>(), Some(&MeshType::Bullet));
            assert_eq!(shot.get_component::<ColorComponent>().unwrap().get_color(), red());
            assert_eq!(
                shot.get_component::<CollisionComponent>().unwrap().get_collision_class(),
                CollisionClass::Bullet(1)
            );
            assert_eq!(shot.get_component::<CollisionComponent>().unwrap().id(), NULL_HANDLE);
        }
        other => panic!("queued {:?}", other),
    }
    player_control_script(&mut tank, &mut ctx, keys_of(&[KeyCode::Space]), None);
    assert_eq!(ctx.commands().len(), 1);
    assert_eq!(tank.get_component::<Velocity>().unwrap().get_velocity(), whole(20));
    player_control_script(&mut tank, &mut ctx, keys_of(&[]), None);
    assert_eq!(tank.get_component::<bool>(), Some(&false));
    player_control_script(&mut tank, &mut ctx, keys_of(&[KeyCode::Space, KeyCode::I]), None);
    assert_eq!(ctx.commands().len(), 2);
    assert_eq!(ctx.last_handle(), 43);

    tank.get_component_mut::<Health>().unwrap().set_health(10);
    tank.get_component_mut::<InventoryComponent>()
        .unwrap()
        .put_item((MeshType::Heal, ItemUseScript::Heal));
    player_control_script(&mut tank, &mut ctx, keys_of(&[]), None);
    assert!(tank.get_component::<InventoryComponent>().unwrap().has_item());
    assert_eq!(tank.get_component::<Health>().unwrap().get_health(), 10);
    player_control_script(&mut tank, &mut ctx, keys_of(&[KeyCode::I]), None);
    assert!(!tank.get_component::<InventoryComponent>().unwrap().has_item());
    assert_eq!(tank.get_component::<Health>().unwrap().get_health(), 30);
    player_control_script(&mut tank, &mut ctx, keys_of(&[KeyCode::I]), None);
    assert_eq!(tank.get_component::<Health>().unwrap().get_health(), 30);
}

#[test]
fn bullets_of_a_colorless_tank_are_white() {
    let mut bare = Entity::new(8);
    bare.put_component(Position::new(ZERO, ZERO, ZERO));
    bare.put_component(false);
    let mut ctx = context(0, 8);
    player_control_script(&mut bare, &mut ctx, keys_of(&[KeyCode::Space]), None);
    match &ctx.commands()[0] {
        ServerCommand::Spawn(shot) => {
            assert_eq!(shot.get_component::<ColorComponent>().unwrap().get_color(), default_color());
            assert_eq!(default_color(), Color::new(255, 255, 255, 255));
        }
        other => panic!("queued {:?}", other),
    }
    assert_eq!(NULL_HANDLE, 0);
}

#[test]
fn control_system_reads_each_entity_its_own_device() {
    let mut entities = vec![tank(1, 0), Entity::new(9), tank(2, 1)];
    let mut ctx = context(20_000, 5);
    ctx.insert_pressed_key(1, KeyCode::Space);
    ctx.insert_pressed_key(0, KeyCode::I);
    let drives = vec![None, None, Some(Drive { velocity: whole(3), angle: whole(4) })];
    ControlSystem.update(&mut entities, &mut ctx, &drives);
    assert_eq!(entities[0].get_component::<bool>(), Some(&false));
    assert_eq!(entities[2].get_component::<bool>(), Some(&true));
    assert_eq!(entities[2].get_component::<Velocity>().unwrap().get_velocity(), whole(3));
    assert_eq!(entities[0].get_component::<Velocity>().unwrap().get_velocity(), ZERO);
    assert_eq!(ctx.commands().len(), 1);
    assert_eq!(ctx.last_handle(), 6);
    assert_eq!(
        player_control_component(1).get_input_device_index(),
        1
    );
    assert_eq!(player_control_component(1).script, ControlScript::Player);
}

#[test]
fn heal_item_restores_half_of_what_is_missing() {
    for (before, after) in [(0u8, 25u8), (1, 25), (10, 30), (48, 49), (49, 49), (50, 50)] {
        let mut user = Entity::new(1);
        user.put_component(Health::new(before, 50));
        heal_item_script(&mut user);
        assert_eq!(user.get_component::<Health>().unwrap().get_health(), after);
    }
    let mut strong = Entity::new(1);
    strong.put_component(Health::new(60, 100));
    heal_item_script(&mut strong);
    assert_eq!(strong.get_component::<Health>().unwrap().get_health(), 60);
    let mut bare = Entity::new(2);
    heal_item_script(&mut bare);
    assert!(!bare.has_component::<Health>());
}

#[test]
fn reaper_runs_the_last_act_of_what_is_deleted() {
    let mut entities = vec![tank(1, 0), tank(2, 1), Entity::new(3)];
    entities[1].delete();
    entities[2].delete();
    let mut ctx = context(0, 3);
    ReaperSystem.update(&mut entities, &mut ctx);
    assert_eq!(ctx.commands().len(), 2);
    assert!(matches!(ctx.commands()[0], ServerCommand::SpawnPlayer(1)));
    assert!(matches!(ctx.commands()[1], ServerCommand::GameOver));
    assert_eq!(entities.len(), 3);
    assert!(entities[1].deleted());

    let mut dying = tank(1, 0);
    let mut ctx = context(0, 3);
    player_death_script(&mut dying, &mut ctx);
    assert!(matches!(ctx.commands()[0], ServerCommand::SpawnPlayer(0)));
    assert!(matches!(ctx.commands()[1], ServerCommand::GameOver));
    assert!(dying.has_component::<DeathComponent>());
}

#[test]
fn collision_scripts_follow_the_rules_of_the_game() {
    let mut entities = vec![
        tank(1, 0),
        tank(2, 1),
        bullet(3, 2, ZERO, ZERO, ZERO, BULLET_SPEED, red()),
        wall(4, ZERO, ZERO, whole(5), whole(5), red()),
        heal_item(5, ZERO, ZERO),
    ];
    entities[0].get_component_mut::<Velocity>().unwrap().set_velocity(whole(64));
    player_collision_script(0, 1, &mut entities);
    assert_eq!(entities[0].get_component::<Velocity>().unwrap().get_velocity(), whole(32));
    assert_eq!(entities[1].get_component::<Velocity>().unwrap().get_velocity(), ZERO);
    player_collision_script(0, 4, &mut entities);
    assert_eq!(entities[0].get_component::<Velocity>().unwrap().get_velocity(), whole(32));
    player_collision_script(0, 2, &mut entities);
    assert_eq!(entities[0].get_component::<Health>().unwrap().get_health(), 49);
    assert!(!entities[0].deleted());
    player_collision_script(0, 3, &mut entities);
    assert_eq!(entities[0].get_component::<Velocity>().unwrap().get_velocity(), ZERO);
    wall_collision_script(3, 0, &mut entities);
    assert!(!entities[3].deleted());
    bullet_collision_script(2, 0, &mut entities);
    assert!(entities[2].deleted());

    pickup_script(4, 3, &mut entities);
    assert!(!entities[4].deleted());
    pickup_script(4, 1, &mut entities);
    assert!(entities[4].deleted());
    assert!(entities[1].get_component::<InventoryComponent>().unwrap().has_item());
    let mut second = vec![tank(1, 0), heal_item(6, ZERO, ZERO)];
    second[0]
        .get_component_mut::<InventoryComponent>()
        .unwrap()
        .put_item((MeshType::Heal, ItemUseScript::Heal));
    pickup_script(1, 0, &mut second);
    assert!(!second[1].deleted());
    run_collision_script(CollisionScript::Bullet, 1, 0, &mut second);
    assert!(second[1].deleted());
}

#[test]
fn repeated_bullet_hits_clamp_health_and_delete_once() {
    let bullets = 70u64;
    let mut entities = vec![tank(1, 0), tank(2, 1)];
    for handle in 0..bullets {
        entities.push(bullet(100 + handle, 2, ZERO, ZERO, ZERO, BULLET_SPEED, red()));
    }
    let contacts: Vec<(u64, u64)> = (0..bullets).map(|handle| (1, 100 + handle)).collect();
    let mut seen = Vec::new();
    let mut system = CollisionSystem;
    for (count, contact) in contacts.iter().enumerate() {
        system.contact(&mut entities, contact.0, contact.1);
        let health = entities[0].get_component::<Health>().unwrap().get_health();
        assert_eq!(health as usize, 50usize.saturating_sub(count + 1));
        assert_eq!(entities[0].deleted(), count + 1 >= 50);
        seen.push(health);
    }
    assert_eq!(entities[0].get_component::<Health>().unwrap().get_health(), 0);
    assert!(entities[0].deleted());
    assert!(!entities[1].deleted());
    assert_eq!(entities[1].get_component::<Health>().unwrap().get_health(), 50);
    assert!(entities[2..].iter().all(|bullet| bullet.deleted()));

    let mut again = vec![tank(1, 0), tank(2, 1)];
    for handle in 0..bullets {
        again.push(bullet(100 + handle, 2, ZERO, ZERO, ZERO, BULLET_SPEED, red()));
    }
    CollisionSystem.update(&mut again, &contacts);
    assert_eq!(again[0].get_component::<Health>().unwrap().get_health(), 0);
    assert!(again[0].deleted());
}

#[test]
fn contacts_with_unknown_handles_change_nothing() {
    let mut entities = vec![tank(1, 0), Entity::new(7)];
    CollisionSystem.update(&mut entities, &vec![(1, 99), (99, 1), (7, 1), (1, 7)]);
    assert_eq!(entities[0].get_component::<Health>().unwrap().get_health(), 50);
    assert!(!entities[0].deleted());
    assert_eq!(index_of(&entities, 1), Some(0));
    assert_eq!(index_of(&entities, 7), None);
    assert_eq!(index_of(&entities, 99), None);
}

#[test]
fn hitboxes_describe_what_can_collide() {
    let mut entities = vec![
        tank(1, 0),
        bullet(3, 1, whole(5), whole(6), whole(7), BULLET_SPEED, red()),
        wall(4, whole(1), whole(2), whole(30), whole(40), red()),
        heal_item(5, whole(8), whole(9)),
        Entity::new(6),
        Entity::new(7),
    ];
    entities[5].put_component(CollisionComponent::new_item(700, CollisionScript::PickUp));
    entities[4].put_component(Position::new(ZERO, ZERO, ZERO));
    entities[0].put_component(CollisionComponent::new_tank(55, CollisionScript::Player));
    let hitboxes = CollisionSystem.hitboxes(&mut entities);
    assert_eq!(hitboxes.len(), 4);
    assert_eq!(
        hitboxes[0],
        Hitbox {
            profile: CollisionComponent {
                handle: 1,
                class: CollisionClass::Tank(55),
                script: CollisionScript::Player
            },
            shape: Shape::Circle(TANK_DIAMETER),
            x: whole(100),
            y: whole(200),
            angle: whole(90),
            velocity: Some(ZERO),
        }
    );
    assert_eq!(hitboxes[1].shape, Shape::Circle(BULLET_DIAMETER));
    assert_eq!(hitboxes[1].velocity, Some(BULLET_SPEED));
    assert_eq!(hitboxes[2].shape, Shape::Rect(whole(30), whole(40)));
    assert_eq!(hitboxes[2].velocity, None);
    assert_eq!((hitboxes[2].x, hitboxes[2].y), (whole(1), whole(2)));
    assert_eq!(hitboxes[3].shape, Shape::Circle(ITEM_DIAMETER));
    assert_eq!(hitboxes[3].profile.id(), 5);
    assert_eq!(entities[5].get_component::<CollisionComponent>().unwrap().id(), 7);
    assert_eq!(entities[0].get_component::<CollisionComponent>().unwrap().id(), 1);
    assert_eq!(TANK_DIAMETER, 50.0f32.to_bits());
    assert_eq!(BULLET_DIAMETER, 2.5f32.to_bits());
    assert_eq!(ITEM_DIAMETER, 25.0f32.to_bits());

    let mut twins = vec![tank(1, 0), tank(1, 1)];
    let hitboxes = CollisionSystem.hitboxes(&mut twins);
    assert_eq!(hitboxes.len(), 1);
    assert_eq!(index_of(&twins, 1), Some(1));
}

#[test]
fn self_steering_tanks_hold_the_keys_of_their_turn() {
    let mut ctx = context(0, 3);
    press(&mut ctx, -1, 0, 0);
    assert!(ctx.pressed_keys(2).contains(KeyCode::Left));
    assert!(!ctx.pressed_keys(2).contains(KeyCode::Right));
    assert!(!ctx.pressed_keys(2).contains(KeyCode::Space));
    assert!(!ctx.pressed_keys(2).contains(KeyCode::Up));
    let mut ctx = context(0, 3);
    press(&mut ctx, 1, 1, 1);
    assert!(ctx.pressed_keys(2).contains(KeyCode::Right));
    assert!(ctx.pressed_keys(2).contains(KeyCode::Space));
    assert!(ctx.pressed_keys(2).contains(KeyCode::Up));
    assert!(!ctx.pressed_keys(0).contains(KeyCode::Up));
    assert!(!ctx.pressed_keys(1).contains(KeyCode::Right));
    let mut ctx = context(0, 3);
    press(&mut ctx, 0, 50, 2);
    assert!(ctx.pressed_keys(2).contains(KeyCode::Right));
    assert!(!ctx.pressed_keys(2).contains(KeyCode::Space));
    assert!(!ctx.pressed_keys(2).contains(KeyCode::Up));
    assert_eq!((SHOOT_ODDS, FORWARD_ODDS), (50, 2));
}

#[test]
fn self_steering_tanks_roll_the_dice() {
    let mut forward = 0;
    let mut shots = 0;
    let rounds = 20_000;
    for _ in 0..rounds {
        let mut bot = npc(4, 2, ZERO, ZERO, ZERO, red(), (whole(1), whole(2)));
        let mut ctx = context(0, 4);
        update(&mut bot, &mut ctx, NpcSteering { retarget: Some((whole(9), whole(8))), turn: -1 });
        assert_eq!(bot.get_component::<NPC>().unwrap().get_target_point(), (whole(9), whole(8)));
        assert!(ctx.pressed_keys(2).contains(KeyCode::Left));
        assert!(!ctx.pressed_keys(2).contains(KeyCode::Right));
        if ctx.pressed_keys(2).contains(KeyCode::Up) {
            forward += 1;
        }
        if ctx.pressed_keys(2).contains(KeyCode::Space) {
            shots += 1;
        }
    }
    assert!(forward > rounds / 4 && forward < rounds * 3 / 4, "forward {}", forward);
    assert!(shots > 0 && shots < rounds / 10, "shots {}", shots);
}

#[test]
fn npc_system_steers_only_what_steers_itself() {
    let mut entities = vec![
        tank(1, 0),
        npc(4, 2, ZERO, ZERO, ZERO, red(), (whole(1), whole(2))),
        npc(5, 2, ZERO, ZERO, ZERO, red(), (whole(3), whole(4))),
    ];
    let mut ctx = context(0, 5);
    let steerings = vec![
        Some(NpcSteering { retarget: Some((whole(7), whole(7))), turn: -1 }),
        Some(NpcSteering { retarget: None, turn: 1 }),
    ];
    NpcSystem.update(&mut entities, &mut ctx, &steerings);
    assert!(!entities[0].has_component::<NPC>());
    assert_eq!(entities[1].get_component::<NPC>().unwrap().get_target_point(), (whole(1), whole(2)));
    assert_eq!(entities[2].get_component::<NPC>().unwrap().get_target_point(), (whole(3), whole(4)));
    assert!(ctx.pressed_keys(2).contains(KeyCode::Right));
    assert!(!ctx.pressed_keys(2).contains(KeyCode::Left));
    assert!(!ctx.pressed_keys(0).contains(KeyCode::Right));
    let mut idle = context(0, 5);
    NpcSystem.update(&mut entities, &mut idle, &vec![None, None, None]);
    for key in [KeyCode::Left, KeyCode::Right, KeyCode::Up, KeyCode::Space] {
        assert!(!idle.pressed_keys(2).contains(key));
    }
    let bot = &entities[1];
    assert_eq!(bot.get_component::<Health>().unwrap().get_health(), 50);
    assert_eq!(bot.get_component::<MeshType>(), Some(&MeshType::Tank));
    assert!(!bot.has_component::<DeathComponent>());
    assert!(!bot.has_component::<InventoryComponent>());
    assert_eq!(bot.get_component::<bool>(), Some(&false));
}

#[test]
fn prefabs_carry_their_components() {
    let tank = tank(1, 0);
    assert_eq!(tank.get_component::<Position>(), Some(&Position::new(whole(100), whole(200), whole(90))));
    assert_eq!(tank.get_component::<Velocity>(), Some(&Velocity::new(ZERO, ZERO)));
    assert_eq!(tank.get_component::<Health>(), Some(&Health::new(50, 50)));
    assert_eq!(tank.get_component::<MeshType>(), Some(&MeshType::Tank));
    assert_eq!(
        tank.get_component::<CollisionComponent>(),
        Some(&CollisionComponent::new_tank(1, CollisionScript::Player))
    );
    assert!(tank.has_component::<DeathComponent>());
    assert_eq!(tank.get_component::<InventoryComponent>(), Some(&InventoryComponent::empty()));
    assert_eq!(tank.get_component::<bool>(), Some(&false));
    assert!(!tank.has_component::<Scale>());

    let wall = wall(2, whole(1), whole(2), whole(3), whole(4), red());
    assert_eq!(wall.get_component::<Position>(), Some(&Position::new(whole(1), whole(2), ZERO)));
    assert_eq!(wall.get_component::<Scale>(), Some(&Scale::new(whole(3), whole(4))));
    assert_eq!(wall.get_component::<MeshType>(), Some(&MeshType::Wall));
    assert_eq!(
        wall.get_component::<CollisionComponent>().unwrap().get_collision_class(),
        CollisionClass::Wall(whole(3), whole(4))
    );

    let heal = heal_item(3, whole(5), whole(6));
    assert_eq!(heal.get_component::<MeshType>(), Some(&MeshType::Heal));
    assert_eq!(heal.get_component::<ColorComponent>().unwrap().get_color(), red());
    assert_eq!(
        heal.get_component::<PickUpComponent>(),
        Some(&PickUpComponent::new((MeshType::Heal, ItemUseScript::Heal)))
    );
    assert_eq!(
        heal.get_component::<CollisionComponent>().unwrap().get_collision_class(),
        CollisionClass::Item
    );
}

#[test]
fn entities_are_indexed_by_their_handles() {
    let mut entities = vec![tank(1, 0), Entity::new(7), tank(2, 1)];
    entities.push(bullet(9, 2, ZERO, ZERO, ZERO, BULLET_SPEED, red()));
    entities.push(bullet(1, 2, ZERO, ZERO, ZERO, BULLET_SPEED, red()));
    let indices = entity_indices_by_handle(&entities);
    assert_eq!(indices.len(), 3);
    assert_eq!(indices.get(&1), Some(&4));
    assert_eq!(indices.get(&2), Some(&2));
    assert_eq!(indices.get(&9), Some(&3));
    assert_eq!(indices.get(&7), None);
    for handle in [1u64, 2, 7, 9, 99] {
        assert_eq!(indices.get(&handle).copied(), index_of(&entities, handle));
    }
    assert!(entity_indices_by_handle(&Vec::new()).is_empty());
}

#[test]
fn the_sides_of_a_contact_may_come_in_either_order() {
    let bullets = 60u64;
    let mut entities = vec![tank(1, 0), tank(2, 1)];
    for handle in 0..bullets {
        entities.push(bullet(100 + handle, 2, ZERO, ZERO, ZERO, BULLET_SPEED, red()));
    }
    let contacts: Vec<(u64, u64)> = (0..bullets)
        .map(|handle| if handle % 2 == 0 { (1, 100 + handle) } else { (100 + handle, 1) })
        .collect();
    CollisionSystem.update(&mut entities, &contacts);
    assert_eq!(entities[0].get_component::<Health>().unwrap().get_health(), 0);
    assert!(entities[0].deleted());
    assert_eq!(entities[1].get_component::<Health>().unwrap().get_health(), 50);
    assert!(!entities[1].deleted());
    assert!(entities[2..].iter().all(|bullet| bullet.deleted()));

    // One contact does the same to both entities whichever side comes first.
    let mut one = vec![tank(1, 0), bullet(100, 2, ZERO, ZERO, ZERO, BULLET_SPEED, red())];
    let mut other = vec![tank(1, 0), bullet(100, 2, ZERO, ZERO, ZERO, BULLET_SPEED, red())];
    CollisionSystem.contact(&mut one, 1, 100);
    CollisionSystem.contact(&mut other, 100, 1);
    for (left, right) in one.iter().zip(other.iter()) {
        assert_eq!(left.deleted(), right.deleted());
        assert_eq!(
            left.get_component::<Health>().map(|health| health.get_health()),
            right.get_component::<Health>().map(|health| health.get_health())
        );
        assert_eq!(
            left.get_component::<Velocity>().map(|velocity| velocity.get_velocity()),
            right.get_component::<Velocity>().map(|velocity| velocity.get_velocity())
        );
    }
    assert_eq!(one[0].get_component::<Health>().unwrap().get_health(), 49);
    assert!(one[1].deleted());
}
