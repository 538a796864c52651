use netgame::game::ecs::{
    CollisionClass, CollisionComponent, CollisionScript, ColorComponent, ControlComponent,
    ControlScript, DeathComponent, DeathScript, Entity, Health, InventoryComponent, ItemUseScript,
    PickUpComponent, Position, Scale, TimeToLive, Velocity, NPC,
};
use netgame::game::graphics::{black, mesh_at, mesh_index, white, Color, MeshType, MESH_COUNT};
use netgame::game::keyboard::{KeyCode, KeySet};
use netgame::misc::scalar::{whole, ONE};
use netgame::misc::state::State;
use netgame::misc::typeset::TypeSet;

#[test]
fn type_set_holds_one_value_of_each_type() {
    let mut set = TypeSet::new();
    assert!(!set.contains::<Health>());
    assert!(set.get::<Health>().is_none());
    assert!(set.get_mut::<Health>().is_none());
    assert!(set.remove::<Health>().is_none());
    set.insert(Health::new(3, 5));
    set.insert(true);
    set.insert(MeshType::Wall);
    assert!(set.contains::<Health>());
    assert!(set.contains::<bool>());
    assert!(!set.contains::<Position>());
    assert_eq!(set.get::<Health>(), Some(&Health::new(3, 5)));
    set.insert(Health::new(4, 5));
    assert_eq!(set.get::<Health>().unwrap().get_health(), 4);
    assert_eq!(set.get::<bool>(), Some(&true));
    assert_eq!(set.get::<MeshType>(), Some(&MeshType::Wall));
    set.get_mut::<Health>().unwrap().set_health(1);
    assert_eq!(set.get::<Health>().unwrap().get_health(), 1);
    assert_eq!(set.remove::<Health>().map(|h| h.get_health()), Some(1));
    assert!(!set.contains::<Health>());
    assert!(set.contains::<bool>());
    set.clear();
    assert!(!set.contains::<bool>());
    assert!(!set.contains::<MeshType>());
}

#[test]
fn type_set_keeps_every_component_type_apart() {
    let mut set = TypeSet::new();
    set.insert(Position::new(1, 2, 3));
    set.insert(Velocity::new(4, 5));
    set.insert(Health::new(6, 7));
    set.insert(ColorComponent::new(8, 9, 10, 11));
    set.insert(Scale::new(12, 13));
    set.insert(CollisionComponent::new_item(14, CollisionScript::PickUp));
    set.insert(TimeToLive::new(15));
    set.insert(InventoryComponent::empty());
    set.insert(PickUpComponent::new((MeshType::Heal, ItemUseScript::Heal)));
    set.insert(ControlComponent::new(1, ControlScript::Player));
    set.insert(DeathComponent::new(DeathScript::Player));
    set.insert(NPC::new((16, 17)));
    set.insert(MeshType::Bullet);
    set.insert(false);
    assert_eq!(set.get::<Position>().unwrap().get_angle(), 3);
    assert_eq!(set.get::<Velocity>().unwrap().get_angular_velocity(), 5);
    assert_eq!(set.get::<Health>().unwrap().get_health(), 6);
    assert_eq!(set.get::<ColorComponent>().unwrap().get_alpha(), 11);
    assert_eq!(set.get::<Scale>().unwrap().get_height(), 13);
    assert_eq!(set.get::<CollisionComponent>().unwrap().id(), 14);
    assert_eq!(set.get::<TimeToLive>(), Some(&TimeToLive(15)));
    assert!(!set.get::<InventoryComponent>().unwrap().has_item());
    assert_eq!(
        set.get::<PickUpComponent>().unwrap().get_item(),
        (MeshType::Heal, ItemUseScript::Heal)
    );
    assert_eq!(set.get::<ControlComponent>().unwrap().get_input_device_index(), 1);
    assert_eq!(set.get::<DeathComponent>().unwrap().script, DeathScript::Player);
    assert_eq!(set.get::<NPC>().unwrap().get_target_point(), (16, 17));
    assert_eq!(set.get::<MeshType>(), Some(&MeshType::Bullet));
    assert_eq!(set.get::<bool>(), Some(&false));
    assert!(set.remove::<Scale>().is_some());
    assert!(set.get::<Scale>().is_none());
    assert!(set.get::<Position>().is_some());
}

#[test]
fn entity_wraps_a_type_set() {
    let mut entity = Entity::new(7);
    assert_eq!(entity.get_handle(), 7);
    assert!(!entity.deleted());
    assert!(!entity.has_component::<Health>());
    assert!(entity.get_component::<Health>().is_none());
    assert!(entity.get_component_mut::<Health>().is_none());
    entity.put_component(Health::new(50, 50));
    assert!(entity.has_component::<Health>());
    entity.get_component_mut::<Health>().unwrap().set_health(49);
    assert_eq!(entity.get_component::<Health>().unwrap().get_health(), 49);
    entity.put_component(Health::new(2, 50));
    assert_eq!(entity.get_component::<Health>().unwrap().get_health(), 2);
    entity.delete();
    assert!(entity.deleted());
    let moved = entity.change_handle(9);
    assert_eq!(moved.get_handle(), 9);
    assert!(moved.deleted());
    assert_eq!(moved.get_component::<Health>().unwrap().get_health(), 2);
    let copy = moved.clone();
    assert_eq!(copy.get_handle(), 9);
    assert!(copy.deleted());
}

#[test]
fn health_tracks_changes_and_respects_its_bound() {
    let mut health = Health::new(50, 50);
    assert!(health.has_changed);
    assert_eq!(health.get_health(), 50);
    health.has_changed = false;
    health.set_health(50);
    assert!(!health.has_changed);
    health.set_health(51);
    assert_eq!(health.get_health(), 50);
    assert!(!health.has_changed);
    health.set_health(0);
    assert_eq!(health.get_health(), 0);
    assert!(health.has_changed);
}

#[test]
fn position_tracks_changes_by_number_not_by_bits() {
    let mut position = Position::new(whole(1), whole(2), whole(3));
    assert!(position.has_changed_since_last());
    assert!(!position.has_changed_since_last());
    position.set_x(whole(1));
    position.set_y(whole(2));
    position.set_angle(whole(3));
    assert!(!position.has_changed_since_last());
    position.set_y(whole(5));
    assert_eq!(position.get_y(), 5.0f32.to_bits());
    assert!(position.has_changed_since_last());
    position.set_x(0.0f32.to_bits());
    assert!(position.has_changed_since_last());
    position.set_x((-0.0f32).to_bits());
    assert_eq!(position.get_x(), (-0.0f32).to_bits());
    assert!(!position.has_changed_since_last());
    position.set_angle(f32::NAN.to_bits());
    assert!(position.has_changed_since_last());
    position.set_angle(f32::NAN.to_bits());
    assert!(position.has_changed_since_last());
}

#[test]
fn scale_and_color_track_changes() {
    let mut scale = Scale::default();
    assert_eq!(scale.get_width(), ONE);
    assert_eq!(scale.get_height(), 1.0f32.to_bits());
    assert!(scale.has_changed);
    scale.has_changed = false;
    scale.set_width(ONE);
    scale.set_height(ONE);
    assert!(!scale.has_changed);
    scale.set_height(whole(4));
    assert!(scale.has_changed);
    assert_eq!(scale.get_height(), 4.0f32.to_bits());
    assert_eq!(Scale::new(3, 4).get_width(), 3);

    let mut color = ColorComponent::from_color(Color::new(1, 2, 3, 4));
    assert_eq!(color.get_color(), Color::new(1, 2, 3, 4));
    assert_eq!(
        (color.get_red(), color.get_green(), color.get_blue(), color.get_alpha()),
        (1, 2, 3, 4)
    );
    assert_eq!(color.get_rgba(), (1, 2, 3, 3));
    color.has_changed = false;
    color.set_red(1);
    color.set_green(2);
    color.set_blue(3);
    color.set_alpha(4);
    assert!(!color.has_changed);
    color.set_alpha(5);
    assert!(color.has_changed);
    assert_eq!(color.get_alpha(), 5);
    assert_eq!(white(), Color::new(255, 255, 255, 255));
    assert_eq!(black(), Color::new(0, 0, 0, 255));
}

#[test]
fn velocity_stores_what_it_is_given() {
    let mut velocity = Velocity::new(1, 2);
    velocity.set_velocity(3);
    velocity.set_angular_velocity(4);
    assert_eq!(velocity.get_velocity(), 3);
    assert_eq!(velocity.get_angular_velocity(), 4);
}

#[test]
fn inventory_holds_one_item() {
    let mut inventory = InventoryComponent::empty();
    assert!(!inventory.has_item());
    assert!(inventory.has_changed);
    inventory.has_changed = false;
    assert_eq!(inventory.remove_item(), None);
    assert!(!inventory.has_changed);
    inventory.put_item((MeshType::Heal, ItemUseScript::Heal));
    assert!(inventory.has_item());
    assert!(inventory.has_changed);
    inventory.has_changed = false;
    assert_eq!(inventory.remove_item(), Some((MeshType::Heal, ItemUseScript::Heal)));
    assert!(inventory.has_changed);
    assert!(!inventory.has_item());
}

#[test]
fn state_records_mutable_access() {
    let mut state = State::new(5);
    assert!(!state.invalidated());
    assert_eq!(*state.deref(), 5);
    assert!(!state.invalidated());
    assert!(!state.invalidated_since());
    *state.deref_mut() = 6;
    assert!(state.invalidated());
    assert!(state.invalidated_since());
    assert!(!state.invalidated());
    assert_eq!(*state.deref(), 6);
    let _ = state.deref_mut();
    assert!(state.invalidated());
}

#[test]
fn key_set_is_a_set() {
    let mut keys = KeySet::new();
    assert!(!keys.contains(KeyCode::Up));
    assert!(keys.insert(KeyCode::Up));
    assert!(!keys.insert(KeyCode::Up));
    assert!(keys.insert(KeyCode::Cut));
    assert!(keys.contains(KeyCode::Up));
    assert!(keys.contains(KeyCode::Cut));
    assert!(!keys.contains(KeyCode::Down));
    let copy = keys.clone();
    assert!(keys.remove(KeyCode::Up));
    assert!(!keys.remove(KeyCode::Up));
    assert!(!keys.remove(KeyCode::Key1));
    assert!(!keys.contains(KeyCode::Up));
    assert!(copy.contains(KeyCode::Up));
    keys.clear();
    assert!(!keys.contains(KeyCode::Cut));
}

#[test]
fn collision_classes_interact_by_the_rules() {
    let tank1 = CollisionComponent::new_tank(1, CollisionScript::Player);
    let tank2 = CollisionComponent::new_tank(2, CollisionScript::Player);
    let bullet1 = CollisionComponent::new_bullet(10, 1, CollisionScript::Bullet);
    let bullet2 = CollisionComponent::new_bullet(11, 2, CollisionScript::Bullet);
    let other_bullet1 = CollisionComponent::new_bullet(12, 1, CollisionScript::Bullet);
    let wall1 = CollisionComponent::new_wall(20, CollisionScript::Wall, whole(10), whole(20));
    let wall2 = CollisionComponent::new_wall(21, CollisionScript::Wall, whole(30), whole(40));
    let item = CollisionComponent::new_item(30, CollisionScript::PickUp);
    assert!(!bullet1.can_interact(&tank1));
    assert!(!tank1.can_interact(&bullet1));
    assert!(bullet1.can_interact(&tank2));
    assert!(tank2.can_interact(&bullet1));
    assert!(bullet2.can_interact(&tank1));
    assert!(!wall1.can_interact(&wall2));
    assert!(!wall1.can_interact(&wall1));
    assert!(wall1.can_interact(&tank1));
    assert!(tank1.can_interact(&wall1));
    assert!(wall1.can_interact(&bullet1));
    assert!(tank1.can_interact(&tank2));
    assert!(!tank1.can_interact(&tank1));
    assert!(bullet1.can_interact(&bullet2));
    assert!(!bullet1.can_interact(&other_bullet1));
    for other in [tank1, tank2, bullet1, wall1, item] {
        assert!(item.can_interact(&other));
        assert!(other.can_interact(&item));
    }
    assert!(wall1.get_collision_class().is_wall());
    assert!(!item.get_collision_class().is_wall());
    assert_eq!(bullet1.get_collision_class(), CollisionClass::Bullet(1));
    assert_eq!(tank2.id(), 2);
}

#[test]
fn mesh_types_have_a_canonical_ordering() {
    assert_eq!(MESH_COUNT, 6);
    assert_eq!(MeshType::default(), MeshType::Default);
    for index in 0..MESH_COUNT {
        assert_eq!(mesh_index(mesh_at(index).unwrap()), index);
    }
    assert_eq!(mesh_at(6), None);
    assert_eq!(mesh_index(MeshType::Heal), 4);
}
