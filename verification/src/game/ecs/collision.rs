//! Which entities can run into each other, and what they do when they do.

use crate::game::ecs::Entity;
use crate::game::ecs::position::Position;
use crate::game::ecs::prefabs::bullet::{bullet_collision_script, spec_bullet_collision};
use crate::game::ecs::prefabs::items::{pickup_script, spec_pickup};
use crate::game::ecs::prefabs::player::{
    player_collision_script, spec_player_collision, spec_shot_at, spec_shot_at_times,
};
use crate::game::ecs::prefabs::wall::wall_collision_script;
use crate::game::ecs::velocity::Velocity;
use crate::misc::scalar::Scalar;
use crate::misc::typeset::TypeSet;
use crate::net::event::Handle;
use std::collections::HashMap;
use vstd::prelude::*;

verus! {

broadcast use vstd::std_specs::hash::group_hash_axioms;

/// What an entity is for the purposes of collision.
#[derive(Clone, Copy, Debug, PartialEq, Eq, Structural)]
pub enum CollisionClass {
    /// A tank, with its own handle.
    Tank(Handle),
    /// A bullet, with the handle of the tank that fired it.
    Bullet(Handle),
    /// A wall, with its width and height.
    Wall(Scalar, Scalar),
    /// Something that lies in the world to be picked up.
    Item,
}

impl CollisionClass {
    pub open spec fn spec_is_wall(&self) -> bool {
        *self is Wall
    }

    pub fn is_wall(&self) -> (r: bool)
        ensures
            r == self.spec_is_wall(),
    {
        match self {
            CollisionClass::Wall(..) => true,
            _ => false,
        }
    }

    /// The handle by which a tank or a bullet is told apart from others:
    /// a tank's own, a bullet's shooter's.
    pub open spec fn owner(&self) -> Handle {
        match *self {
            CollisionClass::Tank(handle) => handle,
            CollisionClass::Bullet(handle) => handle,
            _ => 0,
        }
    }
}

/// What an entity does when it runs into another.
#[derive(Clone, Copy, Debug, PartialEq, Eq, Structural)]
pub enum CollisionScript {
    /// The entity removes itself.
    Bullet,
    /// A bullet costs a health point, another tank half the speed, a wall
    /// all of it.
    Player,
    /// Nothing.
    Wall,
    /// The entity moves into the other's inventory, if that is empty.
    PickUp,
}

/// Makes an entity take part in collisions.
#[derive(Clone, Copy, Debug, PartialEq, Eq)]
pub struct CollisionComponent {
    pub handle: Handle,
    pub class: CollisionClass,
    pub script: CollisionScript,
}

/// Whether two classes may collide. Anything may collide with an item; tanks
/// and bullets with each other unless they have the same owner; walls with
/// tanks and bullets, but not with walls.
pub open spec fn spec_can_interact(me: CollisionClass, other: CollisionClass) -> bool {
    if me is Item || other is Item {
        true
    } else if !(me is Wall) && !(other is Wall) {
        me.owner() != other.owner()
    } else {
        !(me is Wall && other is Wall)
    }
}

impl CollisionComponent {
    pub fn new_tank(handle: Handle, script: CollisionScript) -> (component: Self)
        ensures
            component == (CollisionComponent { handle, class: CollisionClass::Tank(handle), script }),
    {
        CollisionComponent { handle, class: CollisionClass::Tank(handle), script }
    }

    pub fn new_bullet(handle: Handle, shooter_handle: Handle, script: CollisionScript) -> (component:
        Self)
        ensures
            component == (CollisionComponent {
                handle,
                class: CollisionClass::Bullet(shooter_handle),
                script,
            }),
    {
        CollisionComponent { handle, class: CollisionClass::Bullet(shooter_handle), script }
    }

    pub fn new_wall(handle: Handle, script: CollisionScript, width: Scalar, height: Scalar) -> (component:
        Self)
        ensures
            component == (CollisionComponent {
                handle,
                class: CollisionClass::Wall(width, height),
                script,
            }),
    {
        CollisionComponent { handle, class: CollisionClass::Wall(width, height), script }
    }

    pub fn new_item(handle: Handle, script: CollisionScript) -> (component: Self)
        ensures
            component == (CollisionComponent { handle, class: CollisionClass::Item, script }),
    {
        CollisionComponent { handle, class: CollisionClass::Item, script }
    }

    pub fn get_collision_class(&self) -> (class: CollisionClass)
        ensures
            class == self.class,
    {
        self.class
    }

    /// The identity under which the entity's hitbox is tracked.
    pub fn id(&self) -> (id: u64)
        ensures
            id == self.handle,
    {
        self.handle
    }

    /// Whether this entity and the other should be checked for collisions.
    pub fn can_interact(&self, other: &Self) -> (r: bool)
        ensures
            r == spec_can_interact(self.class, other.class),
    {
        let item_involved = match (self.class, other.class) {
            (CollisionClass::Item, _) => true,
            (_, CollisionClass::Item) => true,
            _ => false,
        };
        if item_involved {
            true
        } else if !self.class.is_wall() && !other.class.is_wall() {
            let my_handle = match self.class {
                CollisionClass::Tank(handle) => handle,
                CollisionClass::Bullet(handle) => handle,
                _ => 0,
            };
            let other_handle = match other.class {
                CollisionClass::Tank(handle) => handle,
                CollisionClass::Bullet(handle) => handle,
                _ => 0,
            };
            my_handle != other_handle
        } else {
            !(self.class.is_wall() && other.class.is_wall())
        }
    }
}

/// A bullet never collides with the tank that fired it.
pub proof fn lemma_bullet_spares_its_shooter(shooter: Handle)
    ensures
        !spec_can_interact(CollisionClass::Bullet(shooter), CollisionClass::Tank(shooter)),
        !spec_can_interact(CollisionClass::Tank(shooter), CollisionClass::Bullet(shooter)),
{
}

/// A bullet collides with every tank but the one that fired it.
pub proof fn lemma_bullet_hits_other_tanks(shooter: Handle, tank: Handle)
    requires
        shooter != tank,
    ensures
        spec_can_interact(CollisionClass::Bullet(shooter), CollisionClass::Tank(tank)),
        spec_can_interact(CollisionClass::Tank(tank), CollisionClass::Bullet(shooter)),
{
}

/// Two walls never collide.
pub proof fn lemma_walls_never_interact(a: CollisionClass, b: CollisionClass)
    requires
        a is Wall,
        b is Wall,
    ensures
        !spec_can_interact(a, b),
{
}

/// Whatever is paired with an item may collide with it.
pub proof fn lemma_items_always_interact(other: CollisionClass)
    ensures
        spec_can_interact(CollisionClass::Item, other),
        spec_can_interact(other, CollisionClass::Item),
{
}

/// Whether two classes may collide does not depend on their order.
pub proof fn lemma_can_interact_symmetric(a: CollisionClass, b: CollisionClass)
    ensures
        spec_can_interact(a, b) == spec_can_interact(b, a),
{
}

/// Diameter of a tank's hitbox: fifty units.
pub const TANK_DIAMETER: Scalar = 0x4248_0000;

/// Diameter of a bullet's hitbox: two and a half units.
pub const BULLET_DIAMETER: Scalar = 0x4020_0000;

/// Diameter of an item's hitbox: twenty-five units.
pub const ITEM_DIAMETER: Scalar = 0x41C8_0000;

/// The outline of a hitbox.
#[derive(Clone, Copy, Debug, PartialEq, Eq, Structural)]
pub enum Shape {
    /// A circle of the given diameter around the hitbox's position.
    Circle(Scalar),
    /// A rectangle of the given width and height whose corner with the
    /// smallest coordinates is the hitbox's position.
    Rect(Scalar, Scalar),
}

/// What an entity contributes to the detection of collisions in one tick:
/// who it is, its outline, where it is and how it moves.
#[derive(Clone, Copy, Debug, PartialEq)]
pub struct Hitbox {
    pub profile: CollisionComponent,
    pub shape: Shape,
    pub x: Scalar,
    pub y: Scalar,
    /// The direction of movement in degrees.
    pub angle: Scalar,
    /// The speed along `angle`, or nothing for an entity that stands still.
    pub velocity: Option<Scalar>,
}

/// The outline of a class.
pub open spec fn spec_shape(class: CollisionClass) -> Shape {
    match class {
        CollisionClass::Tank(_) => Shape::Circle(TANK_DIAMETER),
        CollisionClass::Bullet(_) => Shape::Circle(BULLET_DIAMETER),
        CollisionClass::Wall(width, height) => Shape::Rect(width, height),
        CollisionClass::Item => Shape::Circle(ITEM_DIAMETER),
    }
}

/// The hitbox of an entity with the given collision component, position and
/// velocity.
pub open spec fn spec_hitbox_from_class(
    profile: CollisionComponent,
    position: Position,
    velocity: Option<Velocity>,
) -> Hitbox {
    Hitbox {
        profile,
        shape: spec_shape(profile.class),
        x: position.x,
        y: position.y,
        angle: position.angle,
        velocity: match velocity {
            Some(velocity) => Some(velocity.velocity),
            None => None,
        },
    }
}

/// The hitbox of an entity with the given collision component, position and
/// velocity.
pub fn hitbox_from_class(
    profile: CollisionComponent,
    position: &Position,
    velocity: Option<&Velocity>,
) -> (hitbox: Hitbox)
    ensures
        hitbox == spec_hitbox_from_class(
            profile,
            *position,
            match velocity {
                Some(velocity) => Some(*velocity),
                None => None,
            },
        ),
{
    let shape = match profile.class {
        CollisionClass::Tank(_) => Shape::Circle(TANK_DIAMETER),
        CollisionClass::Bullet(_) => Shape::Circle(BULLET_DIAMETER),
        CollisionClass::Wall(width, height) => Shape::Rect(width, height),
        CollisionClass::Item => Shape::Circle(ITEM_DIAMETER),
    };
    Hitbox {
        profile,
        shape,
        x: position.get_x(),
        y: position.get_y(),
        angle: position.get_angle(),
        velocity: match velocity {
            Some(velocity) => Some(velocity.get_velocity()),
            None => None,
        },
    }
}

/// Whether the entity takes part in collisions under the given handle.
pub open spec fn spec_collides_as(entity: Entity, handle: Handle) -> bool {
    entity.components.collision.is_some() && entity.handle == handle
}

/// The index of the entity that takes part in collisions under `handle`: the
/// last one in the list, should there be several.
pub open spec fn spec_index_of(entities: Seq<Entity>, handle: Handle) -> Option<int>
    decreases entities.len(),
{
    if entities.len() == 0 {
        None
    } else if spec_collides_as(entities.last(), handle) {
        Some(entities.len() - 1)
    } else {
        spec_index_of(entities.drop_last(), handle)
    }
}

/// An index found by handle is an index of the list, and the entity there
/// takes part in collisions under the handle.
pub proof fn lemma_index_of(entities: Seq<Entity>, handle: Handle)
    ensures
        match spec_index_of(entities, handle) {
            Some(index) => 0 <= index < entities.len() && spec_collides_as(entities[index], handle),
            None => forall|i: int| 0 <= i < entities.len() ==> !spec_collides_as(entities[i], handle),
        },
    decreases entities.len(),
{
    if entities.len() > 0 && !spec_collides_as(entities.last(), handle) {
        let shorter = entities.drop_last();
        lemma_index_of(shorter, handle);
        match spec_index_of(shorter, handle) {
            Some(index) => {
                assert(shorter[index] == entities[index]);
            },
            None => {
                assert forall|i: int| 0 <= i < entities.len() implies !spec_collides_as(
                    entities[i],
                    handle,
                ) by {
                    if i < shorter.len() {
                        assert(shorter[i] == entities[i]);
                    }
                }
            },
        }
    }
}

/// An entity whose collision component carries the entity's own handle.
pub open spec fn spec_synced(entity: Entity) -> Entity {
    match entity.components.collision {
        Some(collision) => Entity {
            components: TypeSet {
                collision: Some(CollisionComponent { handle: entity.handle, ..collision }),
                ..entity.components
            },
            ..entity
        },
        None => entity,
    }
}

/// The hitbox that the entity at index `i` contributes, if any. An entity
/// contributes a hitbox if it has a collision component and a position, and
/// no later entity takes part in collisions under the same handle.
pub open spec fn spec_hitbox(entities: Seq<Entity>, i: int) -> Option<Hitbox> {
    let entity = entities[i];
    if entity.components.collision.is_some() && entity.components.position.is_some()
        && spec_index_of(entities, entity.handle) == Some(i) {
        Some(
            spec_hitbox_from_class(
                spec_synced(entity).components.collision.unwrap(),
                entity.components.position.unwrap(),
                entity.components.velocity,
            ),
        )
    } else {
        None
    }
}

/// The hitboxes that the first `count` entities contribute, in their order.
pub open spec fn spec_hitboxes(entities: Seq<Entity>, count: int) -> Seq<Hitbox>
    decreases count,
{
    if count <= 0 {
        Seq::empty()
    } else {
        match spec_hitbox(entities, count - 1) {
            Some(hitbox) => spec_hitboxes(entities, count - 1).push(hitbox),
            None => spec_hitboxes(entities, count - 1),
        }
    }
}

/// Whether the entity has what its collision script reads: an item that
/// lies in the world has a pick-up component.
pub open spec fn spec_well_built(entity: Entity) -> bool {
    match entity.components.collision {
        Some(collision) => collision.script == CollisionScript::PickUp
            ==> entity.components.pick_up.is_some(),
        None => true,
    }
}

/// Whether two entities have the same handle and the same components of
/// those that make an entity what it is: collision, pick-up, control and
/// death.
pub open spec fn spec_same_build(a: Entity, b: Entity) -> bool {
    &&& a.handle == b.handle
    &&& a.components.collision == b.components.collision
    &&& a.components.pick_up == b.components.pick_up
    &&& a.components.control == b.components.control
    &&& a.components.death == b.components.death
}

/// The entities after the one at index `me`, whose script is `script`, has
/// reacted to a collision with the one at index `other`.
pub open spec fn spec_collided(
    script: CollisionScript,
    entities: Seq<Entity>,
    me: int,
    other: int,
) -> Seq<Entity> {
    match script {
        CollisionScript::Bullet => spec_bullet_collision(entities, me),
        CollisionScript::Player => spec_player_collision(entities, me, other),
        CollisionScript::Wall => entities,
        CollisionScript::PickUp => spec_pickup(entities, me, other),
    }
}

/// The entities after both sides of a contact have reacted, the first side
/// first. Each side sees itself as `me`. A contact that names a handle under
/// which no entity takes part in collisions changes nothing.
pub open spec fn spec_contact(entities: Seq<Entity>, first: Handle, second: Handle) -> Seq<Entity> {
    match (spec_index_of(entities, first), spec_index_of(entities, second)) {
        (Some(a), Some(b)) => spec_collided(
            entities[b].components.collision.unwrap().script,
            spec_collided(entities[a].components.collision.unwrap().script, entities, a, b),
            b,
            a,
        ),
        _ => entities,
    }
}

/// The entities after a list of contacts, taken in order.
pub open spec fn spec_contacts(
    entities: Seq<Entity>,
    contacts: Seq<(Handle, Handle)>,
) -> Seq<Entity>
    decreases contacts.len(),
{
    if contacts.len() == 0 {
        entities
    } else {
        spec_contact(
            spec_contacts(entities, contacts.drop_last()),
            contacts.last().0,
            contacts.last().1,
        )
    }
}

/// A reaction to a collision changes neither the number of entities nor
/// what any entity is built of.
pub proof fn lemma_collided_keeps_build(
    script: CollisionScript,
    entities: Seq<Entity>,
    me: int,
    other: int,
)
    requires
        0 <= me < entities.len(),
        0 <= other < entities.len(),
    ensures
        spec_collided(script, entities, me, other).len() == entities.len(),
        forall|i: int|
            0 <= i < entities.len() ==> spec_same_build(
                entities[i],
                #[trigger] spec_collided(script, entities, me, other)[i],
            ),
{
}

/// A contact changes neither the number of entities nor what any entity is
/// built of.
pub proof fn lemma_contact_keeps_build(entities: Seq<Entity>, first: Handle, second: Handle)
    ensures
        spec_contact(entities, first, second).len() == entities.len(),
        forall|i: int|
            0 <= i < entities.len() ==> spec_same_build(
                entities[i],
                #[trigger] spec_contact(entities, first, second)[i],
            ),
{
    lemma_index_of(entities, first);
    lemma_index_of(entities, second);
    match (spec_index_of(entities, first), spec_index_of(entities, second)) {
        (Some(a), Some(b)) => {
            let script_a = entities[a].components.collision.unwrap().script;
            let script_b = entities[b].components.collision.unwrap().script;
            let middle = spec_collided(script_a, entities, a, b);
            lemma_collided_keeps_build(script_a, entities, a, b);
            lemma_collided_keeps_build(script_b, middle, b, a);
            assert forall|i: int| 0 <= i < entities.len() implies spec_same_build(
                entities[i],
                #[trigger] spec_contact(entities, first, second)[i],
            ) by {
                assert(spec_same_build(entities[i], middle[i]));
                assert(spec_same_build(middle[i], spec_collided(script_b, middle, b, a)[i]));
            }
        },
        _ => {},
    }
}

/// A list of contacts changes neither the number of entities nor what any
/// entity is built of.
pub proof fn lemma_contacts_keep_build(entities: Seq<Entity>, contacts: Seq<(Handle, Handle)>)
    ensures
        spec_contacts(entities, contacts).len() == entities.len(),
        forall|i: int|
            0 <= i < entities.len() ==> spec_same_build(
                entities[i],
                #[trigger] spec_contacts(entities, contacts)[i],
            ),
    decreases contacts.len(),
{
    if contacts.len() > 0 {
        let before = spec_contacts(entities, contacts.drop_last());
        lemma_contacts_keep_build(entities, contacts.drop_last());
        lemma_contact_keeps_build(before, contacts.last().0, contacts.last().1);
        assert forall|i: int| 0 <= i < entities.len() implies spec_same_build(
            entities[i],
            #[trigger] spec_contacts(entities, contacts)[i],
        ) by {
            assert(spec_same_build(entities[i], before[i]));
            assert(spec_same_build(
                before[i],
                spec_contact(before, contacts.last().0, contacts.last().1)[i],
            ));
        }
    }
}

/// Runs the collision script `script` for the entity at index `me`, which
/// has run into the entity at index `other`.
pub fn run_collision_script(
    script: CollisionScript,
    me: usize,
    other: usize,
    entities: &mut Vec<Entity>,
)
    requires
        me < old(entities).len(),
        other < old(entities).len(),
        old(entities)[other as int].components.collision.is_some(),
        script == CollisionScript::PickUp ==> old(entities)[me as int].components.pick_up.is_some(),
    ensures
        final(entities)@ == spec_collided(script, old(entities)@, me as int, other as int),
{
    match script {
        CollisionScript::Bullet => bullet_collision_script(me, other, entities),
        CollisionScript::Player => player_collision_script(me, other, entities),
        CollisionScript::Wall => wall_collision_script(me, other, entities),
        CollisionScript::PickUp => pickup_script(me, other, entities),
    }
}

/// The index of the entity that takes part in collisions under `handle`.
pub fn index_of(entities: &Vec<Entity>, handle: Handle) -> (index: Option<usize>)
    ensures
        match index {
            Some(index) => spec_index_of(entities@, handle) == Some(index as int) && index
                < entities.len(),
            None => spec_index_of(entities@, handle).is_none(),
        },
{
    let mut i: usize = entities.len();
    assert(entities@.take(i as int) =~= entities@);
    while i > 0
        invariant
            i <= entities.len(),
            spec_index_of(entities@, handle) == spec_index_of(entities@.take(i as int), handle),
        decreases i,
    {
        i -= 1;
        proof {
            assert(entities@.take(i + 1).drop_last() =~= entities@.take(i as int));
        }
        if entities[i].has_component::<CollisionComponent>() && entities[i].get_handle() == handle {
            return Some(i);
        }
    }
    None
}

/// Whether a map from handles to indices says of every handle where the
/// entity stands that takes part in collisions under it, and holds no other
/// handle.
pub open spec fn spec_indexed(indices: Map<Handle, usize>, entities: Seq<Entity>) -> bool {
    forall|handle: Handle|
        #![trigger indices.contains_key(handle)]
        #![trigger spec_index_of(entities, handle)]
        match spec_index_of(entities, handle) {
            Some(index) => indices.contains_key(handle) && indices[handle] as int == index,
            None => !indices.contains_key(handle),
        }
}

/// The index of every entity that takes part in collisions, by its handle.
/// Of several entities under one handle the last is the one that counts.
pub fn entity_indices_by_handle(entities: &Vec<Entity>) -> (indices: HashMap<Handle, usize>)
    ensures
        spec_indexed(indices@, entities@),
{
    let mut indices: HashMap<Handle, usize> = HashMap::new();
    let mut i: usize = 0;
    while i < entities.len()
        invariant
            i <= entities.len(),
            spec_indexed(indices@, entities@.take(i as int)),
        decreases entities.len() - i,
    {
        let handle = entities[i].get_handle();
        let ghost before = indices@;
        let ghost earlier = entities@.take(i as int);
        let ghost upto = entities@.take(i + 1);
        if entities[i].has_component::<CollisionComponent>() {
            indices.insert(handle, i);
        }
        proof {
            assert(upto.drop_last() =~= earlier);
            assert(upto.last() == entities[i as int]);
            assert forall|other: Handle|
                #![trigger indices@.contains_key(other)]
                #![trigger spec_index_of(upto, other)]
                match spec_index_of(upto, other) {
                    Some(index) => indices@.contains_key(other) && indices@[other] as int == index,
                    None => !indices@.contains_key(other),
                } by {
                if spec_collides_as(entities[i as int], other) {
                    assert(other == handle);
                    assert(spec_index_of(upto, other) == Some(i as int));
                } else {
                    assert(spec_index_of(upto, other) == spec_index_of(earlier, other));
                    assert(before.contains_key(other) == spec_index_of(earlier, other).is_some());
                    if entities[i as int].components.collision.is_some() {
                        assert(other != handle);
                        assert(indices@.contains_key(other) == before.contains_key(other));
                    }
                }
            }
        }
        i += 1;
    }
    assert(entities@.take(entities@.len() as int) =~= entities@);
    indices
}

/// The entities after the two sides of a contact, which stand at the
/// indices `first` and `second`, have reacted, the first side first.
pub open spec fn spec_reacted(entities: Seq<Entity>, first: int, second: int) -> Seq<Entity> {
    spec_collided(
        entities[second].components.collision.unwrap().script,
        spec_collided(
            entities[first].components.collision.unwrap().script,
            entities,
            first,
            second,
        ),
        second,
        first,
    )
}

/// Lets the two sides of a contact react, the first side first.
fn react(entities: &mut Vec<Entity>, first: usize, second: usize)
    requires
        first < old(entities).len(),
        second < old(entities).len(),
        old(entities)[first as int].components.collision.is_some(),
        old(entities)[second as int].components.collision.is_some(),
        spec_well_built(old(entities)[first as int]),
        spec_well_built(old(entities)[second as int]),
    ensures
        final(entities)@ == spec_reacted(old(entities)@, first as int, second as int),
{
    let script_a = match entities[first].get_component::<CollisionComponent>() {
        Some(profile) => profile.script,
        None => CollisionScript::Wall,
    };
    let script_b = match entities[second].get_component::<CollisionComponent>() {
        Some(profile) => profile.script,
        None => CollisionScript::Wall,
    };
    run_collision_script(script_a, first, second, entities);
    proof {
        lemma_collided_keeps_build(script_a, old(entities)@, first as int, second as int);
        assert(spec_same_build(old(entities)[first as int], entities[first as int]));
        assert(spec_same_build(old(entities)[second as int], entities[second as int]));
    }
    run_collision_script(script_b, second, first, entities);
}

/// Finds the contacts between moving hitboxes and lets both sides of each
/// contact react.
///
/// Finding the contacts takes real arithmetic and is the host's part: it
/// gets the hitboxes of the tick from `hitboxes`, follows them over the
/// length of the tick, and hands the contacts it found, earliest first, to
/// `update`.
pub struct CollisionSystem;

impl CollisionSystem {
    /// Makes every collision component carry the handle of its entity, and
    /// returns the hitboxes of the tick in the order of the entities.
    pub fn hitboxes(&mut self, entities: &mut Vec<Entity>) -> (hitboxes: Vec<Hitbox>)
        ensures
            final(entities).len() == old(entities).len(),
            forall|i: int|
                0 <= i < old(entities).len() ==> #[trigger] final(entities)[i] == spec_synced(
                    old(entities)[i],
                ),
            hitboxes@ == spec_hitboxes(old(entities)@, old(entities).len() as int),
    {
        let count = entities.len();
        let entity_indices_by_handle = entity_indices_by_handle(entities);
        let mut hitboxes: Vec<Hitbox> = Vec::new();
        let mut i: usize = 0;
        while i < count
            invariant
                i <= count,
                count == entities.len(),
                entities@ == old(entities)@,
                spec_indexed(entity_indices_by_handle@, entities@),
                hitboxes@ == spec_hitboxes(old(entities)@, i as int),
            decreases count - i,
        {
            let handle = entities[i].get_handle();
            let latest = match entity_indices_by_handle.get(&handle) {
                Some(index) => *index == i,
                None => false,
            };
            assert(latest == (spec_index_of(entities@, handle) == Some(i as int)));
            if latest {
                let entity = &entities[i];
                match (entity.get_component::<CollisionComponent>(), entity.get_component::<Position>()) {
                    (Some(collision), Some(position)) => {
                        let profile = CollisionComponent {
                            handle,
                            class: collision.class,
                            script: collision.script,
                        };
                        hitboxes.push(
                            hitbox_from_class(profile, position, entity.get_component::<Velocity>()),
                        );
                    },
                    _ => {},
                }
            }
            i += 1;
        }
        let mut j: usize = 0;
        while j < count
            invariant
                j <= count,
                count == entities.len(),
                count == old(entities).len(),
                forall|k: int|
                    0 <= k < j ==> #[trigger] entities[k] == spec_synced(old(entities)[k]),
                forall|k: int| j <= k < count ==> #[trigger] entities[k] == old(entities)[k],
            decreases count - j,
        {
            let handle = entities[j].get_handle();
            if let Some(collision_comp) = entities[j].get_component_mut::<CollisionComponent>() {
                collision_comp.handle = handle;
            }
            j += 1;
        }
        hitboxes
    }

    /// Lets both sides of one contact react, the first side first.
    pub fn contact(&mut self, entities: &mut Vec<Entity>, first: Handle, second: Handle)
        requires
            forall|i: int|
                0 <= i < old(entities).len() ==> spec_well_built(#[trigger] old(entities)[i]),
        ensures
            final(entities)@ == spec_contact(old(entities)@, first, second),
            forall|i: int|
                0 <= i < final(entities).len() ==> spec_well_built(#[trigger] final(entities)[i]),
    {
        proof {
            lemma_contact_keeps_build(entities@, first, second);
            assert forall|i: int| 0 <= i < entities.len() implies spec_well_built(
                #[trigger] spec_contact(entities@, first, second)[i],
            ) by {
                assert(spec_well_built(entities[i]));
                assert(spec_same_build(entities[i], spec_contact(entities@, first, second)[i]));
            }
        }
        let found_first = index_of(entities, first);
        let found_second = index_of(entities, second);
        match (found_first, found_second) {
            (Some(a), Some(b)) => {
                proof {
                    lemma_index_of(entities@, first);
                    lemma_index_of(entities@, second);
                    assert(spec_well_built(entities[a as int]));
                    assert(spec_well_built(entities[b as int]));
                }
                react(entities, a, b);
            },
            _ => {},
        }
    }

    /// Lets both sides of every contact react, in the order of the contacts.
    /// A contact names the handles of its two sides.
    pub fn update(&mut self, entities: &mut Vec<Entity>, contacts: &Vec<(Handle, Handle)>)
        requires
            forall|i: int|
                0 <= i < old(entities).len() ==> spec_well_built(#[trigger] old(entities)[i]),
        ensures
            final(entities)@ == spec_contacts(old(entities)@, contacts@),
            final(entities).len() == old(entities).len(),
            forall|i: int|
                0 <= i < final(entities).len() ==> spec_well_built(#[trigger] final(entities)[i]),
    {
        let entity_indices_by_handle = entity_indices_by_handle(entities);
        let mut k: usize = 0;
        while k < contacts.len()
            invariant
                k <= contacts.len(),
                entities@ == spec_contacts(old(entities)@, contacts@.take(k as int)),
                entities.len() == old(entities).len(),
                spec_indexed(entity_indices_by_handle@, entities@),
                forall|i: int| 0 <= i < entities.len() ==> spec_well_built(#[trigger] entities[i]),
            decreases contacts.len() - k,
        {
            let (first, second) = contacts[k];
            let ghost before = entities@;
            proof {
                assert(contacts@.take(k + 1).drop_last() =~= contacts@.take(k as int));
                lemma_contact_keeps_build(before, first, second);
                lemma_index_of(before, first);
                lemma_index_of(before, second);
                assert(spec_index_of(before, first).is_some()
                    == entity_indices_by_handle@.contains_key(first));
                assert(spec_index_of(before, second).is_some()
                    == entity_indices_by_handle@.contains_key(second));
            }
            let found_first = match entity_indices_by_handle.get(&first) {
                Some(index) => Some(*index),
                None => None,
            };
            let found_second = match entity_indices_by_handle.get(&second) {
                Some(index) => Some(*index),
                None => None,
            };
            match (found_first, found_second) {
                (Some(entity_index1), Some(entity_index2)) => {
                    assert(spec_well_built(entities[entity_index1 as int]));
                    assert(spec_well_built(entities[entity_index2 as int]));
                    react(entities, entity_index1, entity_index2);
                },
                _ => {},
            }
            proof {
                assert(entities@ == spec_contact(before, first, second));
                assert forall|i: int| 0 <= i < entities.len() implies spec_well_built(
                    #[trigger] entities[i],
                ) by {
                    assert(spec_well_built(before[i]));
                    assert(spec_same_build(before[i], entities[i]));
                }
                assert forall|handle: Handle|
                    #![trigger entity_indices_by_handle@.contains_key(handle)]
                    #![trigger spec_index_of(entities@, handle)]
                    spec_index_of(entities@, handle) == spec_index_of(before, handle) by {
                    lemma_index_of_same_build(before, entities@, handle);
                }
            }
            k += 1;
        }
        assert(contacts@.take(contacts@.len() as int) =~= contacts@);
    }
}

/// When a bullet and a tank touch, the tank is hit once and the bullet is
/// marked for removal, whichever of the two the contact names first. Nothing
/// else in the world changes.
pub proof fn lemma_bullet_meets_tank(entities: Seq<Entity>, tank: int, bullet: int)
    requires
        0 <= tank < entities.len(),
        0 <= bullet < entities.len(),
        tank != bullet,
        spec_index_of(entities, entities[tank].handle) == Some(tank),
        spec_index_of(entities, entities[bullet].handle) == Some(bullet),
        entities[tank].components.collision.is_some(),
        entities[tank].components.collision.unwrap().script == CollisionScript::Player,
        entities[bullet].components.collision.is_some(),
        entities[bullet].components.collision.unwrap().script == CollisionScript::Bullet,
        entities[bullet].components.collision.unwrap().class is Bullet,
    ensures
        spec_contact(entities, entities[tank].handle, entities[bullet].handle) == entities.update(
            tank,
            spec_shot_at(entities[tank]),
        ).update(bullet, Entity { deleted: true, ..entities[bullet] }),
        spec_contact(entities, entities[bullet].handle, entities[tank].handle) == entities.update(
            tank,
            spec_shot_at(entities[tank]),
        ).update(bullet, Entity { deleted: true, ..entities[bullet] }),
{
    let wanted = entities.update(tank, spec_shot_at(entities[tank])).update(
        bullet,
        Entity { deleted: true, ..entities[bullet] },
    );
    assert(spec_contact(entities, entities[tank].handle, entities[bullet].handle) =~= wanted);
    assert(spec_contact(entities, entities[bullet].handle, entities[tank].handle) =~= wanted);
}

/// It makes no difference which side of a contact is named first: each side
/// changes only what is its own, or what the other side leaves alone.
pub proof fn lemma_contact_is_symmetric(entities: Seq<Entity>, first: Handle, second: Handle)
    ensures
        spec_contact(entities, first, second) == spec_contact(entities, second, first),
{
    lemma_index_of(entities, first);
    lemma_index_of(entities, second);
    assert(spec_contact(entities, first, second) =~= spec_contact(entities, second, first));
}

/// Looking an entity up by its handle gives the same index in two lists of
/// entities that are built alike, place by place.
pub proof fn lemma_index_of_same_build(a: Seq<Entity>, b: Seq<Entity>, handle: Handle)
    requires
        a.len() == b.len(),
        forall|i: int| 0 <= i < a.len() ==> spec_same_build(#[trigger] a[i], b[i]),
    ensures
        spec_index_of(a, handle) == spec_index_of(b, handle),
    decreases a.len(),
{
    if a.len() > 0 {
        assert(spec_same_build(a[a.len() - 1], b[a.len() - 1]));
        assert forall|i: int| 0 <= i < a.drop_last().len() implies spec_same_build(
            #[trigger] a.drop_last()[i],
            b.drop_last()[i],
        ) by {
            assert(spec_same_build(a[i], b[i]));
        }
        lemma_index_of_same_build(a.drop_last(), b.drop_last(), handle);
    }
}

/// Whether `contacts` are the contacts of one tank with a row of bullets, in
/// the order of the bullets. Each contact names the tank and the bullet by
/// their handles, either of them first.
pub open spec fn spec_bullet_contacts(
    entities: Seq<Entity>,
    tank: int,
    bullets: Seq<int>,
    contacts: Seq<(Handle, Handle)>,
) -> bool {
    &&& contacts.len() == bullets.len()
    &&& forall|k: int|
        0 <= k < bullets.len() ==> (#[trigger] contacts[k]) == (
            entities[tank].handle,
            entities[bullets[k]].handle,
        ) || contacts[k] == (entities[bullets[k]].handle, entities[tank].handle)
}

/// However many bullets touch a tank within one tick, the tank is hit once
/// by each, every bullet that touched it is marked for removal, and nothing
/// else in the world changes. With `lemma_health_clamps` this says that the
/// tank's health goes down to zero and no further, and that the tank is
/// marked for removal if and only if the bullets used up its health.
pub proof fn lemma_bullets_wear_down_a_tank(
    entities: Seq<Entity>,
    tank: int,
    bullets: Seq<int>,
    contacts: Seq<(Handle, Handle)>,
)
    requires
        0 <= tank < entities.len(),
        spec_index_of(entities, entities[tank].handle) == Some(tank),
        entities[tank].components.collision.is_some(),
        entities[tank].components.collision.unwrap().script == CollisionScript::Player,
        forall|k: int|
            0 <= k < bullets.len() ==> {
                let bullet = #[trigger] bullets[k];
                &&& 0 <= bullet < entities.len()
                &&& bullet != tank
                &&& spec_index_of(entities, entities[bullet].handle) == Some(bullet)
                &&& entities[bullet].components.collision.is_some()
                &&& entities[bullet].components.collision.unwrap().script == CollisionScript::Bullet
                &&& entities[bullet].components.collision.unwrap().class is Bullet
            },
        spec_bullet_contacts(entities, tank, bullets, contacts),
    ensures
        ({
            let after = spec_contacts(entities, contacts);
            &&& after.len() == entities.len()
            &&& after[tank] == spec_shot_at_times(entities[tank], bullets.len())
            &&& forall|k: int|
                0 <= k < bullets.len() ==> after[#[trigger] bullets[k]] == (Entity {
                    deleted: true,
                    ..entities[bullets[k]]
                })
            &&& forall|i: int|
                0 <= i < entities.len() && i != tank && !bullets.contains(i) ==> #[trigger] after[i]
                    == entities[i]
        }),
    decreases bullets.len(),
{
    if bullets.len() > 0 {
        let earlier = bullets.drop_last();
        let bullet = bullets.last();
        let sooner = contacts.drop_last();
        let before = spec_contacts(entities, sooner);
        assert(bullets[bullets.len() - 1] == bullet);
        assert forall|k: int| 0 <= k < earlier.len() implies {
            let b = #[trigger] earlier[k];
            &&& 0 <= b < entities.len()
            &&& b != tank
            &&& spec_index_of(entities, entities[b].handle) == Some(b)
            &&& entities[b].components.collision.is_some()
            &&& entities[b].components.collision.unwrap().script == CollisionScript::Bullet
            &&& entities[b].components.collision.unwrap().class is Bullet
        } by {
            assert(earlier[k] == bullets[k]);
        }
        assert(spec_bullet_contacts(entities, tank, earlier, sooner)) by {
            assert forall|k: int| 0 <= k < earlier.len() implies (#[trigger] sooner[k]) == (
                entities[tank].handle,
                entities[earlier[k]].handle,
            ) || sooner[k] == (entities[earlier[k]].handle, entities[tank].handle) by {
                assert(sooner[k] == contacts[k]);
                assert(earlier[k] == bullets[k]);
            }
        }
        lemma_bullets_wear_down_a_tank(entities, tank, earlier, sooner);
        let last = contacts[contacts.len() - 1];
        assert(contacts.last() == last);
        assert(last == (entities[tank].handle, entities[bullet].handle) || last == (
            entities[bullet].handle,
            entities[tank].handle,
        ));
        lemma_contacts_keep_build(entities, sooner);
        assert(spec_same_build(entities[tank], before[tank]));
        assert(spec_same_build(entities[bullet], before[bullet]));
        lemma_index_of_same_build(entities, before, entities[tank].handle);
        lemma_index_of_same_build(entities, before, entities[bullet].handle);
        lemma_bullet_meets_tank(before, tank, bullet);
        let after = spec_contacts(entities, contacts);
        assert(after == spec_contact(before, last.0, last.1));
        assert(after == before.update(tank, spec_shot_at(before[tank])).update(
            bullet,
            Entity { deleted: true, ..before[bullet] },
        ));
        assert forall|k: int| 0 <= k < bullets.len() implies after[#[trigger] bullets[k]] == (Entity {
            deleted: true,
            ..entities[bullets[k]]
        }) by {
            if k < earlier.len() {
                assert(earlier[k] == bullets[k]);
                assert(before[earlier[k]] == (Entity { deleted: true, ..entities[earlier[k]] }));
            }
            if !earlier.contains(bullet) {
                assert(before[bullet] == entities[bullet]);
            } else {
                let j = choose|j: int| 0 <= j < earlier.len() && earlier[j] == bullet;
                assert(before[earlier[j]] == (Entity { deleted: true, ..entities[earlier[j]] }));
            }
        }
        assert forall|i: int|
            0 <= i < entities.len() && i != tank && !bullets.contains(i) implies #[trigger] after[i]
            == entities[i] by {
            if earlier.contains(i) {
                let j = choose|j: int| 0 <= j < earlier.len() && earlier[j] == i;
                assert(bullets[j] == i);
            }
            assert(i != bullet);
        }
    } else {
        assert(contacts =~= Seq::<(Handle, Handle)>::empty());
    }
}

} // verus!
