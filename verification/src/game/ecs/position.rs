//! Where an entity is and which way it faces.

use crate::game::ecs::Entity;
use crate::game::server::{ContextView, ServerContext};
use crate::misc::scalar::{differs, spec_same_number, Scalar};
use crate::misc::typeset::TypeSet;
use crate::net::event::Event;
use vstd::prelude::*;

verus! {

/// Coordinates and facing angle, with a record of whether they changed
/// since the change was last reported.
#[derive(Clone, Copy, Debug, PartialEq)]
pub struct Position {
    pub x: Scalar,
    pub y: Scalar,
    /// Facing angle in degrees.
    pub angle: Scalar,
    pub has_changed: bool,
}

impl Position {
    /// The position after `set_x`.
    pub open spec fn with_x(self, x: Scalar) -> Position {
        Position { x, has_changed: self.has_changed || !spec_same_number(self.x, x), ..self }
    }

    /// The position after `set_y`.
    pub open spec fn with_y(self, y: Scalar) -> Position {
        Position { y, has_changed: self.has_changed || !spec_same_number(self.y, y), ..self }
    }

    /// The position after `set_angle`.
    pub open spec fn with_angle(self, angle: Scalar) -> Position {
        Position {
            angle,
            has_changed: self.has_changed || !spec_same_number(self.angle, angle),
            ..self
        }
    }

    /// A new position counts as changed, so that it is reported once.
    pub fn new(x: Scalar, y: Scalar, angle: Scalar) -> (position: Self)
        ensures
            position == (Position { x, y, angle, has_changed: true }),
    {
        Position { x, y, angle, has_changed: true }
    }

    pub fn get_x(&self) -> (x: Scalar)
        ensures
            x == self.x,
    {
        self.x
    }

    pub fn get_y(&self) -> (y: Scalar)
        ensures
            y == self.y,
    {
        self.y
    }

    pub fn get_angle(&self) -> (angle: Scalar)
        ensures
            angle == self.angle,
    {
        self.angle
    }

    /// Stores `x`, and records a change if `x` is another number than the
    /// one stored before.
    pub fn set_x(&mut self, x: Scalar)
        ensures
            *final(self) == old(self).with_x(x),
    {
        if !self.has_changed && differs(self.x, x) {
            self.has_changed = true;
        }
        self.x = x;
    }

    /// Stores `y`, and records a change if `y` is another number than the
    /// one stored before.
    pub fn set_y(&mut self, y: Scalar)
        ensures
            *final(self) == old(self).with_y(y),
    {
        if !self.has_changed && differs(self.y, y) {
            self.has_changed = true;
        }
        self.y = y;
    }

    /// Stores `angle`, and records a change if `angle` is another number
    /// than the one stored before.
    pub fn set_angle(&mut self, angle: Scalar)
        ensures
            *final(self) == old(self).with_angle(angle),
    {
        if !self.has_changed && differs(self.angle, angle) {
            self.has_changed = true;
        }
        self.angle = angle;
    }

    /// Whether the position may have changed since this function was last
    /// called. Resets the record.
    pub fn has_changed_since_last(&mut self) -> (had_changed: bool)
        ensures
            had_changed == old(self).has_changed,
            *final(self) == (Position { has_changed: false, ..*old(self) }),
    {
        let had_changed = self.has_changed;
        self.has_changed = false;
        had_changed
    }
}

/// Tells the clients about every change in position.
pub struct PositionWatcherSystem;

/// What the system reports of one entity: where it is, if that
/// changed.
pub open spec fn spec_position_report(entity: Entity) -> Seq<Event> {
    match entity.components.position {
        Some(position) if position.has_changed => seq![Event::Movement(entity.handle, position.x, position.y, position.angle)],
        _ => Seq::empty(),
    }
}

/// What the system reports of a list of entities, in their order.
pub open spec fn spec_position_reports(entities: Seq<Entity>) -> Seq<Event>
    decreases entities.len(),
{
    if entities.len() == 0 {
        Seq::empty()
    } else {
        spec_position_reports(entities.drop_last()) + spec_position_report(entities.last())
    }
}

/// An entity once the system has seen it: the change is no longer on
/// record.
pub open spec fn spec_position_settled(entity: Entity) -> Entity {
    match entity.components.position {
        Some(position) => Entity {
            components: TypeSet {
                position: Some(Position { has_changed: false, ..position }),
                ..entity.components
            },
            ..entity
        },
        None => entity,
    }
}

impl PositionWatcherSystem {
    /// Queues a `Movement` event for every entity whose position changed,
    /// in the order of the entities, and clears the record of the change.
    pub fn update(&mut self, entities: &mut Vec<Entity>, ctx: &mut ServerContext)
        ensures
            final(entities).len() == old(entities).len(),
            forall|i: int|
                0 <= i < old(entities).len() ==> #[trigger] final(entities)[i]
                    == spec_position_settled(old(entities)[i]),
            final(ctx)@ == (ContextView {
                events: old(ctx)@.events + spec_position_reports(old(entities)@),
                ..old(ctx)@
            }),
    {
        let count = entities.len();
        let mut i: usize = 0;
        assert(old(ctx)@.events + spec_position_reports(old(entities)@.take(0)) =~= old(ctx)@.events);
        while i < count
            invariant
                i <= count,
                count == entities.len(),
                count == old(entities).len(),
                forall|j: int|
                    0 <= j < i ==> #[trigger] entities[j] == spec_position_settled(old(entities)[j]),
                forall|j: int| i <= j < count ==> #[trigger] entities[j] == old(entities)[j],
                ctx@ == (ContextView {
                    events: old(ctx)@.events + spec_position_reports(old(entities)@.take(i as int)),
                    ..old(ctx)@
                }),
            decreases count - i,
        {
            let handle = entities[i].get_handle();
            let ghost before = ctx@.events;
            proof {
                assert(old(entities)@.take(i + 1).drop_last() =~= old(entities)@.take(i as int));
            }
            if let Some(position) = entities[i].get_component_mut::<Position>() {
                if position.has_changed_since_last() {
                    ctx.push_event(
                        Event::Movement(
                            handle,
                            position.get_x(),
                            position.get_y(),
                            position.get_angle(),
                        ),
                    );
                }
            }
            proof {
                assert(ctx@.events =~= before + spec_position_report(old(entities)[i as int]));
                assert(ctx@.events =~= old(ctx)@.events + spec_position_reports(
                    old(entities)@.take(i + 1),
                ));
            }
            i += 1;
        }
        assert(old(entities)@.take(count as int) =~= old(entities)@);
    }
}

} // verus!
