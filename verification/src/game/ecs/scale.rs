//! How large an entity is drawn.

use crate::game::ecs::Entity;
use crate::game::server::{ContextView, ServerContext};
use crate::misc::scalar::{differs, spec_same_number, Scalar, ONE};
use crate::misc::typeset::TypeSet;
use crate::net::event::Event;
use vstd::prelude::*;

verus! {

/// Width and height, with a record of whether they changed since the change
/// was last reported.
#[derive(Clone, Copy, Debug, PartialEq)]
pub struct Scale {
    pub width: Scalar,
    pub height: Scalar,
    pub has_changed: bool,
}

impl Scale {
    /// A new scale counts as changed, so that it is reported once.
    pub fn new(width: Scalar, height: Scalar) -> (scale: Self)
        ensures
            scale == (Scale { width, height, has_changed: true }),
    {
        Scale { width, height, has_changed: true }
    }

    pub fn get_width(&self) -> (width: Scalar)
        ensures
            width == self.width,
    {
        self.width
    }

    /// Stores the width, and records a change if it is another number than
    /// the one stored before.
    pub fn set_width(&mut self, new_width: Scalar)
        ensures
            *final(self) == (Scale {
                width: new_width,
                has_changed: old(self).has_changed || !spec_same_number(new_width, old(self).width),
                ..*old(self)
            }),
    {
        if differs(new_width, self.width) {
            self.has_changed = true;
        }
        self.width = new_width;
    }

    pub fn get_height(&self) -> (height: Scalar)
        ensures
            height == self.height,
    {
        self.height
    }

    /// Stores the height, and records a change if it is another number than
    /// the one stored before.
    pub fn set_height(&mut self, new_height: Scalar)
        ensures
            *final(self) == (Scale {
                height: new_height,
                has_changed: old(self).has_changed || !spec_same_number(
                    new_height,
                    old(self).height,
                ),
                ..*old(self)
            }),
    {
        if differs(new_height, self.height) {
            self.has_changed = true;
        }
        self.height = new_height;
    }
}

impl Default for Scale {
    /// One by one, counted as changed.
    fn default() -> (scale: Self)
        ensures
            scale == (Scale { width: ONE, height: ONE, has_changed: true }),
    {
        Scale { width: ONE, height: ONE, has_changed: true }
    }
}

/// Tells the clients about every change in size.
pub struct ScaleSystem;

/// What the system reports of one entity: its size, if that
/// changed.
pub open spec fn spec_scale_report(entity: Entity) -> Seq<Event> {
    match entity.components.scale {
        Some(scale) if scale.has_changed => seq![Event::Dimension(entity.handle, scale.width, scale.height)],
        _ => Seq::empty(),
    }
}

/// What the system reports of a list of entities, in their order.
pub open spec fn spec_scale_reports(entities: Seq<Entity>) -> Seq<Event>
    decreases entities.len(),
{
    if entities.len() == 0 {
        Seq::empty()
    } else {
        spec_scale_reports(entities.drop_last()) + spec_scale_report(entities.last())
    }
}

/// An entity once the system has seen it: the change is no longer on
/// record.
pub open spec fn spec_scale_settled(entity: Entity) -> Entity {
    match entity.components.scale {
        Some(scale) => Entity {
            components: TypeSet {
                scale: Some(Scale { has_changed: false, ..scale }),
                ..entity.components
            },
            ..entity
        },
        None => entity,
    }
}

impl ScaleSystem {
    /// Queues a `Dimension` event for every entity whose size changed, in
    /// the order of the entities, and clears the record of the change.
    pub fn update(&mut self, entities: &mut Vec<Entity>, ctx: &mut ServerContext)
        ensures
            final(entities).len() == old(entities).len(),
            forall|i: int|
                0 <= i < old(entities).len() ==> #[trigger] final(entities)[i]
                    == spec_scale_settled(old(entities)[i]),
            final(ctx)@ == (ContextView {
                events: old(ctx)@.events + spec_scale_reports(old(entities)@),
                ..old(ctx)@
            }),
    {
        let count = entities.len();
        let mut i: usize = 0;
        assert(old(ctx)@.events + spec_scale_reports(old(entities)@.take(0)) =~= old(ctx)@.events);
        while i < count
            invariant
                i <= count,
                count == entities.len(),
                count == old(entities).len(),
                forall|j: int|
                    0 <= j < i ==> #[trigger] entities[j] == spec_scale_settled(old(entities)[j]),
                forall|j: int| i <= j < count ==> #[trigger] entities[j] == old(entities)[j],
                ctx@ == (ContextView {
                    events: old(ctx)@.events + spec_scale_reports(old(entities)@.take(i as int)),
                    ..old(ctx)@
                }),
            decreases count - i,
        {
            let handle = entities[i].get_handle();
            let ghost before = ctx@.events;
            proof {
                assert(old(entities)@.take(i + 1).drop_last() =~= old(entities)@.take(i as int));
            }
            if let Some(scale) = entities[i].get_component_mut::<Scale>() {
                if scale.has_changed {
                    ctx.push_event(Event::Dimension(handle, scale.width, scale.height));
                    scale.has_changed = false;
                }
            }
            proof {
                assert(ctx@.events =~= before + spec_scale_report(old(entities)[i as int]));
                assert(ctx@.events =~= old(ctx)@.events + spec_scale_reports(
                    old(entities)@.take(i + 1),
                ));
            }
            i += 1;
        }
        assert(old(entities)@.take(count as int) =~= old(entities)@);
    }
}

} // verus!
