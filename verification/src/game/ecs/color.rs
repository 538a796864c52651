//! The color an entity is drawn in.

use crate::game::ecs::Entity;
use crate::game::graphics::Color;
use crate::game::server::{ContextView, ServerContext};
use crate::misc::typeset::TypeSet;
use crate::net::event::Event;
use vstd::prelude::*;

verus! {

/// A color, with a record of whether it changed since the change was last
/// reported.
#[derive(Clone, Copy, Debug, PartialEq, Eq)]
pub struct ColorComponent {
    pub red: u8,
    pub green: u8,
    pub blue: u8,
    pub alpha: u8,
    pub has_changed: bool,
}

impl ColorComponent {
    /// A new color counts as changed, so that it is reported once.
    pub fn new(red: u8, green: u8, blue: u8, alpha: u8) -> (color: Self)
        ensures
            color == (ColorComponent { red, green, blue, alpha, has_changed: true }),
    {
        ColorComponent { red, green, blue, alpha, has_changed: true }
    }

    pub fn from_color(color: Color) -> (component: Self)
        ensures
            component == (ColorComponent {
                red: color.r,
                green: color.g,
                blue: color.b,
                alpha: color.a,
                has_changed: true,
            }),
    {
        Self::new(color.r, color.g, color.b, color.a)
    }

    /// The color as a value of its own.
    pub open spec fn color(&self) -> Color {
        Color { r: self.red, g: self.green, b: self.blue, a: self.alpha }
    }

    pub fn get_color(&self) -> (color: Color)
        ensures
            color == self.color(),
    {
        Color::new(self.red, self.green, self.blue, self.alpha)
    }

    pub fn get_red(&self) -> (red: u8)
        ensures
            red == self.red,
    {
        self.red
    }

    pub fn get_green(&self) -> (green: u8)
        ensures
            green == self.green,
    {
        self.green
    }

    pub fn get_blue(&self) -> (blue: u8)
        ensures
            blue == self.blue,
    {
        self.blue
    }

    pub fn get_alpha(&self) -> (alpha: u8)
        ensures
            alpha == self.alpha,
    {
        self.alpha
    }

    /// Red, green, blue, and blue once more in the fourth place.
    pub fn get_rgba(&self) -> (rgba: (u8, u8, u8, u8))
        ensures
            rgba == (self.red, self.green, self.blue, self.blue),
    {
        (self.red, self.green, self.blue, self.blue)
    }

    pub fn set_red(&mut self, red: u8)
        ensures
            *final(self) == (ColorComponent {
                red,
                has_changed: old(self).has_changed || red != old(self).red,
                ..*old(self)
            }),
    {
        if red != self.red {
            self.has_changed = true;
        }
        self.red = red;
    }

    pub fn set_green(&mut self, green: u8)
        ensures
            *final(self) == (ColorComponent {
                green,
                has_changed: old(self).has_changed || green != old(self).green,
                ..*old(self)
            }),
    {
        if green != self.green {
            self.has_changed = true;
        }
        self.green = green;
    }

    pub fn set_blue(&mut self, blue: u8)
        ensures
            *final(self) == (ColorComponent {
                blue,
                has_changed: old(self).has_changed || blue != old(self).blue,
                ..*old(self)
            }),
    {
        if blue != self.blue {
            self.has_changed = true;
        }
        self.blue = blue;
    }

    pub fn set_alpha(&mut self, alpha: u8)
        ensures
            *final(self) == (ColorComponent {
                alpha,
                has_changed: old(self).has_changed || alpha != old(self).alpha,
                ..*old(self)
            }),
    {
        if alpha != self.alpha {
            self.has_changed = true;
        }
        self.alpha = alpha;
    }
}

/// Tells the clients about every change in color.
pub struct ColorSystem;

/// What the system reports of one entity: its color, if that
/// changed.
pub open spec fn spec_color_report(entity: Entity) -> Seq<Event> {
    match entity.components.color {
        Some(color) if color.has_changed => seq![Event::Color(entity.handle, color.color())],
        _ => Seq::empty(),
    }
}

/// What the system reports of a list of entities, in their order.
pub open spec fn spec_color_reports(entities: Seq<Entity>) -> Seq<Event>
    decreases entities.len(),
{
    if entities.len() == 0 {
        Seq::empty()
    } else {
        spec_color_reports(entities.drop_last()) + spec_color_report(entities.last())
    }
}

/// An entity once the system has seen it: the change is no longer on
/// record.
pub open spec fn spec_color_settled(entity: Entity) -> Entity {
    match entity.components.color {
        Some(color) => Entity {
            components: TypeSet {
                color: Some(ColorComponent { has_changed: false, ..color }),
                ..entity.components
            },
            ..entity
        },
        None => entity,
    }
}

impl ColorSystem {
    /// Queues a `Color` event for every entity whose color changed, in the
    /// order of the entities, and clears the record of the change.
    pub fn update(&mut self, entities: &mut Vec<Entity>, ctx: &mut ServerContext)
        ensures
            final(entities).len() == old(entities).len(),
            forall|i: int|
                0 <= i < old(entities).len() ==> #[trigger] final(entities)[i]
                    == spec_color_settled(old(entities)[i]),
            final(ctx)@ == (ContextView {
                events: old(ctx)@.events + spec_color_reports(old(entities)@),
                ..old(ctx)@
            }),
    {
        let count = entities.len();
        let mut i: usize = 0;
        assert(old(ctx)@.events + spec_color_reports(old(entities)@.take(0)) =~= old(ctx)@.events);
        while i < count
            invariant
                i <= count,
                count == entities.len(),
                count == old(entities).len(),
                forall|j: int|
                    0 <= j < i ==> #[trigger] entities[j] == spec_color_settled(old(entities)[j]),
                forall|j: int| i <= j < count ==> #[trigger] entities[j] == old(entities)[j],
                ctx@ == (ContextView {
                    events: old(ctx)@.events + spec_color_reports(old(entities)@.take(i as int)),
                    ..old(ctx)@
                }),
            decreases count - i,
        {
            let handle = entities[i].get_handle();
            let ghost before = ctx@.events;
            proof {
                assert(old(entities)@.take(i + 1).drop_last() =~= old(entities)@.take(i as int));
            }
            if let Some(color) = entities[i].get_component_mut::<ColorComponent>() {
                if color.has_changed {
                    ctx.push_event(Event::Color(handle, color.get_color()));
                    color.has_changed = false;
                }
            }
            proof {
                assert(ctx@.events =~= before + spec_color_report(old(entities)[i as int]));
                assert(ctx@.events =~= old(ctx)@.events + spec_color_reports(
                    old(entities)@.take(i + 1),
                ));
            }
            i += 1;
        }
        assert(old(entities)@.take(count as int) =~= old(entities)@);
    }
}

} // verus!
