//! What every widget offers: size bounds, a border, and the handling of
//! focus and mouse events, each with a condition its result meets.
use vstd::prelude::*;
use crate::area::{Area, Dim, Edge, Pos};
use crate::input::{Action, FocusEvent, ModKeys, MouseEvent};
use crate::layout::AreaBound;

verus! {

/// Height of a bevelled border
#[derive(Clone, Copy, Debug, PartialEq, Eq, Structural)]
pub enum BorderHeight {
    Raised,
    Lowered,
}

/// Look of a widget's border
#[derive(Clone, Copy, Debug, PartialEq, Eq, Structural)]
pub enum BorderStyle {
    /// Blank cells
    Empty,
    /// Lines that make the widget look raised or lowered
    Bevel(BorderHeight),
}

/// A decorative border: the edges it is drawn on, and its look
#[derive(Clone, Copy, Debug, PartialEq, Eq, Structural)]
pub struct Border {
    pub edges: Edge,
    pub style: BorderStyle,
}

/// A visual element placed on a grid.
///
/// Each method ensures the condition that the matching spec function states,
/// so a caller knows what an implementation does without knowing its type.
pub trait Widget {
    /// Condition on the size bounds of the widget
    spec fn bounds_post(&self, r: AreaBound) -> bool;

    /// Condition on the border of the widget
    spec fn border_post(&self, r: Option<Border>) -> bool;

    /// Condition on the widget after a focus event, and the action it gives
    spec fn focus_post(&self, fev: FocusEvent, after: &Self, r: Option<Action>) -> bool;

    /// Condition on the widget after a mouse event, and the action it gives
    spec fn mouse_post(&self, mev: MouseEvent, after: &Self, r: Option<Action>) -> bool;

    /// Acceptable widths and heights
    fn bounds(&self) -> (r: AreaBound)
        ensures
            self.bounds_post(r),
    ;

    /// Border drawn inside the widget's area, if any
    fn border(&self) -> (r: Option<Border>)
        ensures
            self.border_post(r),
    ;

    /// Handle a focus event
    fn focus(&mut self, fev: FocusEvent) -> (r: Option<Action>)
        ensures
            old(self).focus_post(fev, final(self), r),
    ;

    /// Handle a mouse event at a position within the widget's area of
    /// dimensions `dim`
    fn mouse_event(&mut self, mev: MouseEvent, mods: ModKeys, dim: Dim, pos: Pos) -> (r: Option<Action>)
        ensures
            old(self).mouse_post(mev, final(self), r),
    ;
}

/// The cells a widget draws on: its area clipped to the screen, inset by one
/// cell on each edge of its border; `None` when no cell is left
pub fn view_area(bbox: Area, area: Area, border: Option<Border>) -> (r: Option<Area>)
    requires
        bbox.wf(),
        area.wf(),
    ensures
        ({
            let clipped = bbox.clip_spec(area);
            let inner = match border {
                Some(b) => clipped.trim_spec(b.edges, 1),
                None => clipped,
            };
            r == if inner.dim.width == 0 || inner.dim.height == 0 { None } else { Some(inner) }
        }),
{
    let clipped = bbox.clip(area);
    let inner = match border {
        Some(b) => clipped.trim(b.edges, 1),
        None => clipped,
    };
    if inner.dim().is_empty() {
        None
    } else {
        Some(inner)
    }
}

} // verus!
