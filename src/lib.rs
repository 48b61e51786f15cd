//! A text user interface toolkit: rectangle algebra for character grids, a
//! grid template of widget placements, a size negotiating layout solver, and
//! the rules that route input to widgets and actions.

mod area;
mod button;
mod grid;
mod input;
mod label;
mod layout;
mod solve;
mod text;
mod widget;

pub use crate::area::{Area, Dim, Edge, Pos, LIMIT};
pub use crate::button::{Button, ButtonState};
pub use crate::grid::{GridTemplate, Span, TemplateError, FILLER};
pub use crate::input::{
    mouse_plan, mouse_result, focus_event, Action, Binding, Delivery, Event, FocusEvent, Key,
    KeyMap, ModKeys, MouseButton, MouseEvent, Routed,
};
pub use crate::label::{bound_for_width, fit_lines, is_plain, Label};
pub use crate::layout::{AreaBound, LengthBound, UNBOUNDED};
pub use crate::solve::solve_axis;
pub use crate::text::{Appearance, Attributes, Color, Intensity, TextStyle, Theme, Weight};
pub use crate::widget::{view_area, Border, BorderHeight, BorderStyle, Widget};
