//! Button widget: a label that can be pressed, with a state machine driven by
//! focus and mouse events.
use vstd::prelude::*;
use crate::area::{Dim, Pos};
use crate::input::{Action, FocusEvent, ModKeys, MouseEvent};
use crate::label::Label;
use crate::layout::AreaBound;
use crate::text::{Appearance, TextStyle, Theme};
use crate::widget::{Border, BorderHeight, BorderStyle, Widget};
use crate::area::Edge;
use crate::label::{label_bound, text_width};

verus! {

/// Button state
#[derive(Clone, Copy, Debug, PartialEq, Eq, Structural)]
pub enum ButtonState {
    /// Button disabled
    Disabled,
    /// Button enabled
    Enabled,
    /// Button hovered
    Hovered,
    /// Button focused
    Focused,
    /// Button pressed
    Pressed,
}

/// The state a focus event moves a button to, if it changes
pub open spec fn focus_next(fev: FocusEvent, state: ButtonState) -> Option<ButtonState> {
    match (fev, state) {
        (FocusEvent::Offer, ButtonState::Enabled) => Some(ButtonState::Focused),
        (FocusEvent::Take, ButtonState::Focused) => Some(ButtonState::Enabled),
        (FocusEvent::Take, ButtonState::Hovered) => Some(ButtonState::Enabled),
        (FocusEvent::Take, ButtonState::Pressed) => Some(ButtonState::Enabled),
        (FocusEvent::HoverInside, ButtonState::Enabled) => Some(ButtonState::Hovered),
        (FocusEvent::HoverOutside, ButtonState::Pressed) => Some(ButtonState::Focused),
        (FocusEvent::HoverOutside, ButtonState::Hovered) => Some(ButtonState::Enabled),
        _ => None,
    }
}

/// The state a mouse event moves a button to, if it changes
pub open spec fn mouse_next(mev: MouseEvent, state: ButtonState) -> Option<ButtonState> {
    match (mev, state) {
        (_, ButtonState::Disabled) => None,
        (MouseEvent::ButtonDown(_), ButtonState::Pressed) => None,
        (MouseEvent::ButtonDown(_), _) => Some(ButtonState::Pressed),
        (MouseEvent::ButtonUp(_), ButtonState::Pressed) => Some(ButtonState::Focused),
        _ => None,
    }
}

/// Look of a button's border in a state
pub open spec fn border_of(state: ButtonState) -> BorderStyle {
    match state {
        ButtonState::Disabled => BorderStyle::Empty,
        ButtonState::Pressed => BorderStyle::Bevel(BorderHeight::Lowered),
        _ => BorderStyle::Bevel(BorderHeight::Raised),
    }
}

/// Button widget
pub struct Button {
    lbl: Label,
    state: ButtonState,
}

impl Button {
    /// Create a new, enabled button widget
    pub fn new(txt: &str) -> (r: Button)
        ensures
            r.state_of() == ButtonState::Enabled,
            r.text() == txt@,
    {
        let lbl = Label::new(txt);
        Button { lbl, state: ButtonState::Enabled }
    }

    /// The button's state
    pub closed spec fn state_of(&self) -> ButtonState {
        self.state
    }

    /// Get the button's state
    pub fn state(&self) -> (r: ButtonState)
        ensures
            r == self.state_of(),
    {
        self.state
    }

    /// The button's text
    pub closed spec fn text(&self) -> Seq<char> {
        self.lbl.text()
    }

    /// Disable the button
    pub fn disable(&mut self)
        ensures
            final(self).state_of() == ButtonState::Disabled,
            final(self).text() == old(self).text(),
    {
        self.state = ButtonState::Disabled;
    }

    /// Enable the button, if it is disabled
    pub fn enable(&mut self)
        ensures
            final(self).state_of() == if old(self).state_of() == ButtonState::Disabled {
                ButtonState::Enabled
            } else {
                old(self).state_of()
            },
            final(self).text() == old(self).text(),
    {
        if self.state == ButtonState::Disabled {
            self.state = ButtonState::Enabled;
        }
    }

    /// Get button style based on current state
    pub fn style(&self, theme: &Theme) -> (r: TextStyle)
        ensures
            r.appearance_spec() == Appearance::default_spec(),
            (r.background_spec(), r.foreground_spec()) == match self.state_of() {
                ButtonState::Disabled => (theme.background, theme.dark_shadow),
                ButtonState::Enabled => (theme.background, theme.foreground),
                ButtonState::Focused => (theme.secondary, theme.background),
                ButtonState::Hovered => (theme.background, theme.secondary),
                ButtonState::Pressed => (theme.tertiary, theme.background),
            },
    {
        let (bg, fg) = match self.state {
            ButtonState::Disabled => (theme.background, theme.dark_shadow),
            ButtonState::Enabled => (theme.background, theme.foreground),
            ButtonState::Focused => (theme.secondary, theme.background),
            ButtonState::Hovered => (theme.background, theme.secondary),
            ButtonState::Pressed => (theme.tertiary, theme.background),
        };
        TextStyle::default().with_background(bg).with_foreground(fg)
    }

    /// Handle a focus event: move to the next state, and ask for a redraw
    /// when the state changed
    pub fn handle_focus(&mut self, fev: FocusEvent) -> (r: Option<Action>)
        ensures
            final(self).state_of() == match focus_next(fev, old(self).state_of()) {
                Some(s) => s,
                None => old(self).state_of(),
            },
            r == if focus_next(fev, old(self).state_of()) is Some {
                Some(Action::Redraw)
            } else {
                None
            },
            final(self).text() == old(self).text(),
    {
        let next = match (fev, self.state) {
            (FocusEvent::Offer, ButtonState::Enabled) => Some(ButtonState::Focused),
            (FocusEvent::Take, ButtonState::Focused) => Some(ButtonState::Enabled),
            (FocusEvent::Take, ButtonState::Hovered) => Some(ButtonState::Enabled),
            (FocusEvent::Take, ButtonState::Pressed) => Some(ButtonState::Enabled),
            (FocusEvent::HoverInside, ButtonState::Enabled) => Some(ButtonState::Hovered),
            (FocusEvent::HoverOutside, ButtonState::Pressed) => Some(ButtonState::Focused),
            (FocusEvent::HoverOutside, ButtonState::Hovered) => Some(ButtonState::Enabled),
            _ => None,
        };
        match next {
            Some(s) => {
                self.state = s;
                Some(Action::Redraw)
            },
            None => None,
        }
    }

    /// Handle a mouse event: a press of an enabled button presses it, a
    /// release of a pressed one focuses it; a redraw is asked for when the
    /// state changed
    pub fn handle_mouse(&mut self, mev: MouseEvent) -> (r: Option<Action>)
        ensures
            final(self).state_of() == match mouse_next(mev, old(self).state_of()) {
                Some(s) => s,
                None => old(self).state_of(),
            },
            r == if mouse_next(mev, old(self).state_of()) is Some {
                Some(Action::Redraw)
            } else {
                None
            },
            final(self).text() == old(self).text(),
    {
        let next = match (mev, self.state) {
            (_, ButtonState::Disabled) => None,
            (MouseEvent::ButtonDown(_), ButtonState::Pressed) => None,
            (MouseEvent::ButtonDown(_), _) => Some(ButtonState::Pressed),
            (MouseEvent::ButtonUp(_), ButtonState::Pressed) => Some(ButtonState::Focused),
            _ => None,
        };
        match next {
            Some(s) => {
                self.state = s;
                Some(Action::Redraw)
            },
            None => None,
        }
    }

    /// Border style for the current state
    pub fn border_style(&self) -> (r: BorderStyle)
        ensures
            r == border_of(self.state_of()),
    {
        match self.state {
            ButtonState::Disabled => BorderStyle::Empty,
            ButtonState::Pressed => BorderStyle::Bevel(BorderHeight::Lowered),
            _ => BorderStyle::Bevel(BorderHeight::Raised),
        }
    }

    /// The button's label text
    pub fn txt(&self) -> (r: &str)
        ensures
            r@ == self.text(),
    {
        self.lbl.txt()
    }
}

impl Widget for Button {
    open spec fn bounds_post(&self, r: AreaBound) -> bool {
        r == label_bound(text_width(self.text()) as int)
    }

    open spec fn border_post(&self, r: Option<Border>) -> bool {
        r == Some(Border { edges: Edge::ALL, style: border_of(self.state_of()) })
    }

    open spec fn focus_post(&self, fev: FocusEvent, after: &Self, r: Option<Action>) -> bool {
        &&& after.state_of() == match focus_next(fev, self.state_of()) {
            Some(s) => s,
            None => self.state_of(),
        }
        &&& r == if focus_next(fev, self.state_of()) is Some {
            Some(Action::Redraw)
        } else {
            None
        }
        &&& after.text() == self.text()
    }

    open spec fn mouse_post(&self, mev: MouseEvent, after: &Self, r: Option<Action>) -> bool {
        &&& after.state_of() == match mouse_next(mev, self.state_of()) {
            Some(s) => s,
            None => self.state_of(),
        }
        &&& r == if mouse_next(mev, self.state_of()) is Some {
            Some(Action::Redraw)
        } else {
            None
        }
        &&& after.text() == self.text()
    }

    /// The bounds of the button's label
    fn bounds(&self) -> (r: AreaBound) {
        self.lbl.text_bounds()
    }

    /// A border on all edges, whose look follows the state
    fn border(&self) -> (r: Option<Border>) {
        Some(Border { edges: Edge::ALL, style: self.border_style() })
    }

    /// Move to the next state, asking for a redraw when it changed
    fn focus(&mut self, fev: FocusEvent) -> (r: Option<Action>) {
        self.handle_focus(fev)
    }

    /// Move to the next state, asking for a redraw when it changed
    fn mouse_event(&mut self, mev: MouseEvent, mods: ModKeys, dim: Dim, pos: Pos) -> (r: Option<Action>) {
        self.handle_mouse(mev)
    }
}

} // verus!
