//! Input events, the actions they lead to, and the rules that route them:
//! key lookup, resizing, and the focus and mouse events each widget receives.
use vstd::prelude::*;
use crate::area::{Area, Dim, Pos};

verus! {

/// Modifier keys held during an event
#[derive(Clone, Copy, Debug, PartialEq, Eq, Structural)]
pub struct ModKeys {
    pub shift: bool,
    pub ctrl: bool,
    pub alt: bool,
}

/// A mouse button
#[derive(Clone, Copy, Debug, PartialEq, Eq, Structural)]
pub enum MouseButton {
    Left,
    Right,
    Middle,
}

/// A mouse event
#[derive(Clone, Copy, Debug, PartialEq, Eq, Structural)]
pub enum MouseEvent {
    /// A button was pressed
    ButtonDown(MouseButton),
    /// A button was released
    ButtonUp(MouseButton),
    /// The pointer moved, with the button held if any
    Drag(Option<MouseButton>),
    /// The wheel turned up
    ScrollUp,
    /// The wheel turned down
    ScrollDown,
}

/// A focus change offered to a widget
#[derive(Clone, Copy, Debug, PartialEq, Eq, Structural)]
pub enum FocusEvent {
    /// The widget was pressed and may take the focus
    Offer,
    /// Something else was pressed: the widget loses the focus
    Take,
    /// The pointer is over the widget
    HoverInside,
    /// The pointer is not over the widget
    HoverOutside,
}

/// The result of handling input
#[derive(Clone, Copy, Debug, PartialEq, Eq, Structural)]
pub enum Action {
    /// Draw the widgets again
    Redraw,
    /// The screen has new dimensions
    Resize(Dim),
    /// Leave the application
    Quit,
    /// An action of the application's own
    Custom(u32),
}

/// A key
#[derive(Clone, Copy, Debug, PartialEq, Eq, Structural)]
pub enum Key {
    Char(char),
    Enter,
    Esc,
    Tab,
    Backspace,
    Up,
    Down,
    Left,
    Right,
    Function(u8),
}

/// An input event
#[derive(Clone, Copy, Debug, PartialEq, Eq, Structural)]
pub enum Event {
    /// The screen was resized
    Resize(Dim),
    /// A key was pressed
    Key(Key, ModKeys),
    /// The mouse did something at a screen position
    Mouse(MouseEvent, ModKeys, Pos),
}

/// An event after routing
#[derive(Clone, Copy, Debug, PartialEq, Eq, Structural)]
pub enum Routed {
    /// The event gives this action
    Act(Action),
    /// The event gives nothing
    Dropped,
    /// The event goes to the widgets
    Mouse(MouseEvent, ModKeys, Pos),
}

/// One key binding
#[derive(Clone, Copy, Debug, PartialEq, Eq, Structural)]
pub struct Binding {
    pub key: Key,
    pub mods: ModKeys,
    pub action: Action,
}

/// Key / action map
#[derive(Clone, Debug)]
pub struct KeyMap {
    /// Bindings; the first one that matches applies
    pub bindings: Vec<Binding>,
}

/// The action of the first binding of `key` with `mods` among the first `k` bindings
pub open spec fn lookup_spec(bindings: Seq<Binding>, key: Key, mods: ModKeys, k: int) -> Option<Action>
    decreases k,
{
    if k <= 0 {
        None
    } else {
        match lookup_spec(bindings, key, mods, k - 1) {
            Some(a) => Some(a),
            None => if bindings[k - 1].key == key && bindings[k - 1].mods == mods {
                Some(bindings[k - 1].action)
            } else {
                None
            },
        }
    }
}

impl KeyMap {
    /// An empty key map, with the Escape key bound to quitting
    pub fn new() -> (r: KeyMap)
        ensures
            r.bindings@ == seq![
                Binding {
                    key: Key::Esc,
                    mods: ModKeys { shift: false, ctrl: false, alt: false },
                    action: Action::Quit,
                },
            ],
    {
        let mut bindings: Vec<Binding> = Vec::new();
        bindings.push(
            Binding {
                key: Key::Esc,
                mods: ModKeys { shift: false, ctrl: false, alt: false },
                action: Action::Quit,
            },
        );
        assert(bindings@ =~= seq![
            Binding {
                key: Key::Esc,
                mods: ModKeys { shift: false, ctrl: false, alt: false },
                action: Action::Quit,
            },
        ]);
        KeyMap { bindings }
    }

    /// Bind a key to an action; an earlier binding of the same key keeps precedence
    pub fn bind(&mut self, key: Key, mods: ModKeys, action: Action)
        ensures
            final(self).bindings@ == old(self).bindings@.push(Binding { key, mods, action }),
    {
        self.bindings.push(Binding { key, mods, action });
    }

    /// Look up the action bound to a key
    pub fn lookup(&self, key: Key, mods: ModKeys) -> (r: Option<Action>)
        ensures
            r == lookup_spec(self.bindings@, key, mods, self.bindings@.len() as int),
    {
        let mut k: usize = 0;
        while k < self.bindings.len()
            invariant
                k <= self.bindings@.len(),
                lookup_spec(self.bindings@, key, mods, k as int) is None,
            decreases self.bindings@.len() - k,
        {
            let b = self.bindings[k];
            if b.key == key && b.mods == mods {
                proof {
                    lemma_lookup_found(self.bindings@, key, mods, k as int + 1, self.bindings@.len() as int);
                }
                return Some(b.action);
            }
            k = k + 1;
        }
        None
    }

    /// Route an event: a resize updates the screen dimensions and gives a
    /// resize action, a key gives its bound action or nothing, and a mouse
    /// event goes to the widgets
    pub fn route(&self, dim: &mut Dim, ev: Event) -> (r: Routed)
        ensures
            match ev {
                Event::Resize(d) => *final(dim) == d && r == Routed::Act(Action::Resize(d)),
                Event::Key(key, mods) => *final(dim) == *old(dim) && r == match lookup_spec(
                    self.bindings@,
                    key,
                    mods,
                    self.bindings@.len() as int,
                ) {
                    Some(a) => Routed::Act(a),
                    None => Routed::Dropped,
                },
                Event::Mouse(mev, mods, pos) => *final(dim) == *old(dim) && r == Routed::Mouse(
                    mev,
                    mods,
                    pos,
                ),
            },
    {
        match ev {
            Event::Resize(d) => {
                *dim = d;
                Routed::Act(Action::Resize(d))
            },
            Event::Key(key, mods) => match self.lookup(key, mods) {
                Some(a) => Routed::Act(a),
                None => Routed::Dropped,
            },
            Event::Mouse(mev, mods, pos) => Routed::Mouse(mev, mods, pos),
        }
    }
}

/// Once a binding is found, later bindings do not change the lookup
proof fn lemma_lookup_found(bindings: Seq<Binding>, key: Key, mods: ModKeys, j: int, k: int)
    requires
        1 <= j <= k,
        lookup_spec(bindings, key, mods, j - 1) is None,
        bindings[j - 1].key == key && bindings[j - 1].mods == mods,
    ensures
        lookup_spec(bindings, key, mods, k) == Some(bindings[j - 1].action),
    decreases k,
{
    if k > j {
        lemma_lookup_found(bindings, key, mods, j, k - 1);
    }
}

/// The focus event a widget receives for a mouse event, inside its area or
/// not: a press offers or takes the focus, a release or a drag hovers inside
/// or outside, and the wheel gives none
pub open spec fn focus_for(mev: MouseEvent, inside: bool) -> Option<FocusEvent> {
    match mev {
        MouseEvent::ButtonDown(_) => if inside { Some(FocusEvent::Offer) } else { Some(FocusEvent::Take) },
        MouseEvent::ButtonUp(_) => if inside {
            Some(FocusEvent::HoverInside)
        } else {
            Some(FocusEvent::HoverOutside)
        },
        MouseEvent::Drag(_) => if inside {
            Some(FocusEvent::HoverInside)
        } else {
            Some(FocusEvent::HoverOutside)
        },
        _ => None,
    }
}

/// What one widget receives for a mouse event
#[derive(Clone, Copy, Debug, PartialEq, Eq, Structural)]
pub struct Delivery {
    /// Focus event for the widget, if any
    pub focus: Option<FocusEvent>,
    /// Position of the pointer within the widget, when the widget receives the mouse event
    pub at: Option<Pos>,
}

/// The focus event for a mouse event, inside a widget's area or not
pub fn focus_event(mev: MouseEvent, inside: bool) -> (r: Option<FocusEvent>)
    ensures
        r == focus_for(mev, inside),
{
    match mev {
        MouseEvent::ButtonDown(_) => if inside {
            Some(FocusEvent::Offer)
        } else {
            Some(FocusEvent::Take)
        },
        MouseEvent::ButtonUp(_) => if inside {
            Some(FocusEvent::HoverInside)
        } else {
            Some(FocusEvent::HoverOutside)
        },
        MouseEvent::Drag(_) => if inside {
            Some(FocusEvent::HoverInside)
        } else {
            Some(FocusEvent::HoverOutside)
        },
        _ => None,
    }
}

/// Plan the delivery of a mouse event at `pos` to widgets placed on `areas`,
/// in order: every widget gets the focus event for the pointer being inside
/// its area or not, and only the widgets whose area holds the pointer get
/// the mouse event, with the pointer's position within the area
pub fn mouse_plan(mev: MouseEvent, pos: Pos, areas: &Vec<Area>) -> (r: Vec<Delivery>)
    requires
        forall|i: int| 0 <= i < areas@.len() ==> (#[trigger] areas@[i]).wf(),
    ensures
        r@.len() == areas@.len(),
        forall|i: int|
            0 <= i < r@.len() ==> (#[trigger] r@[i]).focus == focus_for(
                mev,
                areas@[i].holds(pos.col as int, pos.row as int),
            ),
        forall|i: int|
            0 <= i < r@.len() ==> ((#[trigger] r@[i]).at is Some <==> areas@[i].holds(
                pos.col as int,
                pos.row as int,
            )),
        forall|i: int|
            0 <= i < r@.len() && (#[trigger] r@[i]).at is Some ==> r@[i].at == Some(
                Pos { col: (pos.col - areas@[i].col) as u16, row: (pos.row - areas@[i].row) as u16 },
            ),
        forall|i: int|
            0 <= i < r@.len() && !areas@[i].holds(pos.col as int, pos.row as int) && !(mev is ScrollUp
                || mev is ScrollDown) ==> (#[trigger] r@[i]).focus == Some(FocusEvent::Take) || r@[i].focus
                == Some(FocusEvent::HoverOutside),
        forall|i: int|
            0 <= i < r@.len() && areas@[i].holds(pos.col as int, pos.row as int) && !(mev is ScrollUp
                || mev is ScrollDown) ==> (#[trigger] r@[i]).focus == Some(FocusEvent::Offer) || r@[i].focus
                == Some(FocusEvent::HoverInside),
{
    let mut r: Vec<Delivery> = Vec::new();
    let mut i: usize = 0;
    while i < areas.len()
        invariant
            i <= areas@.len(),
            r@.len() == i,
            forall|k: int| 0 <= k < areas@.len() ==> (#[trigger] areas@[k]).wf(),
            forall|k: int|
                0 <= k < i ==> (#[trigger] r@[k]).focus == focus_for(
                    mev,
                    areas@[k].holds(pos.col as int, pos.row as int),
                ),
            forall|k: int|
                0 <= k < i ==> ((#[trigger] r@[k]).at is Some <==> areas@[k].holds(
                    pos.col as int,
                    pos.row as int,
                )),
            forall|k: int|
                0 <= k < i && (#[trigger] r@[k]).at is Some ==> r@[k].at == Some(
                    Pos { col: (pos.col - areas@[k].col) as u16, row: (pos.row - areas@[k].row) as u16 },
                ),
        decreases areas@.len() - i,
    {
        let area = areas[i];
        let at = area.within(pos);
        let focus = focus_event(mev, at.is_some());
        r.push(Delivery { focus, at });
        i = i + 1;
    }
    r
}

/// The first action that is not `None` among the first `k`
pub open spec fn first_action(acts: Seq<Option<Action>>, k: int) -> Option<Action>
    decreases k,
{
    if k <= 0 {
        None
    } else {
        match first_action(acts, k - 1) {
            Some(a) => Some(a),
            None => acts[k - 1],
        }
    }
}

fn first_of(acts: &Vec<Option<Action>>) -> (r: Option<Action>)
    ensures
        r == first_action(acts@, acts@.len() as int),
{
    let mut k: usize = 0;
    while k < acts.len()
        invariant
            k <= acts@.len(),
            first_action(acts@, k as int) is None,
        decreases acts@.len() - k,
    {
        if let Some(a) = acts[k] {
            proof {
                lemma_first_found(acts@, k as int + 1, acts@.len() as int);
            }
            return Some(a);
        }
        k = k + 1;
    }
    None
}

proof fn lemma_first_found(acts: Seq<Option<Action>>, j: int, k: int)
    requires
        1 <= j <= k,
        first_action(acts, j - 1) is None,
        acts[j - 1] is Some,
    ensures
        first_action(acts, k) == acts[j - 1],
    decreases k,
{
    if k > j {
        lemma_first_found(acts, j, k - 1);
    }
}

/// The action of a mouse event: the first one that a widget gave for the
/// mouse event itself, else the first one a widget gave for its focus event
pub fn mouse_result(mouse: &Vec<Option<Action>>, focus: &Vec<Option<Action>>) -> (r: Option<Action>)
    ensures
        r == match first_action(mouse@, mouse@.len() as int) {
            Some(a) => Some(a),
            None => first_action(focus@, focus@.len() as int),
        },
{
    match first_of(mouse) {
        Some(a) => Some(a),
        None => first_of(focus),
    }
}

} // verus!
