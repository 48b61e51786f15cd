use semtext::{
    focus_event, mouse_plan, mouse_result, Action, Area, Dim, Event, FocusEvent, Key, KeyMap,
    ModKeys, MouseButton, MouseEvent, Pos, Routed,
};

fn no_mods() -> ModKeys {
    ModKeys { shift: false, ctrl: false, alt: false }
}

#[test]
fn keymap_lookup_first_binding_wins() {
    let mut km = KeyMap::new();
    km.bind(Key::Char('q'), no_mods(), Action::Quit);
    km.bind(Key::Char('q'), no_mods(), Action::Custom(3));
    km.bind(Key::Char('r'), no_mods(), Action::Redraw);
    assert_eq!(km.lookup(Key::Char('q'), no_mods()), Some(Action::Quit));
    assert_eq!(km.lookup(Key::Char('r'), no_mods()), Some(Action::Redraw));
    assert_eq!(km.lookup(Key::Esc, no_mods()), Some(Action::Quit));
    let ctrl = ModKeys { shift: false, ctrl: true, alt: false };
    assert_eq!(km.lookup(Key::Char('q'), ctrl), None);
}

#[test]
fn route_resize_key_and_mouse() {
    let km = KeyMap::new();
    let mut dim = Dim::new(80, 24);
    let d = Dim::new(100, 40);
    assert_eq!(km.route(&mut dim, Event::Resize(d)), Routed::Act(Action::Resize(d)));
    assert_eq!(dim, d);
    assert_eq!(km.route(&mut dim, Event::Key(Key::Esc, no_mods())), Routed::Act(Action::Quit));
    assert_eq!(km.route(&mut dim, Event::Key(Key::Enter, no_mods())), Routed::Dropped);
    let mev = MouseEvent::ButtonDown(MouseButton::Left);
    let pos = Pos::new(3, 4);
    assert_eq!(km.route(&mut dim, Event::Mouse(mev, no_mods(), pos)), Routed::Mouse(mev, no_mods(), pos));
    assert_eq!(dim, d);
}

#[test]
fn mouse_plan_press_offers_focus_inside_only() {
    let areas = vec![Area::new(0, 0, 5, 5), Area::new(5, 0, 5, 5), Area::new(3, 3, 4, 4)];
    let plan = mouse_plan(MouseEvent::ButtonDown(MouseButton::Left), Pos::new(6, 4), &areas);
    assert_eq!(plan[0].focus, Some(FocusEvent::Take));
    assert_eq!(plan[0].at, None);
    assert_eq!(plan[1].focus, Some(FocusEvent::Offer));
    assert_eq!(plan[1].at, Some(Pos::new(1, 4)));
    assert_eq!(plan[2].focus, Some(FocusEvent::Offer));
    assert_eq!(plan[2].at, Some(Pos::new(3, 1)));
}

#[test]
fn mouse_plan_release_and_drag() {
    let areas = vec![Area::new(0, 0, 2, 2), Area::new(2, 0, 2, 2)];
    let up = mouse_plan(MouseEvent::ButtonUp(MouseButton::Left), Pos::new(0, 1), &areas);
    assert_eq!(up[0].focus, Some(FocusEvent::HoverInside));
    assert_eq!(up[1].focus, Some(FocusEvent::HoverOutside));
    let drag = mouse_plan(MouseEvent::Drag(Some(MouseButton::Left)), Pos::new(0, 1), &areas);
    assert_eq!(drag[0].focus, Some(FocusEvent::HoverInside));
    assert_eq!(drag[0].at, Some(Pos::new(0, 1)));
    assert_eq!(drag[1].focus, Some(FocusEvent::HoverOutside));
    let scroll = mouse_plan(MouseEvent::ScrollUp, Pos::new(9, 9), &areas);
    assert_eq!(scroll[0].focus, None);
    assert_eq!(scroll[1].at, None);
    assert_eq!(focus_event(MouseEvent::Drag(None), true), Some(FocusEvent::HoverInside));
}

#[test]
fn mouse_result_prefers_mouse_actions() {
    let mouse = vec![None, Some(Action::Custom(1)), Some(Action::Quit)];
    let focus = vec![Some(Action::Redraw), None, None];
    assert_eq!(mouse_result(&mouse, &focus), Some(Action::Custom(1)));
    assert_eq!(mouse_result(&vec![None, None], &focus), Some(Action::Redraw));
    assert_eq!(mouse_result(&vec![], &vec![None]), None);
}
