use semtext::{
    bound_for_width, view_area, Action, Appearance, Area, AreaBound, Border, BorderHeight, BorderStyle, Button, ButtonState, Edge,
    Color, FocusEvent, Intensity, Label, MouseButton, MouseEvent, TextStyle, Theme, Weight, Widget,
};

#[test]
fn button_press_and_release() {
    let mut b = Button::new("OK");
    assert_eq!(b.state(), ButtonState::Enabled);
    assert_eq!(b.handle_focus(FocusEvent::Offer), Some(Action::Redraw));
    assert_eq!(b.state(), ButtonState::Focused);
    assert_eq!(b.handle_mouse(MouseEvent::ButtonDown(MouseButton::Left)), Some(Action::Redraw));
    assert_eq!(b.state(), ButtonState::Pressed);
    assert_eq!(b.border_style(), BorderStyle::Bevel(BorderHeight::Lowered));
    assert_eq!(b.handle_mouse(MouseEvent::ButtonDown(MouseButton::Left)), None);
    assert_eq!(b.handle_mouse(MouseEvent::ButtonUp(MouseButton::Left)), Some(Action::Redraw));
    assert_eq!(b.state(), ButtonState::Focused);
    assert_eq!(b.handle_focus(FocusEvent::Take), Some(Action::Redraw));
    assert_eq!(b.state(), ButtonState::Enabled);
}

#[test]
fn button_hover() {
    let mut b = Button::new("OK");
    assert_eq!(b.focus(FocusEvent::HoverInside), Some(Action::Redraw));
    assert_eq!(b.state(), ButtonState::Hovered);
    assert_eq!(b.focus(FocusEvent::HoverInside), None);
    assert_eq!(b.focus(FocusEvent::HoverOutside), Some(Action::Redraw));
    assert_eq!(b.state(), ButtonState::Enabled);
}

#[test]
fn disabled_button_ignores_events() {
    let mut b = Button::new("OK");
    b.disable();
    assert_eq!(b.state(), ButtonState::Disabled);
    assert_eq!(b.handle_mouse(MouseEvent::ButtonDown(MouseButton::Left)), None);
    assert_eq!(b.handle_focus(FocusEvent::Offer), None);
    assert_eq!(b.border(), Some(Border { edges: Edge::ALL, style: BorderStyle::Empty }));
    b.enable();
    assert_eq!(b.state(), ButtonState::Enabled);
    assert_eq!(b.border(), Some(Border { edges: Edge::ALL, style: BorderStyle::Bevel(BorderHeight::Raised) }));
}

#[test]
fn button_style_follows_state() {
    let theme = Theme::default();
    let mut b = Button::new("OK");
    let s = b.style(&theme);
    assert_eq!(s.background(), theme.background);
    assert_eq!(s.foreground(), theme.foreground);
    b.handle_focus(FocusEvent::Offer);
    let s = b.style(&theme);
    assert_eq!(s.background(), theme.secondary);
    assert_eq!(s.foreground(), theme.background);
}

#[test]
fn label_bounds_from_display_width() {
    let l = Label::new("This is a bit of test text inside of a label");
    let b = l.bounds();
    assert_eq!(b, AreaBound::default().with_columns(23, 25).with_rows(2, 2));
    assert_eq!(bound_for_width(44), b);
    let wide = Label::new("日本語");
    assert_eq!(wide.bounds(), AreaBound::default().with_columns(7, 9).with_rows(1, 1));
    assert_eq!(Label::new("").bounds(), AreaBound::default().with_columns(1, 3).with_rows(1, 1));
}

#[test]
fn label_lines_wrap_and_fit() {
    let l = Label::new("one two three four");
    assert_eq!(l.lines(9, 10), vec!["one two".to_string(), "three".to_string(), "four".to_string()]);
    assert_eq!(l.lines(9, 2), vec!["one two".to_string(), "three".to_string()]);
    assert!(l.lines(0, 2).is_empty());
    assert_eq!(l.txt(), "one two three four");
}

#[test]
fn appearance_changes() {
    let before = Appearance::default().with_italic(true).with_weight(Weight::Bold);
    let after = Appearance::default().with_underline(true);
    let a = after.changed(before);
    assert!(a.underlined);
    assert!(a.no_italic);
    assert!(a.normal_intensity);
    assert!(!a.bold);
    assert!(!a.italic);
    assert!(Appearance::default().changed(Appearance::default()).is_empty());
}

#[test]
fn text_style_builders() {
    let s = TextStyle::default();
    assert_eq!(s.background(), Color::Black(Intensity::Normal));
    assert_eq!(s.foreground(), Color::White(Intensity::Bright));
    let s = s.with_background(Color::Blue(Intensity::Normal)).with_foreground(Color::Rgb(1, 2, 3));
    assert_eq!(s.background(), Color::Blue(Intensity::Normal));
    assert_eq!(s.foreground(), Color::Rgb(1, 2, 3));
    let app = Appearance::default().with_reverse(true).with_strikethrough(true);
    assert_eq!(s.with_appearance(app).appearance(), app);
}

#[test]
fn fit_lines_keeps_first_rows() {
    let all = vec!["a".to_string(), "b".to_string(), "c".to_string()];
    assert_eq!(semtext::fit_lines(&all, 2), vec!["a".to_string(), "b".to_string()]);
    assert_eq!(semtext::fit_lines(&all, 9), all);
    assert!(semtext::fit_lines(&all, 0).is_empty());
}

#[test]
fn button_bounds_are_label_bounds() {
    let b = Button::new("Press here");
    assert_eq!(b.bounds(), Label::new("Press here").bounds());
}

#[test]
fn try_lines_refuses_control_characters() {
    let l = Label::new("\u{1}\u{1}a-b\u{4e00}");
    assert_eq!(l.try_lines(4, 3), None);
    assert_eq!(l.try_lines(0, 3), Some(vec![]));
    let ok = Label::new("one two");
    assert_eq!(ok.try_lines(4, 3), Some(vec!["one".to_string(), "two".to_string()]));
    assert!(semtext::is_plain("ab \u{4e00}"));
    assert!(!semtext::is_plain("a\tb"));
}

#[test]
fn view_area_clips_and_insets() {
    let bbox = Area::new(0, 0, 10, 10);
    let border = Some(Border { edges: Edge::LEFT_RIGHT, style: BorderStyle::Empty });
    assert_eq!(view_area(bbox, Area::new(6, 2, 8, 3), border), Some(Area::new(7, 2, 2, 3)));
    assert_eq!(view_area(bbox, Area::new(2, 2, 4, 4), None), Some(Area::new(2, 2, 4, 4)));
    let all = Some(Border { edges: Edge::ALL, style: BorderStyle::Empty });
    assert_eq!(view_area(bbox, Area::new(0, 0, 2, 5), all), None);
}
