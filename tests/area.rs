use semtext::{Area, Edge, Pos};

#[test]
fn area_trim() {
    let area = Area::new(0, 0, 5, 7);
    assert_eq!(area.trim(Edge::LEFT, 1), Area::new(1, 0, 4, 7));
}

#[test]
fn split_left_partitions_width() {
    let area = Area::new(3, 2, 10, 4);
    let (near, far) = area.split(Edge::LEFT, 4);
    assert_eq!(near, Area::new(3, 2, 4, 4));
    assert_eq!(far, Area::new(7, 2, 6, 4));
    assert_eq!(near.width() + far.width(), area.width());
    assert_eq!(far.col(), near.col() + near.width());
}

#[test]
fn split_left_clamps_to_width() {
    let area = Area::new(3, 2, 10, 4);
    let (near, far) = area.split(Edge::LEFT, 50);
    assert_eq!(near, Area::new(3, 2, 10, 4));
    assert_eq!(far, Area::new(13, 2, 0, 4));
}

#[test]
fn split_right_top_bottom() {
    let area = Area::new(0, 0, 10, 6);
    assert_eq!(area.split(Edge::RIGHT, 3), (Area::new(7, 0, 3, 6), Area::new(0, 0, 7, 6)));
    assert_eq!(area.split(Edge::TOP, 2), (Area::new(0, 0, 10, 2), Area::new(0, 2, 10, 4)));
    assert_eq!(area.split(Edge::BOTTOM, 2), (Area::new(0, 4, 10, 2), Area::new(0, 0, 10, 4)));
}

#[test]
fn split_halves() {
    let area = Area::new(1, 1, 9, 5);
    assert_eq!(area.split(Edge::LEFT_RIGHT, 0), (Area::new(1, 1, 4, 5), Area::new(5, 1, 5, 5)));
    assert_eq!(area.split(Edge::TOP_BOTTOM, 0), (Area::new(1, 1, 9, 2), Area::new(1, 3, 9, 3)));
}

#[test]
fn trim_saturates_at_zero() {
    let area = Area::new(2, 2, 5, 3);
    let t = area.trim(Edge::ALL, 10);
    assert_eq!(t.width(), 0);
    assert_eq!(t.height(), 0);
    let again = t.trim(Edge::ALL, 10);
    assert_eq!(again.width(), 0);
    assert_eq!(again.height(), 0);
}

#[test]
fn trim_each_edge() {
    let area = Area::new(0, 0, 10, 10);
    assert_eq!(area.trim(Edge::ALL, 1), Area::new(1, 1, 8, 8));
    assert_eq!(area.trim(Edge::RIGHT, 3), Area::new(0, 0, 7, 10));
    assert_eq!(area.trim(Edge::TOP_BOTTOM, 4), Area::new(0, 4, 10, 2));
    assert_eq!(area.trim(Edge::LEFT_RIGHT, 6), Area::new(6, 0, 0, 10));
}

#[test]
fn clip_intersects() {
    let a = Area::new(0, 0, 10, 10);
    let b = Area::new(5, 8, 10, 10);
    assert_eq!(a.clip(b), Area::new(5, 8, 5, 2));
    let c = Area::new(20, 20, 3, 3);
    let none = a.clip(c);
    assert_eq!(none.width(), 0);
    assert_eq!(none.height(), 0);
}

#[test]
fn within_gives_relative_position() {
    let a = Area::new(4, 2, 3, 2);
    assert_eq!(a.within(Pos::new(5, 3)), Some(Pos::new(1, 1)));
    assert_eq!(a.within(Pos::new(7, 3)), None);
    assert!(a.contains(Pos::new(4, 2)));
    assert!(!a.contains(Pos::new(4, 4)));
}

#[test]
fn edge_union_and_contains() {
    let e = Edge::TOP.union(Edge::LEFT);
    assert_eq!(e, Edge::TOP_LEFT);
    assert!(Edge::ALL.contains(e));
    assert!(!e.contains(Edge::RIGHT));
}
