use semtext::{solve_axis, Area, AreaBound, GridTemplate, UNBOUNDED};

fn template(rows: &[&str], labels: &[char]) -> GridTemplate {
    let cells: Vec<Vec<char>> =
        rows.iter().map(|r| r.split_whitespace().map(|c| c.chars().next().unwrap()).collect()).collect();
    GridTemplate::new(&cells, &labels.to_vec()).unwrap()
}

#[test]
fn rigid_and_flexible_columns() {
    let t = template(&["a b"], &['a', 'b']);
    let bounds = vec![AreaBound::default().with_columns(10, 10), AreaBound::default()];
    let boxes = t.widget_boxes(Area::new(0, 0, 30, 1), &bounds);
    assert_eq!(boxes, vec![(0, Area::new(0, 0, 10, 1)), (1, Area::new(10, 0, 20, 1))]);
}

#[test]
fn columns_scaled_below_minimum() {
    let t = template(&["a b"], &['a', 'b']);
    let bounds = vec![AreaBound::default().with_columns(10, 10), AreaBound::default()];
    let boxes = t.widget_boxes(Area::new(0, 0, 5, 1), &bounds);
    assert_eq!(boxes, vec![(0, Area::new(0, 0, 5, 1)), (1, Area::new(5, 0, 0, 1))]);
}

#[test]
fn spanning_template() {
    let t = template(&["a a", ". b"], &['a', 'b']);
    let bounds = vec![AreaBound::default(), AreaBound::default()];
    let boxes = t.widget_boxes(Area::new(0, 0, 4, 2), &bounds);
    assert_eq!(boxes, vec![(0, Area::new(0, 0, 4, 1)), (1, Area::new(2, 1, 2, 1))]);
}

#[test]
fn layout_is_relative_to_origin() {
    let t = template(&["a b"], &['a', 'b']);
    let bounds = vec![AreaBound::default().with_columns(3, 3), AreaBound::default()];
    let boxes = t.widget_boxes(Area::new(5, 7, 10, 2), &bounds);
    assert_eq!(boxes, vec![(0, Area::new(5, 7, 3, 2)), (1, Area::new(8, 7, 7, 2))]);
}

#[test]
fn layout_twice_is_identical() {
    let t = template(&["a a b", "c . b"], &['a', 'b', 'c']);
    let bounds = vec![
        AreaBound::default().with_columns(5, 9).with_rows(1, 2),
        AreaBound::default().with_columns(2, UNBOUNDED),
        AreaBound::default().with_rows(3, 3),
    ];
    let bbox = Area::new(0, 0, 37, 11);
    assert_eq!(t.widget_boxes(bbox, &bounds), t.widget_boxes(bbox, &bounds));
}

#[test]
fn scaled_lengths_use_all_cells() {
    let r = solve_axis(&vec![3, 3, 3], &vec![UNBOUNDED; 3], 7);
    assert_eq!(r, vec![3, 2, 2]);
    assert_eq!(r.iter().map(|&x| x as u32).sum::<u32>(), 7);
    let r = solve_axis(&vec![10, 5, 0], &vec![10, 5, 0], 6);
    assert_eq!(r, vec![4, 2, 0]);
}

#[test]
fn leftover_shared_equally_with_rest_first() {
    let r = solve_axis(&vec![1, 1, 1], &vec![UNBOUNDED; 3], 8);
    assert_eq!(r, vec![3, 3, 2]);
}

#[test]
fn leftover_capped_and_shared_again() {
    let r = solve_axis(&vec![0, 0, 0], &vec![1, UNBOUNDED, UNBOUNDED], 9);
    assert_eq!(r, vec![1, 4, 4]);
}

#[test]
fn rigid_tracks_leave_space_unused() {
    let r = solve_axis(&vec![2, 3], &vec![2, 3], 20);
    assert_eq!(r, vec![2, 3]);
}

#[test]
fn spanning_minimum_shared_rest_first() {
    let t = template(&["a a a", "b c d"], &['a', 'b', 'c', 'd']);
    let rigid = AreaBound::default().with_columns(0, 0);
    let bounds = vec![AreaBound::default().with_columns(7, 7), rigid, rigid, rigid];
    let boxes = t.widget_boxes(Area::new(0, 0, 20, 2), &bounds);
    assert_eq!(boxes[0], (0, Area::new(0, 0, 7, 1)));
    assert_eq!(boxes[1], (1, Area::new(0, 1, 3, 1)));
    assert_eq!(boxes[2], (2, Area::new(3, 1, 2, 1)));
    assert_eq!(boxes[3], (3, Area::new(5, 1, 2, 1)));
}

#[test]
fn layout_checks_widgets() {
    let t = template(&["a b"], &['a', 'b']);
    let one = vec![AreaBound::default()];
    assert_eq!(t.layout(Area::new(0, 0, 10, 1), &one), None);
    let two = vec![AreaBound::default(), AreaBound::default()];
    assert_eq!(
        t.layout(Area::new(0, 0, 10, 1), &two),
        Some(vec![(0, Area::new(0, 0, 5, 1)), (1, Area::new(5, 0, 5, 1))])
    );
}
