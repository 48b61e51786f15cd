use semtext::{GridTemplate, Span, TemplateError};

fn matrix(rows: &[&str]) -> Vec<Vec<char>> {
    rows.iter().map(|r| r.split_whitespace().map(|c| c.chars().next().unwrap()).collect()).collect()
}

#[test]
fn spans_in_first_occurrence_order() {
    let cells = matrix(&["a a", ". b"]);
    let t = GridTemplate::new(&cells, &vec!['b', 'a']).unwrap();
    assert_eq!(t.n_cols, 2);
    assert_eq!(t.n_rows, 2);
    assert_eq!(
        t.spans,
        vec![
            Span { label: 'a', widget: 1, col: 0, row: 0, width: 2, height: 1 },
            Span { label: 'b', widget: 0, col: 1, row: 1, width: 1, height: 1 },
        ]
    );
}

#[test]
fn block_span() {
    let cells = matrix(&[". . . .", "a a . b", "a a . b", ". c c b"]);
    let t = GridTemplate::new(&cells, &vec!['a', 'b', 'c']).unwrap();
    assert_eq!(
        t.spans,
        vec![
            Span { label: 'a', widget: 0, col: 0, row: 1, width: 2, height: 2 },
            Span { label: 'b', widget: 1, col: 3, row: 1, width: 1, height: 3 },
            Span { label: 'c', widget: 2, col: 1, row: 3, width: 2, height: 1 },
        ]
    );
}

#[test]
fn non_rectangle_label_is_rejected() {
    let cells = matrix(&["a a", "a b"]);
    assert_eq!(GridTemplate::new(&cells, &vec!['a', 'b']).unwrap_err(), TemplateError::NotRectangle('a'));
    let split = matrix(&["a b a"]);
    assert_eq!(GridTemplate::new(&split, &vec!['a', 'b']).unwrap_err(), TemplateError::NotRectangle('a'));
}

#[test]
fn first_non_rectangle_label_is_named() {
    let cells = matrix(&["x a .", "a . x"]);
    assert_eq!(GridTemplate::new(&cells, &vec!['a', 'x']).unwrap_err(), TemplateError::NotRectangle('x'));
}

#[test]
fn ragged_rows_are_rejected() {
    let cells = matrix(&["a b", "a b c", "a"]);
    assert_eq!(GridTemplate::new(&cells, &vec!['a', 'b', 'c']).unwrap_err(), TemplateError::RaggedRow(1));
}

#[test]
fn unmapped_label_is_rejected() {
    let cells = matrix(&["a b", "c c"]);
    assert_eq!(GridTemplate::new(&cells, &vec!['a', 'c']).unwrap_err(), TemplateError::Unmapped('b'));
}

#[test]
fn filler_only_and_empty_templates() {
    let cells = matrix(&[". .", ". ."]);
    let t = GridTemplate::new(&cells, &vec![]).unwrap();
    assert!(t.spans.is_empty());
    let empty: Vec<Vec<char>> = Vec::new();
    let t = GridTemplate::new(&empty, &vec![]).unwrap();
    assert_eq!(t.n_rows, 0);
    assert_eq!(t.n_cols, 0);
}

#[test]
fn parse_text_rows() {
    let t = GridTemplate::parse(&vec!["a  a", ".\tb "], &vec!['a', 'b']).unwrap();
    assert_eq!(
        t.spans,
        vec![
            Span { label: 'a', widget: 0, col: 0, row: 0, width: 2, height: 1 },
            Span { label: 'b', widget: 1, col: 1, row: 1, width: 1, height: 1 },
        ]
    );
}

#[test]
fn parse_rejects_touching_labels() {
    let res = GridTemplate::parse(&vec!["a b", "ab ."], &vec!['a', 'b']);
    assert_eq!(res.unwrap_err(), TemplateError::LongLabel(1));
}

#[test]
fn parse_checks_rows_and_rectangles() {
    let ragged = GridTemplate::parse(&vec!["a b", "a"], &vec!['a', 'b']);
    assert_eq!(ragged.unwrap_err(), TemplateError::RaggedRow(1));
    let split = GridTemplate::parse(&vec!["a b", "b a"], &vec!['a', 'b']);
    assert_eq!(split.unwrap_err(), TemplateError::NotRectangle('a'));
}
