use tuke::geometry::{Position, Region, Size};

fn region(row: usize, col: usize, rows: usize, cols: usize) -> Region {
    Region { position: Position { row, col }, size: Size { rows, cols } }
}

#[test]
fn containment_covers_the_rectangle_inclusively() {
    let r = region(2, 3, 4, 5);
    assert!(r.contains(Position { row: 2, col: 3 }));
    assert!(r.contains(Position { row: 5, col: 7 }));
    assert!(r.contains(Position { row: 3, col: 5 }));
    assert!(!r.contains(Position { row: 1, col: 3 }));
    assert!(!r.contains(Position { row: 2, col: 2 }));
    assert!(!r.contains(Position { row: 6, col: 3 }));
    assert!(!r.contains(Position { row: 2, col: 8 }));
}

#[test]
fn an_empty_region_contains_nothing() {
    let r = region(0, 0, 0, 0);
    assert!(!r.contains(Position { row: 0, col: 0 }));
}

#[test]
fn top_right_is_the_last_column_of_the_first_row() {
    let r = region(2, 3, 4, 5);
    assert_eq!(r.top_right(), Position { row: 2, col: 7 });
    let r = region(0, 0, 3, 1);
    assert_eq!(r.top_right(), Position { row: 0, col: 0 });
}
