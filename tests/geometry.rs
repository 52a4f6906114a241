use termscreen::geometry::{Cell, CellIterator, Rect, Size};

fn walk(rect: Rect) -> Vec<Cell> {
    let mut it = CellIterator::new(rect);
    let mut out = Vec::new();
    while let Some(cell) = it.next() {
        out.push(cell);
    }
    out
}

#[test]
fn cell_iterator_walks_rows_in_order() {
    let cells = walk(Rect(Cell(0, 0), Size(2, 3)));
    assert_eq!(
        cells,
        vec![Cell(0, 0), Cell(0, 1), Cell(0, 2), Cell(1, 0), Cell(1, 1), Cell(1, 2)]
    );
}

#[test]
fn cell_iterator_stays_exhausted() {
    let mut it = CellIterator::new(Rect(Cell(0, 0), Size(1, 1)));
    assert_eq!(it.next(), Some(Cell(0, 0)));
    assert_eq!(it.next(), None);
    assert_eq!(it.next(), None);
}

#[test]
fn cell_iterator_with_offset_origin() {
    let cells = walk(Rect(Cell(3, 5), Size(2, 2)));
    assert_eq!(cells, vec![Cell(3, 5), Cell(3, 6), Cell(4, 5), Cell(4, 6)]);
}

#[test]
fn cell_iterator_empty_regions() {
    assert!(walk(Rect(Cell(1, 1), Size(0, 4))).is_empty());
    assert!(walk(Rect(Cell(1, 1), Size(4, 0))).is_empty());
}

#[test]
fn cell_iterator_single_column() {
    let cells = walk(Rect(Cell(0, 2), Size(3, 1)));
    assert_eq!(cells, vec![Cell(0, 2), Cell(1, 2), Cell(2, 2)]);
}

#[test]
fn within_bounds() {
    assert_eq!(Cell(2, 2).within(Size(2, 2)), None);
    assert_eq!(Cell(1, 1).within(Size(2, 2)), Some(Cell(1, 1)));
    assert_eq!(Cell(0, 2).within(Size(2, 2)), None);
    assert_eq!(Cell(0, 0).within(Size(0, 0)), None);
}

#[test]
fn sub_saturates_at_zero() {
    assert_eq!(Cell(0, 0).sub(Cell(1, 1)), Cell(0, 0));
    assert_eq!(Cell(5, 1).sub(Cell(2, 3)), Cell(3, 0));
    assert_eq!(Cell(40000, 7).sub(Cell(1, 7)), Cell(39999, 0));
}

#[test]
fn add_translates() {
    assert_eq!(Cell(1, 2).add(Cell(3, 4)), Cell(4, 6));
}

#[test]
fn size_and_cell_convert() {
    assert_eq!(Size::from_cell(Cell(3, 9)), Size(3, 9));
    assert_eq!(Cell::from_size(Size(7, 2)), Cell(7, 2));
}

#[test]
fn rect_contains() {
    let r = Rect(Cell(1, 2), Size(2, 3));
    assert!(r.contains(Cell(1, 2)));
    assert!(r.contains(Cell(2, 4)));
    assert!(!r.contains(Cell(3, 2)));
    assert!(!r.contains(Cell(1, 5)));
    assert!(!r.contains(Cell(0, 2)));
    assert!(!r.contains(Cell(1, 1)));
    let edge = Rect(Cell(65535, 65535), Size(1, 1));
    assert!(edge.contains(Cell(65535, 65535)));
}
