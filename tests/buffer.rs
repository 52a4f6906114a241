use termscreen::buffer::ScreenBuffer;
use termscreen::color::Color;
use termscreen::geometry::{Cell, Size};

fn sized(rows: u16, cols: u16) -> ScreenBuffer {
    let mut b = ScreenBuffer::new();
    b.resize(Size(rows, cols));
    b
}

#[test]
fn update_reports_change_once() {
    let mut b = sized(2, 3);
    assert!(b.update(Cell(1, 1), 'x', Color::Red, Color::Black));
    assert!(!b.update(Cell(1, 1), 'x', Color::Red, Color::Black));
    assert_eq!(b.get(Cell(1, 1)), Some(('x', Color::Red, Color::Black)));
}

#[test]
fn update_detects_color_change() {
    let mut b = sized(1, 2);
    assert!(b.update(Cell(0, 0), 'x', Color::Red, Color::Black));
    assert!(b.update(Cell(0, 0), 'x', Color::Red, Color::White));
    assert!(b.update(Cell(0, 0), 'y', Color::Red, Color::White));
}

#[test]
fn wide_glyph_covers_next_column() {
    let mut b = sized(1, 4);
    assert!(b.update(Cell(0, 2), 'q', Color::White, Color::Black));
    assert!(b.update(Cell(0, 1), '中', Color::White, Color::Black));
    assert_eq!(b.get(Cell(0, 1)), Some(('中', Color::White, Color::Black)));
    assert_eq!(b.get(Cell(0, 2)), None);
    assert!(b.update(Cell(0, 2), 'a', Color::White, Color::Black));
}

#[test]
fn wide_glyph_redraw_after_cover_drawn() {
    let mut b = sized(1, 4);
    assert!(b.update(Cell(0, 0), '中', Color::White, Color::Black));
    assert!(!b.update(Cell(0, 0), '中', Color::White, Color::Black));
    assert!(b.update(Cell(0, 1), 'a', Color::White, Color::Black));
    assert!(b.update(Cell(0, 0), '中', Color::White, Color::Black));
    assert_eq!(b.get(Cell(0, 1)), None);
}

#[test]
fn wide_glyph_clipped_at_end() {
    let mut b = sized(1, 2);
    assert!(b.update(Cell(0, 1), '中', Color::White, Color::Black));
    assert!(!b.update(Cell(0, 1), '中', Color::White, Color::Black));
    assert_eq!(b.get(Cell(0, 0)), None);
}

#[test]
fn wide_glyph_at_row_end_covers_next_row_start() {
    let mut b = sized(2, 2);
    assert!(b.update(Cell(1, 0), 'z', Color::Blue, Color::Black));
    assert!(b.update(Cell(0, 1), '中', Color::Blue, Color::Black));
    assert_eq!(b.get(Cell(1, 0)), None);
}

#[test]
fn update_with_width_spans() {
    let mut b = sized(1, 5);
    assert!(b.update_with_width(Cell(0, 3), 'k', Color::Green, Color::Black, None));
    assert!(b.update_with_width(Cell(0, 0), 'w', Color::Green, Color::Black, Some(4)));
    assert_eq!(b.get(Cell(0, 3)), None);
    assert!(b.update_with_width(Cell(0, 4), 'k', Color::Green, Color::Black, Some(0)));
    assert!(!b.update_with_width(Cell(0, 4), 'k', Color::Green, Color::Black, Some(1)));
    assert!(!b.update_with_width(Cell(0, 0), 'w', Color::Green, Color::Black, Some(4)));
    assert!(!b.update_with_width(Cell(0, 4), 'k', Color::Green, Color::Black, Some(usize::MAX)));
}

#[test]
fn control_character_counts_one_column() {
    let mut b = sized(1, 3);
    assert!(b.update(Cell(0, 1), 'a', Color::White, Color::Black));
    assert!(b.update(Cell(0, 0), '\u{7}', Color::White, Color::Black));
    assert_eq!(b.get(Cell(0, 1)), Some(('a', Color::White, Color::Black)));
}

#[test]
fn resize_grows_with_empty_cells() {
    let mut b = sized(1, 2);
    assert!(b.update(Cell(0, 1), 'a', Color::White, Color::Black));
    b.resize(Size(3, 2));
    assert_eq!(b.size(), Size(3, 2));
    assert_eq!(b.get(Cell(0, 1)), Some(('a', Color::White, Color::Black)));
    for r in 1..3 {
        for c in 0..2 {
            assert_eq!(b.get(Cell(r, c)), None);
        }
    }
}

#[test]
fn resize_shrinks_keeping_prefix() {
    let mut b = sized(2, 2);
    assert!(b.update(Cell(0, 0), 'a', Color::White, Color::Black));
    assert!(b.update(Cell(0, 1), 'b', Color::White, Color::Black));
    assert!(b.update(Cell(1, 0), 'c', Color::White, Color::Black));
    b.resize(Size(1, 2));
    assert_eq!(b.size(), Size(1, 2));
    assert_eq!(b.get(Cell(0, 0)), Some(('a', Color::White, Color::Black)));
    assert_eq!(b.get(Cell(0, 1)), Some(('b', Color::White, Color::Black)));
    b.resize(Size(2, 2));
    assert_eq!(b.get(Cell(1, 0)), None);
}

#[test]
fn clear_empties_every_cell() {
    let mut b = sized(2, 2);
    assert!(b.update(Cell(1, 1), 'a', Color::White, Color::Black));
    b.clear();
    assert_eq!(b.size(), Size(2, 2));
    assert_eq!(b.get(Cell(1, 1)), None);
    assert!(b.update(Cell(1, 1), 'a', Color::White, Color::Black));
}

#[test]
fn new_buffer_is_empty() {
    let b = ScreenBuffer::new();
    assert_eq!(b.size(), Size(0, 0));
}
