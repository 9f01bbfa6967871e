use remyx::terminal::{track_pointer, Area, Cursor, Event, KeyCode, MouseEvent, MouseEventKind, Position, Size};

const TERMINAL: Size = Size { width: 80, height: 24 };

#[test]
fn hovering_inside_area() {
    let area = Area { x: 10, y: 5, width: 4, height: 2 };
    let at = |x, y| Cursor::new(Position { x, y }, TERMINAL).is_hovering(area);
    assert!(at(10, 5));
    assert!(at(13, 6));
    assert!(!at(14, 6));
    assert!(!at(13, 7));
    assert!(!at(9, 5));
    assert!(!at(10, 4));
}

#[test]
fn nothing_is_hovered_on_terminal_edge() {
    let whole = Area { x: 0, y: 0, width: 80, height: 24 };
    let at = |x, y| Cursor::new(Position { x, y }, TERMINAL).is_hovering(whole);
    assert!(!at(0, 10));
    assert!(!at(10, 0));
    assert!(!at(79, 10));
    assert!(!at(10, 23));
    assert!(at(78, 22));
    assert!(at(1, 1));
    // a terminal without cells has nothing but edge
    let none = Cursor::new(Position { x: 3, y: 3 }, Size { width: 0, height: 0 });
    assert!(!none.is_hovering(whole));
}

#[test]
fn pointer_follows_mouse_events_only() {
    let start = Position { x: 1, y: 2 };
    let moved = track_pointer(start, &Event::Mouse(MouseEvent { kind: MouseEventKind::Moved, column: 7, row: 9 }));
    assert_eq!(moved, Position { x: 7, y: 9 });
    assert_eq!(track_pointer(moved, &Event::Key(KeyCode::Up)), moved);
    assert_eq!(track_pointer(moved, &Event::Other), moved);
}

#[test]
fn cursor_keeps_what_it_was_given() {
    let c = Cursor::new(Position { x: 4, y: 6 }, TERMINAL);
    assert_eq!(c.position(), Position { x: 4, y: 6 });
    assert_eq!(c.terminal_size(), TERMINAL);
}
