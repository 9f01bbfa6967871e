use remyx::element::list::{published_item, selection, ListDirection, Selection};
use remyx::element::paragraph::{scroll, Axe, Scroll};
use remyx::element::table::{clicked_row, movement, published_row, Movement};
use remyx::terminal::{Area, Cursor, Event, KeyCode, MouseButton, MouseEvent, MouseEventKind, Position, Size};

const TERMINAL: Size = Size { width: 80, height: 24 };
const AREA: Area = Area { x: 2, y: 3, width: 20, height: 10 };

fn cursor(x: u16, y: u16) -> Cursor {
    Cursor::new(Position { x, y }, TERMINAL)
}

fn click(x: u16, y: u16) -> Event {
    Event::Mouse(MouseEvent { kind: MouseEventKind::Up(MouseButton::Left), column: x, row: y })
}

fn wheel(kind: MouseEventKind, x: u16, y: u16) -> Event {
    Event::Mouse(MouseEvent { kind, column: x, row: y })
}

#[test]
fn list_keys_follow_direction() {
    let c = cursor(5, 5);
    let up = Event::Key(KeyCode::Up);
    let down = Event::Key(KeyCode::Down);
    assert_eq!(selection(ListDirection::TopToBottom, &c, AREA, &up, 0, 4), Some(Selection::Previous));
    assert_eq!(selection(ListDirection::TopToBottom, &c, AREA, &down, 0, 4), Some(Selection::Next));
    assert_eq!(selection(ListDirection::BottomToTop, &c, AREA, &up, 0, 4), Some(Selection::Next));
    assert_eq!(selection(ListDirection::BottomToTop, &c, AREA, &down, 0, 4), Some(Selection::Previous));
    let left = Event::Key(KeyCode::Left);
    assert_eq!(selection(ListDirection::TopToBottom, &c, AREA, &left, 0, 4), None);
}

#[test]
fn list_wheel_follows_direction() {
    let up = wheel(MouseEventKind::ScrollUp, 5, 5);
    let down = wheel(MouseEventKind::ScrollDown, 5, 5);
    let c = cursor(5, 5);
    assert_eq!(selection(ListDirection::TopToBottom, &c, AREA, &up, 0, 4), Some(Selection::Previous));
    assert_eq!(selection(ListDirection::TopToBottom, &c, AREA, &down, 0, 4), Some(Selection::Next));
    assert_eq!(selection(ListDirection::BottomToTop, &c, AREA, &up, 0, 4), Some(Selection::Next));
    assert_eq!(selection(ListDirection::BottomToTop, &c, AREA, &down, 0, 4), Some(Selection::Previous));
}

#[test]
fn list_click_selects_item_under_pointer() {
    // third visible line, first visible item is item 1
    let c = cursor(5, 5);
    let e = click(5, 5);
    assert_eq!(selection(ListDirection::TopToBottom, &c, AREA, &e, 1, 10), Some(Selection::Index(3)));
    // bottom to top: line 5 of an area spanning rows 3..13 is the 8th from the bottom
    assert_eq!(selection(ListDirection::BottomToTop, &c, AREA, &e, 1, 10), Some(Selection::Index(8)));
    // past the last item
    assert_eq!(selection(ListDirection::TopToBottom, &c, AREA, &e, 1, 3), None);
}

#[test]
fn list_ignores_events_when_not_hovered() {
    let outside = cursor(40, 20);
    let up = Event::Key(KeyCode::Up);
    assert_eq!(selection(ListDirection::TopToBottom, &outside, AREA, &up, 0, 4), None);
    // on the terminal's edge nothing is hovered, even inside the area
    let edge = Cursor::new(Position { x: 0, y: 5 }, TERMINAL);
    let area = Area { x: 0, y: 0, width: 10, height: 10 };
    assert_eq!(selection(ListDirection::TopToBottom, &edge, area, &up, 0, 4), None);
}

#[test]
fn list_publishes_selected_existing_item() {
    assert_eq!(published_item(true, Some(2), 4), Some(2));
    assert_eq!(published_item(false, Some(2), 4), None);
    assert_eq!(published_item(true, Some(4), 4), None);
    assert_eq!(published_item(true, None, 4), None);
}

#[test]
fn paragraph_scrolls_with_arrows_and_wheel() {
    let c = cursor(5, 5);
    assert_eq!(scroll(&c, AREA, &Event::Key(KeyCode::Up)), Some(Scroll::Up));
    assert_eq!(scroll(&c, AREA, &Event::Key(KeyCode::Right)), Some(Scroll::Right));
    assert_eq!(scroll(&c, AREA, &wheel(MouseEventKind::ScrollDown, 5, 5)), Some(Scroll::Down));
    assert_eq!(scroll(&c, AREA, &click(5, 5)), None);
    assert_eq!(scroll(&c, AREA, &Event::Other), None);
    assert_eq!(scroll(&cursor(30, 5), AREA, &Event::Key(KeyCode::Up)), None);
    assert_eq!(Scroll::Up.offset_change(), (Axe::Y, -1));
    assert_eq!(Scroll::Down.offset_change(), (Axe::Y, 1));
    assert_eq!(Scroll::Left.offset_change(), (Axe::X, -1));
    assert_eq!(Scroll::Right.offset_change(), (Axe::X, 1));
}

#[test]
fn table_click_walks_multi_line_rows() {
    let heights = vec![1u16, 2, 3, 1];
    // from row 0: lines 0 | 1 2 | 3 4 5 | 6
    assert_eq!(clicked_row(&heights, 0, 0), Some(0));
    assert_eq!(clicked_row(&heights, 0, 2), Some(1));
    assert_eq!(clicked_row(&heights, 0, 3), Some(2));
    assert_eq!(clicked_row(&heights, 0, 6), Some(3));
    assert_eq!(clicked_row(&heights, 0, 7), None);
    // scrolled to row 2: lines 0 1 2 | 3
    assert_eq!(clicked_row(&heights, 2, 2), Some(2));
    assert_eq!(clicked_row(&heights, 2, 3), Some(3));
    assert_eq!(clicked_row(&heights, 5, 0), None);
}

#[test]
fn table_movements() {
    let c = cursor(5, 5);
    let body = Area { x: 2, y: 4, width: 20, height: 9 };
    let heights = vec![1u16, 1, 1];
    assert_eq!(movement(&c, AREA, body, &Event::Key(KeyCode::Up), &heights, 0), Some(Movement::RowPrevious));
    assert_eq!(movement(&c, AREA, body, &Event::Key(KeyCode::Down), &heights, 0), Some(Movement::RowNext));
    assert_eq!(movement(&c, AREA, body, &Event::Key(KeyCode::Left), &heights, 0), Some(Movement::ColumnPrevious));
    assert_eq!(movement(&c, AREA, body, &Event::Key(KeyCode::Right), &heights, 0), Some(Movement::ColumnNext));
    assert_eq!(movement(&c, AREA, body, &click(5, 5), &heights, 0), Some(Movement::RowAt(1)));
    assert_eq!(movement(&c, AREA, body, &wheel(MouseEventKind::ScrollUp, 5, 5), &heights, 0), Some(Movement::RowPrevious));
    // a click on the header line (row 3) is outside the body
    let header = cursor(5, 3);
    assert_eq!(movement(&header, AREA, body, &click(5, 3), &heights, 0), None);
    // below the last row
    let low = cursor(5, 10);
    assert_eq!(movement(&low, AREA, body, &click(5, 10), &heights, 0), None);
}

#[test]
fn table_publishes_only_row_changes() {
    assert_eq!(published_row(&Movement::RowNext, true, Some(1), 3), Some(1));
    assert_eq!(published_row(&Movement::RowAt(2), true, Some(2), 3), Some(2));
    assert_eq!(published_row(&Movement::ColumnNext, true, Some(1), 3), None);
    assert_eq!(published_row(&Movement::ColumnPrevious, true, Some(1), 3), None);
    assert_eq!(published_row(&Movement::RowPrevious, false, Some(1), 3), None);
}
