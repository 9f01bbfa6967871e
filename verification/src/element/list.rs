//! How a list reacts to input: which selection change an event asks for, and which
//! item's callback fires afterwards.
use crate::terminal::{Area, Cursor, Event, KeyCode, MouseButton, MouseEventKind};
use vstd::prelude::*;

verus! {

/// The order in which a list lays out its items.
#[derive(Debug, Clone, Copy, PartialEq, Eq)]
pub enum ListDirection {
    /// The first item is at the top.
    TopToBottom,
    /// The first item is at the bottom.
    BottomToTop,
}

/// A change of the selected item.
#[derive(Debug, Clone, Copy, PartialEq, Eq)]
pub enum Selection {
    Previous,
    Next,
    Index(usize),
}

/// The item a left click on `row` lands on: rows are counted from the first visible
/// item, whose index is `offset`.
pub open spec fn clicked_item(direction: ListDirection, items_area: Area, row: u16, offset: int) -> int {
    match direction {
        ListDirection::TopToBottom => (row - items_area.y) + offset,
        ListDirection::BottomToTop => (items_area.y + items_area.height - 1 - row) + offset,
    }
}

/// The selection change that `event` asks of a list of `len` items, laid out in
/// `direction` in `items_area`, whose first visible item is `offset`. Up and down
/// keys and the scroll wheel move the selection towards the top or the bottom; a
/// left click selects the item under the pointer, if there is one.
pub open spec fn requested_selection(
    direction: ListDirection,
    items_area: Area,
    event: Event,
    offset: int,
    len: int,
) -> Option<Selection> {
    let towards_top = match direction {
        ListDirection::TopToBottom => Selection::Previous,
        ListDirection::BottomToTop => Selection::Next,
    };
    let towards_bottom = match direction {
        ListDirection::TopToBottom => Selection::Next,
        ListDirection::BottomToTop => Selection::Previous,
    };
    match event {
        Event::Key(KeyCode::Up) => Some(towards_top),
        Event::Key(KeyCode::Down) => Some(towards_bottom),
        Event::Mouse(m) => match m.kind {
            MouseEventKind::Up(MouseButton::Left) => {
                let item = clicked_item(direction, items_area, m.row, offset);
                if 0 <= item < len {
                    Some(Selection::Index(item as usize))
                } else {
                    None
                }
            },
            MouseEventKind::ScrollUp => Some(towards_top),
            MouseEventKind::ScrollDown => Some(towards_bottom),
            _ => None,
        },
        _ => None,
    }
}

/// The selection change a list asks for when `event` arrives: none unless the
/// pointer hovers over the list's items, else the one `requested_selection` gives.
pub fn selection(
    direction: ListDirection,
    cursor: &Cursor,
    items_area: Area,
    event: &Event,
    offset: usize,
    len: usize,
) -> (r: Option<Selection>)
    requires
        items_area.fits(),
        event.at_cursor(*cursor),
        event matches Event::Mouse(m) ==> (m.kind == MouseEventKind::Up(MouseButton::Left)
            ==> clicked_item(direction, items_area, m.row, offset as int) <= usize::MAX),
    ensures
        r == (if cursor.hovers(items_area) {
            requested_selection(direction, items_area, *event, offset as int, len as int)
        } else {
            None
        }),
{
    if !cursor.is_hovering(items_area) {
        return None;
    }
    match direction {
        ListDirection::TopToBottom => match event {
            Event::Key(KeyCode::Up) => Some(Selection::Previous),
            Event::Key(KeyCode::Down) => Some(Selection::Next),
            Event::Mouse(mouse_event) => match mouse_event.kind {
                MouseEventKind::Up(MouseButton::Left) => {
                    let item_index = (mouse_event.row - items_area.y) as usize + offset;
                    if item_index < len {
                        Some(Selection::Index(item_index))
                    } else {
                        None
                    }
                },
                MouseEventKind::ScrollUp => Some(Selection::Previous),
                MouseEventKind::ScrollDown => Some(Selection::Next),
                _ => None,
            },
            _ => None,
        },
        ListDirection::BottomToTop => match event {
            Event::Key(KeyCode::Up) => Some(Selection::Next),
            Event::Key(KeyCode::Down) => Some(Selection::Previous),
            Event::Mouse(mouse_event) => match mouse_event.kind {
                MouseEventKind::Up(MouseButton::Left) => {
                    let item_index = (items_area.y + items_area.height - 1 - mouse_event.row)
                        as usize + offset;
                    if item_index < len {
                        Some(Selection::Index(item_index))
                    } else {
                        None
                    }
                },
                MouseEventKind::ScrollUp => Some(Selection::Next),
                MouseEventKind::ScrollDown => Some(Selection::Previous),
                _ => None,
            },
            _ => None,
        },
    }
}

/// The item whose callback fires after the selection changed: the selected item,
/// when the list has a callback and the selection is one of its `len` items.
pub open spec fn spec_published_item(has_callback: bool, selected: Option<usize>, len: usize) -> Option<usize> {
    match selected {
        Some(i) => if has_callback && i < len {
            Some(i)
        } else {
            None
        },
        None => None,
    }
}

/// The item whose callback fires after the selection changed.
pub fn published_item(has_callback: bool, selected: Option<usize>, len: usize) -> (r: Option<usize>)
    ensures
        r == spec_published_item(has_callback, selected, len),
{
    match selected {
        Some(i) => if has_callback && i < len {
            Some(i)
        } else {
            None
        },
        None => None,
    }
}

/// Flipping a list upside down swaps the meaning of the up and down keys and of the
/// scroll wheel: whatever moves the selection to the previous item in one direction
/// moves it to the next in the other.
pub proof fn lemma_direction_mirrors_keys_and_wheel(items_area: Area, event: Event, offset: int, len: int)
    requires
        !(event matches Event::Mouse(m) && m.kind == MouseEventKind::Up(MouseButton::Left)),
    ensures
        requested_selection(ListDirection::TopToBottom, items_area, event, offset, len) == Some(Selection::Previous)
            <==> requested_selection(ListDirection::BottomToTop, items_area, event, offset, len) == Some(Selection::Next),
        requested_selection(ListDirection::TopToBottom, items_area, event, offset, len) == Some(Selection::Next)
            <==> requested_selection(ListDirection::BottomToTop, items_area, event, offset, len) == Some(Selection::Previous),
        requested_selection(ListDirection::TopToBottom, items_area, event, offset, len) is None
            <==> requested_selection(ListDirection::BottomToTop, items_area, event, offset, len) is None,
{
}

/// A click never selects past the end of the list: the item it selects is one of
/// the `len` items, counted from the first visible one.
pub proof fn lemma_click_selects_existing_item(
    direction: ListDirection,
    items_area: Area,
    event: Event,
    offset: int,
    len: int,
    i: usize,
)
    requires
        offset >= 0,
        requested_selection(direction, items_area, event, offset, len) == Some(Selection::Index(i)),
    ensures
        i < len,
{
}

/// Of all keys, only up and down move a list's selection, one item each way: the
/// two ask for opposite moves (one the previous item, the other the next), and
/// every other key, left and right among them, asks for nothing.
pub proof fn lemma_only_up_and_down_keys_select(
    direction: ListDirection,
    items_area: Area,
    k: KeyCode,
    offset: int,
    len: int,
)
    ensures
        requested_selection(direction, items_area, Event::Key(k), offset, len) is Some
            <==> (k == KeyCode::Up || k == KeyCode::Down),
        ({
            let up = requested_selection(direction, items_area, Event::Key(KeyCode::Up), offset, len);
            let down = requested_selection(direction, items_area, Event::Key(KeyCode::Down), offset, len);
            ||| up == Some(Selection::Previous) && down == Some(Selection::Next)
            ||| up == Some(Selection::Next) && down == Some(Selection::Previous)
        }),
        direction == ListDirection::TopToBottom ==> requested_selection(
            direction,
            items_area,
            Event::Key(KeyCode::Up),
            offset,
            len,
        ) == Some(Selection::Previous),
{
}

/// The wheel moves a list's selection as the keys do: turning it up asks for what
/// the up key asks for, turning it down for what the down key asks for.
pub proof fn lemma_wheel_selects_like_keys(
    direction: ListDirection,
    items_area: Area,
    m: crate::terminal::MouseEvent,
    offset: int,
    len: int,
)
    ensures
        m.kind == MouseEventKind::ScrollUp ==> requested_selection(direction, items_area, Event::Mouse(m), offset, len)
            == requested_selection(direction, items_area, Event::Key(KeyCode::Up), offset, len),
        m.kind == MouseEventKind::ScrollDown ==> requested_selection(direction, items_area, Event::Mouse(m), offset, len)
            == requested_selection(direction, items_area, Event::Key(KeyCode::Down), offset, len),
{
}

/// A left click on a line of the list's items selects the item shown there: the
/// item `offset + k`, where `k` counts the lines from the first shown item (from
/// the top for a list laid out top to bottom, from the bottom otherwise), if the
/// list has that item, and nothing if not.
pub proof fn lemma_click_selects_item_shown_on_line(
    direction: ListDirection,
    items_area: Area,
    m: crate::terminal::MouseEvent,
    offset: int,
    len: int,
)
    requires
        m.kind == MouseEventKind::Up(MouseButton::Left),
        items_area.y <= m.row < items_area.y + items_area.height,
        0 <= offset,
        offset + items_area.height <= usize::MAX,
    ensures
        ({
            let k = match direction {
                ListDirection::TopToBottom => m.row - items_area.y,
                ListDirection::BottomToTop => items_area.y + items_area.height - 1 - m.row,
            };
            &&& 0 <= k < items_area.height
            &&& requested_selection(direction, items_area, Event::Mouse(m), offset, len) == (if offset + k < len {
                Some(Selection::Index((offset + k) as usize))
            } else {
                None
            })
        }),
{
}

/// The callback fires with the selected item exactly when the list has a callback
/// and an existing item is selected.
pub proof fn lemma_publishes_selected_existing_item(has_callback: bool, selected: Option<usize>, len: usize)
    ensures
        spec_published_item(has_callback, selected, len) is Some <==> (has_callback && (selected matches Some(i) && i < len)),
        spec_published_item(has_callback, selected, len) matches Some(i) ==> selected == Some(i),
{
}

} // verus!
