//! How a paragraph reacts to input: arrow keys and the mouse wheel scroll it.
use crate::terminal::{Area, Cursor, Event, KeyCode, MouseEventKind};
use vstd::prelude::*;

verus! {

/// The axis along which a paragraph scrolls.
#[derive(Debug, Clone, Copy, PartialEq, Eq)]
pub enum Axe {
    X,
    Y,
}

/// A one-cell scroll of the paragraph's content.
#[derive(Debug, Clone, Copy, PartialEq, Eq)]
pub enum Scroll {
    Up,
    Down,
    Left,
    Right,
}

/// The scroll that `event` asks for: the arrow keys scroll in their direction, the
/// mouse wheel scrolls vertically; nothing else scrolls.
pub open spec fn requested_scroll(event: Event) -> Option<Scroll> {
    match event {
        Event::Key(KeyCode::Up) => Some(Scroll::Up),
        Event::Key(KeyCode::Down) => Some(Scroll::Down),
        Event::Key(KeyCode::Left) => Some(Scroll::Left),
        Event::Key(KeyCode::Right) => Some(Scroll::Right),
        Event::Mouse(m) => match m.kind {
            MouseEventKind::ScrollUp => Some(Scroll::Up),
            MouseEventKind::ScrollDown => Some(Scroll::Down),
            _ => None,
        },
        _ => None,
    }
}

/// The scroll a paragraph in `area` performs when `event` arrives: none unless the
/// pointer hovers over it.
pub fn scroll(cursor: &Cursor, area: Area, event: &Event) -> (r: Option<Scroll>)
    requires
        area.fits(),
    ensures
        r == (if cursor.hovers(area) {
            requested_scroll(*event)
        } else {
            None
        }),
{
    if !cursor.is_hovering(area) {
        return None;
    }
    match event {
        Event::Key(key) => match key {
            KeyCode::Up => Some(Scroll::Up),
            KeyCode::Down => Some(Scroll::Down),
            KeyCode::Left => Some(Scroll::Left),
            KeyCode::Right => Some(Scroll::Right),
            _ => None,
        },
        Event::Mouse(mouse_event) => match mouse_event.kind {
            MouseEventKind::ScrollUp => Some(Scroll::Up),
            MouseEventKind::ScrollDown => Some(Scroll::Down),
            _ => None,
        },
        _ => None,
    }
}

impl Scroll {
    /// The axis and the signed step by which the scroll moves the offset.
    pub open spec fn spec_offset_change(self) -> (Axe, i16) {
        match self {
            Scroll::Up => (Axe::Y, -1i16),
            Scroll::Down => (Axe::Y, 1),
            Scroll::Left => (Axe::X, -1i16),
            Scroll::Right => (Axe::X, 1),
        }
    }

    /// The axis and the signed step by which the scroll moves the offset.
    pub fn offset_change(&self) -> (r: (Axe, i16))
        ensures
            r == self.spec_offset_change(),
    {
        match self {
            Scroll::Up => (Axe::Y, -1i16),
            Scroll::Down => (Axe::Y, 1),
            Scroll::Left => (Axe::X, -1i16),
            Scroll::Right => (Axe::X, 1),
        }
    }
}

/// The mouse wheel scrolls like the arrow keys, in its own direction: turning it
/// up asks for what the up key asks for, moving the offset one line back along
/// `Y`; turning it down asks for what the down key asks for, one line forward.
pub proof fn lemma_wheel_scrolls_in_its_direction(m: crate::terminal::MouseEvent)
    ensures
        m.kind == MouseEventKind::ScrollUp ==> {
            &&& requested_scroll(Event::Mouse(m)) == requested_scroll(Event::Key(KeyCode::Up))
            &&& requested_scroll(Event::Mouse(m)) matches Some(s) && s.spec_offset_change() == (Axe::Y, -1i16)
        },
        m.kind == MouseEventKind::ScrollDown ==> {
            &&& requested_scroll(Event::Mouse(m)) == requested_scroll(Event::Key(KeyCode::Down))
            &&& requested_scroll(Event::Mouse(m)) matches Some(s) && s.spec_offset_change() == (Axe::Y, 1i16)
        },
        m.kind != MouseEventKind::ScrollUp && m.kind != MouseEventKind::ScrollDown
            ==> requested_scroll(Event::Mouse(m)) is None,
{
}

/// Each arrow key scrolls one cell in its own direction: up and left move the
/// offset back along `Y` and `X`, down and right move it forward; any other key
/// scrolls nothing.
pub proof fn lemma_arrows_scroll_in_their_direction(k: KeyCode)
    ensures
        k == KeyCode::Up ==> (requested_scroll(Event::Key(k)) matches Some(s) && s.spec_offset_change() == (Axe::Y, -1i16)),
        k == KeyCode::Down ==> (requested_scroll(Event::Key(k)) matches Some(s) && s.spec_offset_change() == (Axe::Y, 1i16)),
        k == KeyCode::Left ==> (requested_scroll(Event::Key(k)) matches Some(s) && s.spec_offset_change() == (Axe::X, -1i16)),
        k == KeyCode::Right ==> (requested_scroll(Event::Key(k)) matches Some(s) && s.spec_offset_change() == (Axe::X, 1i16)),
        k == KeyCode::Other ==> requested_scroll(Event::Key(k)) is None,
{
}

} // verus!
