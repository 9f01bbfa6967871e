//! Terminal geometry and input, as plain values: sizes, positions, rectangular
//! areas, the mouse cursor, and the input events that widgets react to.
use vstd::prelude::*;

verus! {

/// The size of the terminal, in cells.
#[derive(Debug, Clone, Copy, PartialEq, Eq)]
pub struct Size {
    pub width: u16,
    pub height: u16,
}

/// A cell of the terminal: column `x`, row `y`, both counted from 0.
#[derive(Debug, Clone, Copy, PartialEq, Eq)]
pub struct Position {
    pub x: u16,
    pub y: u16,
}

/// A rectangle of cells: its top-left corner and its size.
#[derive(Debug, Clone, Copy, PartialEq, Eq)]
pub struct Area {
    pub x: u16,
    pub y: u16,
    pub width: u16,
    pub height: u16,
}

impl Area {
    /// The rectangle's right and bottom edges are representable cell coordinates,
    /// as they are for every rectangle that the layout computes.
    pub open spec fn fits(self) -> bool {
        &&& self.x + self.width <= u16::MAX
        &&& self.y + self.height <= u16::MAX
    }

    /// `p` is one of the rectangle's cells.
    pub open spec fn contains(self, p: Position) -> bool {
        &&& self.x <= p.x < self.x + self.width
        &&& self.y <= p.y < self.y + self.height
    }
}

/// `n - 1`, or 0 for 0.
pub open spec fn saturating_pred(n: u16) -> int {
    if n == 0 {
        0
    } else {
        n - 1
    }
}

/// Where the mouse pointer is, and how large the terminal is.
#[derive(Debug, Clone, Copy)]
pub struct Cursor {
    position: Position,
    terminal_size: Size,
}

impl Cursor {
    /// The cell the pointer is on.
    pub closed spec fn spec_position(self) -> Position {
        self.position
    }

    /// The terminal's size.
    pub closed spec fn spec_terminal_size(self) -> Size {
        self.terminal_size
    }

    /// The pointer is on the terminal's outermost ring of cells (or the terminal is
    /// too small to have any other).
    pub open spec fn at_terminal_edge(self) -> bool {
        let p = self.spec_position();
        let s = self.spec_terminal_size();
        ||| p.x == 0
        ||| p.y == 0
        ||| p.x >= saturating_pred(s.width)
        ||| p.y >= saturating_pred(s.height)
    }

    /// The pointer hovers over `area`: it is inside it and not on the terminal's edge.
    pub open spec fn hovers(self, area: Area) -> bool {
        &&& !self.at_terminal_edge()
        &&& area.contains(self.spec_position())
    }

    pub fn new(position: Position, terminal_size: Size) -> (c: Cursor)
        ensures
            c.spec_position() == position,
            c.spec_terminal_size() == terminal_size,
    {
        Cursor { position, terminal_size }
    }

    pub fn position(&self) -> (p: Position)
        ensures
            p == self.spec_position(),
    {
        self.position
    }

    pub fn terminal_size(&self) -> (s: Size)
        ensures
            s == self.spec_terminal_size(),
    {
        self.terminal_size
    }

    /// Whether the pointer hovers over `area`. A pointer on the terminal's edge
    /// hovers over nothing.
    pub fn is_hovering(&self, area: Area) -> (r: bool)
        requires
            area.fits(),
        ensures
            r == self.hovers(area),
    {
        let at_terminal_edge = self.position.x == 0 || self.position.y == 0
            || self.position.x >= self.terminal_size.width.saturating_sub(1)
            || self.position.y >= self.terminal_size.height.saturating_sub(1);

        if at_terminal_edge {
            return false;
        }

        self.position.x >= area.x && self.position.x < area.x + area.width
            && self.position.y >= area.y && self.position.y < area.y + area.height
    }
}

/// The keys that widgets react to; every other key is `Other`.
#[derive(Debug, Clone, Copy, PartialEq, Eq)]
pub enum KeyCode {
    Up,
    Down,
    Left,
    Right,
    Other,
}

#[derive(Debug, Clone, Copy, PartialEq, Eq)]
pub enum MouseButton {
    Left,
    Right,
    Middle,
}

#[derive(Debug, Clone, Copy, PartialEq, Eq)]
pub enum MouseEventKind {
    Down(MouseButton),
    Up(MouseButton),
    Drag(MouseButton),
    Moved,
    ScrollDown,
    ScrollUp,
    ScrollLeft,
    ScrollRight,
}

/// A mouse event and the cell it happened on.
#[derive(Debug, Clone, Copy, PartialEq, Eq)]
pub struct MouseEvent {
    pub kind: MouseEventKind,
    pub column: u16,
    pub row: u16,
}

/// An input event, as far as widgets read it.
#[derive(Debug, Clone, Copy, PartialEq, Eq)]
pub enum Event {
    Key(KeyCode),
    Mouse(MouseEvent),
    Other,
}

impl Event {
    /// A mouse event happens on the cell the pointer is on: the terminal moves its
    /// cursor to every mouse event before the event is handed to the widgets.
    pub open spec fn at_cursor(self, cursor: Cursor) -> bool {
        match self {
            Event::Mouse(m) => m.column == cursor.spec_position().x && m.row
                == cursor.spec_position().y,
            _ => true,
        }
    }
}

/// Where the pointer is after the terminal delivered `event`: a mouse event moves it
/// to the event's cell, any other event leaves it at `position`.
pub fn track_pointer(position: Position, event: &Event) -> (p: Position)
    ensures
        p == (match *event {
            Event::Mouse(m) => Position { x: m.column, y: m.row },
            _ => position,
        }),
{
    match event {
        Event::Mouse(mouse) => Position { x: mouse.column, y: mouse.row },
        _ => position,
    }
}

/// The pointer the widgets see is the one the terminal tracked up to and including
/// the event they react to, so every event handed to them happens at the cursor.
pub proof fn lemma_tracked_pointer_is_at_event(position: Position, event: Event, cursor: Cursor)
    requires
        cursor.spec_position() == (match event {
            Event::Mouse(m) => Position { x: m.column, y: m.row },
            _ => position,
        }),
    ensures
        event.at_cursor(cursor),
{
}

/// The pointer hovers over an area exactly when it is on one of the area's cells
/// and not on the terminal's outermost ring: neither in its first or last column
/// nor in its first or last row.
pub proof fn lemma_hovering_is_inside_away_from_edge(cursor: Cursor, area: Area)
    ensures
        ({
            let p = cursor.spec_position();
            let s = cursor.spec_terminal_size();
            cursor.hovers(area) <==> (1 <= p.x && p.x + 1 < s.width && 1 <= p.y && p.y + 1 < s.height
                && area.x <= p.x < area.x + area.width && area.y <= p.y < area.y + area.height)
        }),
{
}

} // verus!
