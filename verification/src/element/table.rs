//! How a table reacts to input: which row or column movement an event asks for,
//! which row a click lands on, and when the selection callback fires.
use crate::terminal::{Area, Cursor, Event, KeyCode, MouseButton, MouseEventKind};
use vstd::prelude::*;

verus! {

/// A change of the table's selected cell. Rows are navigated vertically and
/// columns horizontally.
#[derive(Debug, Clone, Copy, PartialEq, Eq)]
pub enum Movement {
    RowPrevious,
    RowNext,
    RowAt(usize),
    ColumnPrevious,
    ColumnNext,
}

impl Movement {
    /// The movement selects another row (and so, possibly, another item).
    pub open spec fn spec_changes_row(self) -> bool {
        match self {
            Movement::RowPrevious | Movement::RowNext | Movement::RowAt(_) => true,
            Movement::ColumnPrevious | Movement::ColumnNext => false,
        }
    }

    /// Whether the movement selects another row.
    pub fn changes_row(&self) -> (r: bool)
        ensures
            r == self.spec_changes_row(),
    {
        match self {
            Movement::RowPrevious | Movement::RowNext | Movement::RowAt(_) => true,
            Movement::ColumnPrevious | Movement::ColumnNext => false,
        }
    }
}

/// The number of lines rows `from` up to (not including) `to` take.
pub open spec fn lines(heights: Seq<u16>, from: int, to: int) -> int
    decreases to - from,
{
    if to <= from {
        0
    } else {
        lines(heights, from, to - 1) + heights[to - 1]
    }
}

/// Walks the rows from row `i` on, `acc` lines having been passed already, and gives
/// the first row whose last line is past line `click`.
pub open spec fn row_from(heights: Seq<u16>, i: int, acc: int, click: int) -> Option<int>
    decreases heights.len() - i,
{
    if i < 0 || i >= heights.len() {
        None
    } else if click < acc + heights[i] {
        Some(i)
    } else {
        row_from(heights, i + 1, acc + heights[i], click)
    }
}

/// The row that line `click` of the table's body shows, the first shown row being
/// row `offset`; rows may span several lines.
pub open spec fn row_at(heights: Seq<u16>, offset: int, click: int) -> Option<int> {
    row_from(heights, offset, 0, click)
}

/// The row that line `click` of the table's body shows, when row `offset` is the
/// first one shown and row `i` takes `heights[i]` lines.
pub fn clicked_row(heights: &Vec<u16>, offset: usize, click: usize) -> (r: Option<usize>)
    requires
        click <= u16::MAX,
    ensures
        match r {
            Some(i) => row_at(heights@, offset as int, click as int) == Some(i as int),
            None => row_at(heights@, offset as int, click as int) is None,
        },
{
    let mut index = offset;
    let mut item_height: usize = 0;
    while index < heights.len()
        invariant
            item_height <= click,
            click <= u16::MAX,
            row_at(heights@, offset as int, click as int) == row_from(
                heights@,
                index as int,
                item_height as int,
                click as int,
            ),
        decreases heights.len() - index,
    {
        item_height = item_height + heights[index] as usize;
        if click < item_height {
            return Some(index);
        }
        index = index + 1;
    }
    None
}

/// The movement that `event` asks of a table: arrow keys move between rows and
/// columns, the wheel moves between rows, and a left click on the table's body
/// (in `items_area`) selects the row under the pointer, if any.
pub open spec fn requested_movement(
    cursor: Cursor,
    items_area: Area,
    event: Event,
    heights: Seq<u16>,
    offset: int,
) -> Option<Movement> {
    match event {
        Event::Key(KeyCode::Up) => Some(Movement::RowPrevious),
        Event::Key(KeyCode::Down) => Some(Movement::RowNext),
        Event::Key(KeyCode::Left) => Some(Movement::ColumnPrevious),
        Event::Key(KeyCode::Right) => Some(Movement::ColumnNext),
        Event::Mouse(m) => match m.kind {
            MouseEventKind::Up(MouseButton::Left) => if cursor.hovers(items_area) {
                match row_at(heights, offset, m.row - items_area.y) {
                    Some(i) => Some(Movement::RowAt(i as usize)),
                    None => None,
                }
            } else {
                None
            },
            MouseEventKind::ScrollUp => Some(Movement::RowPrevious),
            MouseEventKind::ScrollDown => Some(Movement::RowNext),
            _ => None,
        },
        _ => None,
    }
}

/// The movement a table in `area`, with its body in `items_area`, performs when
/// `event` arrives: none unless the pointer hovers over the table.
pub fn movement(
    cursor: &Cursor,
    area: Area,
    items_area: Area,
    event: &Event,
    heights: &Vec<u16>,
    offset: usize,
) -> (r: Option<Movement>)
    requires
        area.fits(),
        items_area.fits(),
        event.at_cursor(*cursor),
    ensures
        r == (if cursor.hovers(area) {
            requested_movement(*cursor, items_area, *event, heights@, offset as int)
        } else {
            None
        }),
{
    if !cursor.is_hovering(area) {
        return None;
    }
    match event {
        Event::Key(key) => match key {
            KeyCode::Up => Some(Movement::RowPrevious),
            KeyCode::Down => Some(Movement::RowNext),
            KeyCode::Left => Some(Movement::ColumnPrevious),
            KeyCode::Right => Some(Movement::ColumnNext),
            _ => None,
        },
        Event::Mouse(mouse_event) => match mouse_event.kind {
            MouseEventKind::Up(MouseButton::Left) => {
                if cursor.is_hovering(items_area) {
                    let click_position = (mouse_event.row - items_area.y) as usize;
                    match clicked_row(heights, offset, click_position) {
                        Some(index) => Some(Movement::RowAt(index)),
                        None => None,
                    }
                } else {
                    None
                }
            },
            MouseEventKind::ScrollUp => Some(Movement::RowPrevious),
            MouseEventKind::ScrollDown => Some(Movement::RowNext),
            _ => None,
        },
        _ => None,
    }
}

/// The item whose callback fires after `movement`: only a movement that changes
/// the row publishes, and then as a list does.
pub open spec fn spec_published_row(
    movement: Movement,
    has_callback: bool,
    selected: Option<usize>,
    len: usize,
) -> Option<usize> {
    if movement.spec_changes_row() {
        crate::element::list::spec_published_item(has_callback, selected, len)
    } else {
        None
    }
}

/// The item whose callback fires after `movement` was applied and `selected` is the
/// selected row.
pub fn published_row(movement: &Movement, has_callback: bool, selected: Option<usize>, len: usize) -> (r: Option<usize>)
    ensures
        r == spec_published_row(*movement, has_callback, selected, len),
{
    if movement.changes_row() {
        crate::element::list::published_item(has_callback, selected, len)
    } else {
        None
    }
}

proof fn lemma_lines_monotone(heights: Seq<u16>, from: int, a: int, b: int)
    requires
        from <= a <= b,
    ensures
        lines(heights, from, a) <= lines(heights, from, b),
    decreases b - a,
{
    if a < b {
        lemma_lines_monotone(heights, from, a, b - 1);
    }
}

proof fn lemma_row_from_spans(heights: Seq<u16>, offset: int, j: int, click: int, i: int)
    requires
        0 <= offset <= j,
        lines(heights, offset, j) <= click,
    ensures
        row_from(heights, j, lines(heights, offset, j), click) == Some(i) <==> (j <= i < heights.len()
            && lines(heights, offset, i) <= click < lines(heights, offset, i + 1)),
    decreases heights.len() - j,
{
    if j < heights.len() {
        let acc = lines(heights, offset, j);
        assert(lines(heights, offset, j + 1) == acc + heights[j]);
        if j + 1 <= i {
            lemma_lines_monotone(heights, offset, j + 1, i);
        }
        if click >= acc + heights[j] {
            lemma_row_from_spans(heights, offset, j + 1, click, i);
        }
    }
}

/// A click on line `click` of a table's body selects the row whose lines cover
/// that line: row `i` is selected exactly when it is shown (`offset <= i`), exists,
/// and the rows shown before it take at most `click` lines while the rows up to and
/// including it take more. A click below the last row selects nothing.
pub proof fn lemma_click_selects_row_under_pointer(heights: Seq<u16>, offset: int, click: int, i: int)
    requires
        offset >= 0,
        click >= 0,
    ensures
        row_at(heights, offset, click) == Some(i) <==> (offset <= i < heights.len()
            && lines(heights, offset, i) <= click < lines(heights, offset, i + 1)),
{
    lemma_row_from_spans(heights, offset, offset, click, i);
}

/// Moving between columns never fires the selection callback: the selected item
/// can only change with the row.
pub proof fn lemma_column_moves_publish_nothing(
    movement: Movement,
    has_callback: bool,
    selected: Option<usize>,
    len: usize,
)
    requires
        !movement.spec_changes_row(),
    ensures
        spec_published_row(movement, has_callback, selected, len) is None,
{
}

/// A left click on the table's body selects the row shown on the clicked line,
/// counting from the first shown row `offset`: row `i` is selected exactly when it
/// is shown and its lines cover the clicked line `m.row - items_area.y`, the rows
/// shown before it taking at most that many lines.
pub proof fn lemma_click_selects_shown_row(
    cursor: Cursor,
    items_area: Area,
    m: crate::terminal::MouseEvent,
    heights: Seq<u16>,
    offset: int,
    i: usize,
)
    requires
        m.kind == MouseEventKind::Up(MouseButton::Left),
        cursor.hovers(items_area),
        items_area.y <= m.row,
        0 <= offset,
        heights.len() <= usize::MAX,
    ensures
        requested_movement(cursor, items_area, Event::Mouse(m), heights, offset) == Some(Movement::RowAt(i))
            <==> (offset <= i < heights.len() && lines(heights, offset, i as int) <= m.row - items_area.y
            < lines(heights, offset, i + 1)),
{
    let click = m.row - items_area.y;
    lemma_click_selects_row_under_pointer(heights, offset, click, i as int);
    if requested_movement(cursor, items_area, Event::Mouse(m), heights, offset) == Some(Movement::RowAt(i)) {
        let j = row_at(heights, offset, click)->0;
        lemma_click_selects_row_under_pointer(heights, offset, click, j);
        assert(j as usize == i);
        assert(j == i);
    }
}

proof fn lemma_unit_lines(heights: Seq<u16>, from: int, to: int)
    requires
        0 <= from <= to <= heights.len(),
        forall|j: int| from <= j < to ==> heights[j] == 1,
    ensures
        lines(heights, from, to) == to - from,
    decreases to - from,
{
    if from < to {
        lemma_unit_lines(heights, from, to - 1);
    }
}

/// When every row takes one line, a left click on line `k` of the body selects row
/// `offset + k`, the row shown there, as long as that row exists.
pub proof fn lemma_click_on_unit_rows(
    cursor: Cursor,
    items_area: Area,
    m: crate::terminal::MouseEvent,
    heights: Seq<u16>,
    offset: usize,
)
    requires
        m.kind == MouseEventKind::Up(MouseButton::Left),
        cursor.hovers(items_area),
        items_area.y <= m.row,
        heights.len() <= usize::MAX,
        forall|j: int| 0 <= j < heights.len() ==> heights[j] == 1,
        offset + (m.row - items_area.y) < heights.len(),
    ensures
        requested_movement(cursor, items_area, Event::Mouse(m), heights, offset as int)
            == Some(Movement::RowAt((offset + (m.row - items_area.y)) as usize)),
{
    let k = m.row - items_area.y;
    let i = (offset + k) as usize;
    lemma_unit_lines(heights, offset as int, i as int);
    lemma_unit_lines(heights, offset as int, i + 1);
    lemma_click_selects_shown_row(cursor, items_area, m, heights, offset as int, i);
}

/// Every row movement (up, down, or a click on a row) fires the selection callback
/// with the row now selected, if the table has a callback and that row exists.
pub proof fn lemma_row_moves_publish_selected_row(movement: Movement, selected: usize, len: usize)
    requires
        movement is RowPrevious || movement is RowNext || movement is RowAt,
        selected < len,
    ensures
        spec_published_row(movement, true, Some(selected), len) == Some(selected),
        spec_published_row(movement, false, Some(selected), len) is None,
{
}

/// Column movements never fire the selection callback, whatever is selected.
pub proof fn lemma_column_moves_never_publish(
    movement: Movement,
    has_callback: bool,
    selected: Option<usize>,
    len: usize,
)
    requires
        movement is ColumnPrevious || movement is ColumnNext,
    ensures
        spec_published_row(movement, has_callback, selected, len) is None,
{
}

/// Up and down keys move one row back and forth, left and right keys one column,
/// and the wheel moves between rows as the up and down keys do; no other key moves
/// anything.
pub proof fn lemma_keys_and_wheel_move_in_their_direction(
    cursor: Cursor,
    items_area: Area,
    heights: Seq<u16>,
    offset: int,
    k: KeyCode,
    m: crate::terminal::MouseEvent,
)
    ensures
        requested_movement(cursor, items_area, Event::Key(KeyCode::Up), heights, offset) == Some(Movement::RowPrevious),
        requested_movement(cursor, items_area, Event::Key(KeyCode::Down), heights, offset) == Some(Movement::RowNext),
        requested_movement(cursor, items_area, Event::Key(KeyCode::Left), heights, offset) == Some(Movement::ColumnPrevious),
        requested_movement(cursor, items_area, Event::Key(KeyCode::Right), heights, offset) == Some(Movement::ColumnNext),
        requested_movement(cursor, items_area, Event::Key(KeyCode::Other), heights, offset) is None,
        m.kind == MouseEventKind::ScrollUp ==> requested_movement(cursor, items_area, Event::Mouse(m), heights, offset)
            == requested_movement(cursor, items_area, Event::Key(KeyCode::Up), heights, offset),
        m.kind == MouseEventKind::ScrollDown ==> requested_movement(cursor, items_area, Event::Mouse(m), heights, offset)
            == requested_movement(cursor, items_area, Event::Key(KeyCode::Down), heights, offset),
{
}

} // verus!
