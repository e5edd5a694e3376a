//! The pointer: reports for the application, selection and scrolling for the user.

use vstd::prelude::*;
use vstd::string::*;

use crate::terminal::input::{
    encode_mouse, mouse_bytes, Modifiers, MouseButton, MouseInput, MouseKind,
};
use crate::terminal::types::{
    cell_views, CellPoint, CellRange, FrameView, RenderCell, RenderCellView, TerminalFrame,
    TerminalModes, TerminalSize,
};
use crate::text::{blank, is_blank, white_space};

verus! {

/// The first cell in the given place.
pub open spec fn cell_at(cells: Seq<RenderCellView>, row: int, column: int) -> Option<RenderCellView>
    decreases cells.len(),
{
    if cells.len() == 0 {
        None
    } else if cells[0].row == row && cells[0].column == column {
        Some(cells[0])
    } else {
        cell_at(cells.skip(1), row, column)
    }
}

/// Whether the cell in the given place belongs to a word: it holds more than white space.
pub open spec fn is_word(cells: Seq<RenderCellView>, row: int, column: int) -> bool {
    match cell_at(cells, row, column) {
        Some(cell) => !blank(cell.text),
        None => false,
    }
}

/// Where the word around `column` starts.
pub open spec fn word_start(cells: Seq<RenderCellView>, row: int, column: int) -> int
    decreases column,
{
    if column > 0 && is_word(cells, row, column - 1) {
        word_start(cells, row, column - 1)
    } else {
        column
    }
}

/// Where the word around `column` ends on a screen with so many columns.
pub open spec fn word_end(cells: Seq<RenderCellView>, row: int, column: int, columns: int) -> int
    decreases columns - column,
{
    if column + 1 < columns && is_word(cells, row, column + 1) {
        word_end(cells, row, column + 1, columns)
    } else {
        column
    }
}

fn holds_word(cells: &Vec<RenderCell>, row: usize, column: usize) -> (res: bool)
    ensures
        res == is_word(cell_views(cells@), row as int, column as int),
{
    let ghost views = cell_views(cells@);
    let mut i: usize = 0;
    proof {
        assert(views.skip(0) =~= views);
    }
    while i < cells.len()
        invariant
            i <= cells.len(),
            views == cell_views(cells@),
            cell_at(views, row as int, column as int) == cell_at(
                views.skip(i as int),
                row as int,
                column as int,
            ),
        decreases cells.len() - i,
    {
        proof {
            assert(views.skip(i as int)[0] == cells@[i as int]@);
            assert(views.skip(i as int).skip(1) =~= views.skip(i + 1));
        }
        if cells[i].row == row && cells[i].column == column {
            return !is_blank(cells[i].text.as_str());
        }
        i = i + 1;
    }
    false
}

/// The word around a point. Its row is searched in both directions for the nearest white space.
pub fn semantic_range(frame: &TerminalFrame, point: CellPoint) -> (res: CellRange)
    ensures
        res.start.row == point.row,
        res.end.row == point.row,
        res.start.column == word_start(frame@.cells, point.row as int, point.column as int),
        res.end.column == word_end(
            frame@.cells,
            point.row as int,
            point.column as int,
            frame.size.columns as int,
        ),
{
    let ghost views = frame@.cells;
    let mut start: usize = point.column;
    while start > 0 && holds_word(&frame.cells, point.row, start - 1)
        invariant
            views == cell_views(frame.cells@),
            word_start(views, point.row as int, point.column as int) == word_start(
                views,
                point.row as int,
                start as int,
            ),
        decreases start,
    {
        start = start - 1;
    }
    let mut end: usize = point.column;
    while end < usize::MAX && end + 1 < frame.size.columns && holds_word(
        &frame.cells,
        point.row,
        end + 1,
    )
        invariant
            views == cell_views(frame.cells@),
            word_end(
                views,
                point.row as int,
                point.column as int,
                frame.size.columns as int,
            ) == word_end(views, point.row as int, end as int, frame.size.columns as int),
        decreases usize::MAX - end,
    {
        end = end + 1;
    }
    CellRange {
        start: CellPoint { row: point.row, column: start },
        end: CellPoint { row: point.row, column: end },
    }
}

/// A word holds no white space but where the user pointed at some, and it cannot be any longer.
pub proof fn law_word_is_maximal(cells: Seq<RenderCellView>, row: int, column: int, columns: int)
    requires
        0 <= column < columns,
    ensures
        0 <= word_start(cells, row, column) <= column <= word_end(cells, row, column, columns)
            < columns,
        forall|c: int|
            word_start(cells, row, column) <= c <= word_end(cells, row, column, columns) && c
                != column ==> #[trigger] is_word(cells, row, c),
        word_start(cells, row, column) > 0 ==> !is_word(
            cells,
            row,
            word_start(cells, row, column) - 1,
        ),
        word_end(cells, row, column, columns) + 1 < columns ==> !is_word(
            cells,
            row,
            word_end(cells, row, column, columns) + 1,
        ),
{
    lemma_word_start(cells, row, column);
    lemma_word_end(cells, row, column, columns);
}

proof fn lemma_word_start(cells: Seq<RenderCellView>, row: int, column: int)
    requires
        0 <= column,
    ensures
        0 <= word_start(cells, row, column) <= column,
        forall|c: int|
            word_start(cells, row, column) <= c < column ==> #[trigger] is_word(cells, row, c),
        word_start(cells, row, column) > 0 ==> !is_word(
            cells,
            row,
            word_start(cells, row, column) - 1,
        ),
    decreases column,
{
    if column > 0 && is_word(cells, row, column - 1) {
        lemma_word_start(cells, row, column - 1);
    }
}

proof fn lemma_word_end(cells: Seq<RenderCellView>, row: int, column: int, columns: int)
    requires
        column < columns,
    ensures
        column <= word_end(cells, row, column, columns) < columns,
        forall|c: int|
            column < c <= word_end(cells, row, column, columns) ==> #[trigger] is_word(
                cells,
                row,
                c,
            ),
        word_end(cells, row, column, columns) + 1 < columns ==> !is_word(
            cells,
            row,
            word_end(cells, row, column, columns) + 1,
        ),
    decreases columns - column,
{
    if column + 1 < columns && is_word(cells, row, column + 1) {
        lemma_word_end(cells, row, column + 1, columns);
    }
}

/// What a press selects: one click a cell, two a word, three a line.
pub open spec fn click_selection(
    cells: Seq<RenderCellView>,
    columns: usize,
    point: CellPoint,
    count: u8,
) -> CellRange {
    if count >= 3 {
        CellRange {
            start: CellPoint { row: point.row, column: 0 },
            end: CellPoint {
                row: point.row,
                column: if columns > 0 {
                    (columns - 1) as usize
                } else {
                    0
                },
            },
        }
    } else if count == 2 {
        CellRange {
            start: CellPoint {
                row: point.row,
                column: word_start(cells, point.row as int, point.column as int) as usize,
            },
            end: CellPoint {
                row: point.row,
                column: word_end(
                    cells,
                    point.row as int,
                    point.column as int,
                    columns as int,
                ) as usize,
            },
        }
    } else {
        CellRange { start: point, end: point }
    }
}

/// What a press selects: one click a cell, two a word, three a line.
pub fn select_by_click(frame: &TerminalFrame, point: CellPoint, count: u8) -> (res: CellRange)
    ensures
        res == click_selection(frame@.cells, frame.size.columns, point, count),
{
    if count >= 3 {
        let last: usize = if frame.size.columns > 0 {
            frame.size.columns - 1
        } else {
            0
        };
        CellRange {
            start: CellPoint { row: point.row, column: 0 },
            end: CellPoint { row: point.row, column: last },
        }
    } else if count == 2 {
        semantic_range(frame, point)
    } else {
        CellRange { start: point, end: point }
    }
}

/// Whether the pointer belongs to the application: it asked for reports, and the user does not
/// hold Shift to take the pointer back.
pub open spec fn reported(modes: TerminalModes, modifiers: Modifiers) -> bool {
    modes.mouse_tracking && !modifiers.shift
}

/// What the pointer is doing.
#[derive(Clone, Copy, Debug, Eq, PartialEq, Structural)]
pub struct PointerState {
    pub selecting: bool,
    pub selection_start: CellPoint,
    pub button: MouseButton,
}

/// What is to be done about an event of the pointer.
#[derive(Clone, Debug, Eq, PartialEq)]
pub enum PointerAction {
    Send(Vec<u8>),
    Select(CellRange),
    CopySelection,
    Scroll(i32),
    Nothing,
}

/// Whether `action` tells the application of a mouse event at `point`.
pub open spec fn tells(
    action: PointerAction,
    kind: MouseKind,
    button: MouseButton,
    point: CellPoint,
    modifiers: Modifiers,
    modes: TerminalModes,
) -> bool {
    action matches PointerAction::Send(bytes) && bytes@ == mouse_bytes(
        MouseInput { kind, button, row: point.row, column: point.column, modifiers },
        modes,
    )
}

/// Whether pressing a button, the `count`th time in quick succession, leads from `before` to `after`
/// and to `action`: the application is told where the pointer is its own, else something is
/// selected.
pub open spec fn press_leads_to(
    before: PointerState,
    frame: FrameView,
    point: CellPoint,
    button: MouseButton,
    count: u8,
    modifiers: Modifiers,
    after: PointerState,
    action: PointerAction,
) -> bool {
    if reported(frame.modes, modifiers) {
        &&& after == (PointerState { button, ..before })
        &&& tells(action, MouseKind::Press, button, point, modifiers, frame.modes)
    } else {
        let range = click_selection(frame.cells, frame.size.columns, point, count);
        &&& after == (PointerState {
            selecting: count == 1,
            selection_start: range.start,
            ..before
        })
        &&& action == PointerAction::Select(range)
    }
}

/// Whether moving the pointer leads to `action`: while the user selects, the selection follows it.
pub open spec fn move_leads_to(
    state: PointerState,
    modes: TerminalModes,
    point: CellPoint,
    modifiers: Modifiers,
    action: PointerAction,
) -> bool {
    if state.selecting {
        action == PointerAction::Select(CellRange { start: state.selection_start, end: point })
    } else if reported(modes, modifiers) {
        tells(action, MouseKind::Move, state.button, point, modifiers, modes)
    } else {
        action is Nothing
    }
}

/// Whether releasing the button leads from `before` to `after` and to `action`.
pub open spec fn release_leads_to(
    before: PointerState,
    modes: TerminalModes,
    point: CellPoint,
    modifiers: Modifiers,
    copy_on_select: bool,
    after: PointerState,
    action: PointerAction,
) -> bool {
    if reported(modes, modifiers) {
        &&& after == (PointerState { button: MouseButton::NoButton, ..before })
        &&& tells(action, MouseKind::Release, before.button, point, modifiers, modes)
    } else {
        &&& after == (PointerState { selecting: false, ..before })
        &&& action == if copy_on_select {
            PointerAction::CopySelection
        } else {
            PointerAction::Nothing
        }
    }
}

/// Whether turning the wheel by so many lines leads to `action`.
pub open spec fn wheel_leads_to(
    modes: TerminalModes,
    point: CellPoint,
    modifiers: Modifiers,
    upward: bool,
    lines: i32,
    action: PointerAction,
) -> bool {
    if reported(modes, modifiers) {
        tells(
            action,
            if upward {
                MouseKind::WheelUp
            } else {
                MouseKind::WheelDown
            },
            MouseButton::NoButton,
            point,
            modifiers,
            modes,
        )
    } else if lines != 0 {
        action == PointerAction::Scroll(lines)
    } else {
        action is Nothing
    }
}

fn report(
    kind: MouseKind,
    button: MouseButton,
    point: CellPoint,
    modifiers: Modifiers,
    modes: TerminalModes,
) -> (res: PointerAction)
    requires
        point.row < usize::MAX,
        point.column < usize::MAX,
    ensures
        tells(res, kind, button, point, modifiers, modes),
{
    PointerAction::Send(
        encode_mouse(
            MouseInput { kind, button, row: point.row, column: point.column, modifiers },
            modes,
        ),
    )
}

impl PointerState {
    pub fn new() -> (res: Self)
        ensures
            !res.selecting,
            res.selection_start == (CellPoint { row: 0, column: 0 }),
            res.button == MouseButton::NoButton,
    {
        PointerState {
            selecting: false,
            selection_start: CellPoint { row: 0, column: 0 },
            button: MouseButton::NoButton,
        }
    }

    /// A button went down, the `count`th time in quick succession.
    pub fn pressed(
        &mut self,
        frame: &TerminalFrame,
        point: CellPoint,
        button: MouseButton,
        count: u8,
        modifiers: Modifiers,
    ) -> (res: PointerAction)
        requires
            point.row < usize::MAX,
            point.column < usize::MAX,
        ensures
            press_leads_to(
                *old(self),
                frame@,
                point,
                button,
                count,
                modifiers,
                *final(self),
                res,
            ),
    {
        if frame.modes.mouse_tracking && !modifiers.shift {
            self.button = button;
            return report(MouseKind::Press, button, point, modifiers, frame.modes);
        }
        let range = select_by_click(frame, point, count);
        self.selection_start = range.start;
        self.selecting = count == 1;
        PointerAction::Select(range)
    }

    /// The pointer moved. While the user selects, the selection follows it.
    pub fn moved(&self, modes: TerminalModes, point: CellPoint, modifiers: Modifiers) -> (res:
        PointerAction)
        requires
            point.row < usize::MAX,
            point.column < usize::MAX,
        ensures
            move_leads_to(*self, modes, point, modifiers, res),
    {
        if self.selecting {
            PointerAction::Select(CellRange { start: self.selection_start, end: point })
        } else if modes.mouse_tracking && !modifiers.shift {
            report(MouseKind::Move, self.button, point, modifiers, modes)
        } else {
            PointerAction::Nothing
        }
    }

    /// A button went up. What was selected is copied only where the user wants it to be.
    pub fn released(
        &mut self,
        modes: TerminalModes,
        point: CellPoint,
        modifiers: Modifiers,
        copy_on_select: bool,
    ) -> (res: PointerAction)
        requires
            point.row < usize::MAX,
            point.column < usize::MAX,
        ensures
            release_leads_to(
                *old(self),
                modes,
                point,
                modifiers,
                copy_on_select,
                *final(self),
                res,
            ),
    {
        if modes.mouse_tracking && !modifiers.shift {
            let button = self.button;
            self.button = MouseButton::NoButton;
            return report(MouseKind::Release, button, point, modifiers, modes);
        }
        self.selecting = false;
        if copy_on_select {
            PointerAction::CopySelection
        } else {
            PointerAction::Nothing
        }
    }
}

/// The wheel turned, upward or downward, by so many lines.
pub fn wheel_turned(
    modes: TerminalModes,
    point: CellPoint,
    modifiers: Modifiers,
    upward: bool,
    lines: i32,
) -> (res: PointerAction)
    requires
        point.row < usize::MAX,
        point.column < usize::MAX,
    ensures
        wheel_leads_to(modes, point, modifiers, upward, lines, res),
{
    if modes.mouse_tracking && !modifiers.shift {
        let kind = if upward {
            MouseKind::WheelUp
        } else {
            MouseKind::WheelDown
        };
        report(kind, MouseButton::NoButton, point, modifiers, modes)
    } else if lines != 0 {
        PointerAction::Scroll(lines)
    } else {
        PointerAction::Nothing
    }
}

/// The number below `limit` that is nearest to `value`; zero where there is none.
pub open spec fn nearest_below(value: int, limit: int) -> int {
    if value < limit {
        value
    } else if limit > 0 {
        limit - 1
    } else {
        0
    }
}

/// The place on the screen that is nearest to a row and a column.
pub fn nearest_cell(row: usize, column: usize, size: TerminalSize) -> (res: CellPoint)
    ensures
        res.row == nearest_below(row as int, size.lines as int),
        res.column == nearest_below(column as int, size.columns as int),
{
    CellPoint {
        row: if row < size.lines {
            row
        } else if size.lines > 0 {
            size.lines - 1
        } else {
            0
        },
        column: if column < size.columns {
            column
        } else if size.columns > 0 {
            size.columns - 1
        } else {
            0
        },
    }
}

/// The smallest number of columns and of lines that the window gives the terminal.
pub const MIN_WINDOW_CELLS: usize = 2;

/// As many cells as fit, but never fewer than the smallest number.
pub open spec fn fitting_cells(count: usize) -> usize {
    if count < MIN_WINDOW_CELLS {
        MIN_WINDOW_CELLS
    } else {
        count
    }
}

/// The size of the terminal in a window with room for so many columns and lines.
pub fn window_size(columns: usize, lines: usize) -> (res: TerminalSize)
    ensures
        res.columns == fitting_cells(columns),
        res.lines == fitting_cells(lines),
{
    TerminalSize::new(
        if columns < MIN_WINDOW_CELLS {
            MIN_WINDOW_CELLS
        } else {
            columns
        },
        if lines < MIN_WINDOW_CELLS {
            MIN_WINDOW_CELLS
        } else {
            lines
        },
    )
}

/// Holding Shift keeps the pointer for the user: nothing is sent to the application.
pub proof fn law_shift_keeps_the_pointer(modes: TerminalModes, modifiers: Modifiers)
    requires
        modifiers.shift,
    ensures
        !reported(modes, modifiers),
{
}

/// The button of a pointer that has a primary, an auxiliary and a secondary one.
pub open spec fn button_meant(primary: bool, auxiliary: bool, secondary: bool) -> MouseButton {
    if primary {
        MouseButton::Left
    } else if auxiliary {
        MouseButton::Middle
    } else if secondary {
        MouseButton::Right
    } else {
        MouseButton::NoButton
    }
}

/// The button of a pointer that has a primary, an auxiliary and a secondary one.
pub fn button_from(primary: bool, auxiliary: bool, secondary: bool) -> (res: MouseButton)
    ensures
        res == button_meant(primary, auxiliary, secondary),
{
    if primary {
        MouseButton::Left
    } else if auxiliary {
        MouseButton::Middle
    } else if secondary {
        MouseButton::Right
    } else {
        MouseButton::NoButton
    }
}

/// The primary button is the left one, the auxiliary one the middle one, and the secondary one the
/// right one; without any there is none.
pub proof fn law_buttons_are_told_apart(primary: bool, auxiliary: bool, secondary: bool)
    ensures
        ({
            let button = button_meant(primary, auxiliary, secondary);
            &&& button is Left <==> primary
            &&& button is Middle <==> auxiliary && !primary
            &&& button is Right <==> secondary && !auxiliary && !primary
            &&& button is NoButton <==> !primary && !auxiliary && !secondary
        }),
{
}

/// A place on the screen is its own nearest place, and the nearest place to any other is the last
/// one.
pub proof fn law_nearest_place_is_on_the_screen(value: int, limit: int)
    requires
        0 <= value,
        0 < limit,
    ensures
        0 <= nearest_below(value, limit) < limit,
        value < limit ==> nearest_below(value, limit) == value,
        value >= limit ==> nearest_below(value, limit) + 1 == limit,
{
}

/// The terminal takes all the room that there is, and at least two columns and two lines.
pub proof fn law_terminal_fills_the_window(count: usize)
    ensures
        fitting_cells(count) >= 2,
        fitting_cells(count) >= count,
        count >= 2 ==> fitting_cells(count) == count,
{
}

/// The cell in a place is one of the frame that stands there, and there is none where no cell of the
/// frame does.
pub proof fn law_cell_stands_in_its_place(cells: Seq<RenderCellView>, row: int, column: int)
    ensures
        match cell_at(cells, row, column) {
            Some(cell) => cells.contains(cell) && cell.row == row && cell.column == column,
            None => forall|i: int|
                0 <= i < cells.len() ==> (#[trigger] cells[i]).row != row || cells[i].column
                    != column,
        },
    decreases cells.len(),
{
    if cells.len() > 0 && !(cells[0].row == row && cells[0].column == column) {
        let rest = cells.skip(1);
        law_cell_stands_in_its_place(rest, row, column);
        if let Some(cell) = cell_at(rest, row, column) {
            let i = choose|i: int| 0 <= i < rest.len() && rest[i] == cell;
            assert(cells[i + 1] == cell);
        } else {
            assert forall|i: int| 0 <= i < cells.len() implies (#[trigger] cells[i]).row != row
                || cells[i].column != column by {
                if i > 0 {
                    assert(rest[i - 1] == cells[i]);
                }
            }
        }
    }
}

/// A cell belongs to a word if and only if it shows something besides white space.
pub proof fn law_words_are_what_can_be_seen(cells: Seq<RenderCellView>, row: int, column: int)
    ensures
        is_word(cells, row, column) <==> (cell_at(cells, row, column) matches Some(cell) && exists|
            i: int,
        |
            0 <= i < cell.text.len() && !white_space(#[trigger] cell.text[i])),
{
}

/// One click selects the cell under the pointer, two the word around it, and three or more its whole
/// row. What is selected always lies in the row of the pointer and holds its cell.
pub proof fn law_clicks_select_around_the_pointer(
    cells: Seq<RenderCellView>,
    columns: usize,
    point: CellPoint,
    count: u8,
)
    requires
        point.column < columns,
    ensures
        ({
            let range = click_selection(cells, columns, point, count);
            &&& range.start.row == point.row
            &&& range.end.row == point.row
            &&& range.start.column <= point.column <= range.end.column < columns
            &&& count <= 1 ==> range.start == point && range.end == point
            &&& count >= 3 ==> range.start.column == 0 && range.end.column + 1 == columns
            &&& count == 2 ==> forall|c: int|
                range.start.column <= c <= range.end.column && c != point.column
                    ==> #[trigger] is_word(cells, point.row as int, c)
            &&& count == 2 && range.start.column > 0 ==> !is_word(
                cells,
                point.row as int,
                range.start.column - 1,
            )
            &&& count == 2 && range.end.column + 1 < columns ==> !is_word(
                cells,
                point.row as int,
                range.end.column + 1,
            )
        }),
{
    law_word_is_maximal(cells, point.row as int, point.column as int, columns as int);
}

/// The pointer belongs to the application if and only if it asked for reports and Shift is not held.
pub proof fn law_application_gets_the_pointer_on_request(modes: TerminalModes, modifiers: Modifiers)
    ensures
        reported(modes, modifiers) <==> modes.mouse_tracking && !modifiers.shift,
{
}

/// Dragging selects from where the button went down to where the pointer is. Once the button is up
/// the selection stays, and is copied only where the user wants that.
pub proof fn law_dragging_selects(
    before: PointerState,
    frame: FrameView,
    from: CellPoint,
    to: CellPoint,
    later: CellPoint,
    button: MouseButton,
    modifiers: Modifiers,
    pressed: PointerState,
    on_press: PointerAction,
    on_move: PointerAction,
    released: PointerState,
    copy_on_select: bool,
    on_release: PointerAction,
    on_later_move: PointerAction,
)
    requires
        !frame.modes.mouse_tracking || modifiers.shift,
        press_leads_to(before, frame, from, button, 1, modifiers, pressed, on_press),
        move_leads_to(pressed, frame.modes, to, modifiers, on_move),
        release_leads_to(
            pressed,
            frame.modes,
            to,
            modifiers,
            copy_on_select,
            released,
            on_release,
        ),
        move_leads_to(released, frame.modes, later, modifiers, on_later_move),
    ensures
        on_press == PointerAction::Select(CellRange { start: from, end: from }),
        on_move == PointerAction::Select(CellRange { start: from, end: to }),
        copy_on_select ==> on_release is CopySelection,
        !copy_on_select ==> on_release is Nothing,
        on_later_move is Nothing,
{
}

/// The application that asked for reports is told of the button that went down, of moves with that
/// button, and of the release; moves after that are told with no button. What the user had selected
/// does not change.
pub proof fn law_application_is_told_of_the_button(
    before: PointerState,
    frame: FrameView,
    point: CellPoint,
    button: MouseButton,
    count: u8,
    modifiers: Modifiers,
    pressed: PointerState,
    on_press: PointerAction,
    on_move: PointerAction,
    released: PointerState,
    copy_on_select: bool,
    on_release: PointerAction,
    on_later_move: PointerAction,
)
    requires
        !before.selecting,
        frame.modes.mouse_tracking,
        !modifiers.shift,
        press_leads_to(before, frame, point, button, count, modifiers, pressed, on_press),
        move_leads_to(pressed, frame.modes, point, modifiers, on_move),
        release_leads_to(
            pressed,
            frame.modes,
            point,
            modifiers,
            copy_on_select,
            released,
            on_release,
        ),
        move_leads_to(released, frame.modes, point, modifiers, on_later_move),
    ensures
        ({
            let event = |kind: MouseKind, button: MouseButton|
                MouseInput { kind, button, row: point.row, column: point.column, modifiers };
            &&& on_press matches PointerAction::Send(bytes) && bytes@ == mouse_bytes(
                event(MouseKind::Press, button),
                frame.modes,
            )
            &&& on_move matches PointerAction::Send(bytes) && bytes@ == mouse_bytes(
                event(MouseKind::Move, button),
                frame.modes,
            )
            &&& on_release matches PointerAction::Send(bytes) && bytes@ == mouse_bytes(
                event(MouseKind::Release, button),
                frame.modes,
            )
            &&& on_later_move matches PointerAction::Send(bytes) && bytes@ == mouse_bytes(
                event(MouseKind::Move, MouseButton::NoButton),
                frame.modes,
            )
            &&& !released.selecting
            &&& released.selection_start == before.selection_start
        }),
{
}

/// Turning the wheel scrolls by so many lines as it turned, in the same direction. An application
/// that asked for reports is told of the direction instead.
pub proof fn law_wheel_scrolls(
    modes: TerminalModes,
    point: CellPoint,
    modifiers: Modifiers,
    upward: bool,
    lines: i32,
    action: PointerAction,
)
    requires
        wheel_leads_to(modes, point, modifiers, upward, lines, action),
    ensures
        !modes.mouse_tracking || modifiers.shift ==> if lines != 0 {
            action == PointerAction::Scroll(lines)
        } else {
            action is Nothing
        },
        modes.mouse_tracking && !modifiers.shift ==> (action matches PointerAction::Send(bytes)
            && bytes@ == mouse_bytes(
            MouseInput {
                kind: if upward {
                    MouseKind::WheelUp
                } else {
                    MouseKind::WheelDown
                },
                button: MouseButton::NoButton,
                row: point.row,
                column: point.column,
                modifiers,
            },
            modes,
        )),
{
}

} // verus!
