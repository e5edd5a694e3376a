//! The text of a frame, whole or selected.

use vstd::prelude::*;
use vstd::string::*;

use crate::terminal::types::{
    cell_views, ordered_range, reading_order, CellPoint, CellRange, FrameView, RenderCell,
    RenderCellView, TerminalFrame,
};
use crate::text::{trim_end, trim_end_char, trimmed_end, without_trailing};

verus! {

/// The text of the cells of one row between two columns, both included. The second half of a wide
/// character has no text of its own.
pub open spec fn stretch_text(
    cells: Seq<RenderCellView>,
    row: int,
    left: int,
    right: int,
) -> Seq<char>
    decreases cells.len(),
{
    if cells.len() == 0 {
        Seq::empty()
    } else {
        let before = stretch_text(cells.drop_last(), row, left, right);
        let cell = cells.last();
        if cell.row == row && left <= cell.column <= right && !cell.style.wide_spacer {
            before + cell.text
        } else {
            before
        }
    }
}

/// The first `count` rows as lines of text, each without trailing white space.
pub open spec fn joined_rows(cells: Seq<RenderCellView>, count: nat) -> Seq<char>
    decreases count,
{
    if count == 0 {
        Seq::empty()
    } else {
        let before = joined_rows(cells, (count - 1) as nat);
        let line = trimmed_end(stretch_text(cells, count - 1, 0, usize::MAX as int));
        if count == 1 {
            line
        } else {
            before.push('\n') + line
        }
    }
}

/// The text that a frame shows, without empty lines at its end.
pub open spec fn shown_text(frame: FrameView) -> Seq<char> {
    without_trailing(joined_rows(frame.cells, frame.size.lines as nat), '\n')
}

/// The column at which the selected part of `row` starts.
pub open spec fn selection_left(range: CellRange, row: int) -> int {
    if row == range.start.row {
        range.start.column as int
    } else {
        0
    }
}

/// The column at which the selected part of `row` ends.
pub open spec fn selection_right(range: CellRange, columns: int, row: int) -> int {
    if row == range.end.row {
        range.end.column as int
    } else if columns > 0 {
        columns - 1
    } else {
        0
    }
}

/// The selected text of the rows from the first selected one to the one before `end`. Each row is
/// a line without trailing white space, and every row but the last selected one ends in a line
/// break.
pub open spec fn selected_rows(
    cells: Seq<RenderCellView>,
    columns: int,
    range: CellRange,
    end: int,
) -> Seq<char>
    decreases end - range.start.row,
{
    if end <= range.start.row {
        Seq::empty()
    } else {
        let row = end - 1;
        let before = selected_rows(cells, columns, range, row);
        let line = trimmed_end(
            stretch_text(
                cells,
                row,
                selection_left(range, row),
                selection_right(range, columns, row),
            ),
        );
        if row < range.end.row {
            (before + line).push('\n')
        } else {
            before + line
        }
    }
}

/// The row behind the last selected row that a frame with so many lines shows.
pub open spec fn selection_end(range: CellRange, lines: int) -> int {
    let last_line = if lines > 0 {
        lines - 1
    } else {
        0
    };
    if range.end.row < last_line {
        range.end.row + 1
    } else {
        last_line + 1
    }
}

/// The text between the two ends of `range`.
pub open spec fn selected_text(frame: FrameView, range: CellRange) -> Seq<char> {
    let ordered = ordered_range(range);
    selected_rows(
        frame.cells,
        frame.size.columns as int,
        ordered,
        selection_end(ordered, frame.size.lines as int),
    )
}

/// The text of the cells of one row between two columns, both included.
fn stretch(cells: &Vec<RenderCell>, row: usize, left: usize, right: usize) -> (res: String)
    ensures
        res@ == stretch_text(cell_views(cells@), row as int, left as int, right as int),
{
    let ghost views = cell_views(cells@);
    let mut line = String::new();
    let mut i: usize = 0;
    while i < cells.len()
        invariant
            i <= cells.len(),
            views == cell_views(cells@),
            line@ == stretch_text(views.take(i as int), row as int, left as int, right as int),
        decreases cells.len() - i,
    {
        proof {
            assert(views.take(i + 1).drop_last() =~= views.take(i as int));
            assert(views[i as int] == cells@[i as int]@);
        }
        let cell = &cells[i];
        if cell.row == row && cell.column >= left && cell.column <= right
            && !cell.style.wide_spacer {
            line.append(cell.text.as_str());
        }
        i = i + 1;
    }
    assert(views.take(i as int) =~= views);
    line
}

/// The text that a frame shows, without empty lines at its end.
pub fn frame_text(frame: &TerminalFrame) -> (res: String)
    ensures
        res@ == shown_text(frame@),
{
    let mut output = String::new();
    let mut row: usize = 0;
    while row < frame.size.lines
        invariant
            row <= frame.size.lines,
            output@ == if 0 < row < frame.size.lines {
                joined_rows(frame@.cells, row as nat).push('\n')
            } else {
                joined_rows(frame@.cells, row as nat)
            },
        decreases frame.size.lines - row,
    {
        let line = stretch(&frame.cells, row, 0, usize::MAX);
        output.append(trim_end(line.as_str()));
        assert(output@ =~= joined_rows(frame@.cells, (row + 1) as nat));
        row = row + 1;
        if row < frame.size.lines {
            output.push('\n');
        }
    }
    trim_end_char(output.as_str(), '\n').to_owned()
}

/// The text between the two ends of `range`.
pub fn range_text(frame: &TerminalFrame, range: CellRange) -> (res: String)
    ensures
        res@ == selected_text(frame@, range),
{
    let range = range.normalized();
    let last_line: usize = if frame.size.lines > 0 {
        frame.size.lines - 1
    } else {
        0
    };
    let last: usize = if range.end.row < last_line {
        range.end.row
    } else {
        last_line
    };
    let last_column: usize = if frame.size.columns > 0 {
        frame.size.columns - 1
    } else {
        0
    };
    let mut output = String::new();
    let mut row: usize = range.start.row;
    while row <= last
        invariant
            range.start.row <= row,
            reading_order(range.start, range.end),
            row <= last + 1 || row == range.start.row,
            last <= last_line,
            last_line == if frame.size.lines > 0 {
                frame.size.lines - 1
            } else {
                0
            },
            last_column == if frame.size.columns > 0 {
                frame.size.columns - 1
            } else {
                0
            },
            output@ == selected_rows(
                frame@.cells,
                frame.size.columns as int,
                range,
                row as int,
            ),
        decreases last + 1 - row,
    {
        let left: usize = if row == range.start.row {
            range.start.column
        } else {
            0
        };
        let right: usize = if row == range.end.row {
            range.end.column
        } else {
            last_column
        };
        let line = stretch(&frame.cells, row, left, right);
        output.append(trim_end(line.as_str()));
        if row < range.end.row {
            output.push('\n');
        }
        assert(last_line < usize::MAX);
        row = row + 1;
    }
    output
}

proof fn lemma_stretch_to_the_edge(cells: Seq<RenderCellView>, row: int, right: int)
    requires
        forall|i: int| 0 <= i < cells.len() ==> (#[trigger] cells[i]).column <= right,
    ensures
        stretch_text(cells, row, 0, right) == stretch_text(cells, row, 0, usize::MAX as int),
    decreases cells.len(),
{
    if cells.len() > 0 {
        let shorter = cells.drop_last();
        assert forall|i: int| 0 <= i < shorter.len() implies (#[trigger] shorter[i]).column
            <= right by {
            assert(shorter[i] == cells[i]);
        }
        lemma_stretch_to_the_edge(shorter, row, right);
        assert(cells[cells.len() - 1].column <= right);
    }
}

proof fn lemma_all_rows_selected(
    cells: Seq<RenderCellView>,
    columns: int,
    range: CellRange,
    count: nat,
)
    requires
        columns > 0,
        forall|i: int| 0 <= i < cells.len() ==> (#[trigger] cells[i]).column < columns,
        range.start == (CellPoint { row: 0, column: 0 }),
        range.end.column == columns - 1,
        count <= range.end.row + 1,
    ensures
        selected_rows(cells, columns, range, count as int) == if 0 < count <= range.end.row {
            joined_rows(cells, count).push('\n')
        } else {
            joined_rows(cells, count)
        },
    decreases count,
{
    if count > 0 {
        let row = count - 1;
        lemma_all_rows_selected(cells, columns, range, row as nat);
        lemma_stretch_to_the_edge(cells, row, columns - 1);
        let line = trimmed_end(stretch_text(cells, row, 0, usize::MAX as int));
        assert(joined_rows(cells, 0) + line =~= line);
    }
}

/// Selecting the whole screen selects what it shows, line by line; only the empty lines at its end
/// are selected as well.
pub proof fn law_selecting_everything_selects_what_is_shown(frame: FrameView)
    requires
        frame.size.columns > 0,
        frame.size.lines > 0,
        forall|i: int|
            0 <= i < frame.cells.len() ==> (#[trigger] frame.cells[i]).column < frame.size.columns,
    ensures
        ({
            let everything = CellRange {
                start: CellPoint { row: 0, column: 0 },
                end: CellPoint {
                    row: (frame.size.lines - 1) as usize,
                    column: (frame.size.columns - 1) as usize,
                },
            };
            without_trailing(selected_text(frame, everything), '\n') == shown_text(frame)
        }),
{
    let everything = CellRange {
        start: CellPoint { row: 0, column: 0 },
        end: CellPoint {
            row: (frame.size.lines - 1) as usize,
            column: (frame.size.columns - 1) as usize,
        },
    };
    lemma_all_rows_selected(
        frame.cells,
        frame.size.columns as int,
        everything,
        frame.size.lines as nat,
    );
}

} // verus!
