//! What is copied from the screen.

use vstd::prelude::*;

use crate::sequences::lemma_filter_push;
use crate::terminal::excerpt::{
    joined_rows, selected_rows, selected_text, selection_end, shown_text, stretch_text,
};
use crate::terminal::types::{CellPoint, CellRange, FrameView, RenderCellView};
use crate::text::{law_cutting_a_character_cuts_it_alone, trimmed_end};
use crate::ui::glyphs::joined_text;

verus! {

/// Whether a cell holds text of its own and stands on `row`, from the column `left` to `right`.
pub open spec fn between(row: int, left: int, right: int) -> spec_fn(RenderCellView) -> bool {
    |cell: RenderCellView|
        cell.row == row && left <= cell.column && cell.column <= right && !cell.style.wide_spacer
}

/// A stretch of a row is the text of the cells between its ends, in the order of the frame.
pub proof fn law_stretch_is_the_text_of_its_cells(
    cells: Seq<RenderCellView>,
    row: int,
    left: int,
    right: int,
)
    ensures
        stretch_text(cells, row, left, right) == joined_text(
            cells.filter(between(row, left, right)),
        ),
    decreases cells.len(),
{
    let keep = between(row, left, right);
    if cells.len() == 0 {
        reveal(Seq::filter);
        assert(joined_text(cells.filter(keep)) =~= Seq::empty());
    } else {
        let shorter = cells.drop_last();
        law_stretch_is_the_text_of_its_cells(shorter, row, left, right);
        lemma_filter_push(shorter, cells.last(), keep);
        assert(shorter.push(cells.last()) =~= cells);
        assert(shorter.filter(keep).push(cells.last()).drop_last() =~= shorter.filter(keep));
    }
}

/// A line of copied text: the cells of a row between two columns, without white space at its end.
pub open spec fn copied_line(frame: FrameView, row: int, left: int, right: int) -> Seq<char> {
    trimmed_end(joined_text(frame.cells.filter(between(row, left, right))))
}

/// A selection within one row copies the cells from the one end to the other.
pub proof fn law_selection_in_one_row(frame: FrameView, row: usize, left: usize, right: usize)
    requires
        row < frame.size.lines,
        left <= right,
    ensures
        selected_text(
            frame,
            CellRange {
                start: CellPoint { row, column: left },
                end: CellPoint { row, column: right },
            },
        ) == copied_line(frame, row as int, left as int, right as int),
{
    law_stretch_is_the_text_of_its_cells(frame.cells, row as int, left as int, right as int);
    let range = CellRange {
        start: CellPoint { row, column: left },
        end: CellPoint { row, column: right },
    };
    let columns = frame.size.columns as int;
    reveal_with_fuel(selected_rows, 2);
    assert(selected_rows(frame.cells, columns, range, row as int) =~= Seq::empty());
    assert(selected_text(frame, range) =~= copied_line(
        frame,
        row as int,
        left as int,
        right as int,
    ));
}

proof fn lemma_first_row_selected(
    cells: Seq<RenderCellView>,
    columns: int,
    start: CellPoint,
    end: CellPoint,
    stop: int,
)
    requires
        columns > 0,
        start.row < end.row,
        start.row < stop <= end.row + 1,
    ensures
        selected_rows(cells, columns, CellRange { start, end }, stop) == trimmed_end(
            stretch_text(cells, start.row as int, start.column as int, columns - 1),
        ).push('\n') + selected_rows(
            cells,
            columns,
            CellRange { start: CellPoint { row: (start.row + 1) as usize, column: 0 }, end },
            stop,
        ),
    decreases stop,
{
    let range = CellRange { start, end };
    let rest = CellRange { start: CellPoint { row: (start.row + 1) as usize, column: 0 }, end };
    let line = trimmed_end(
        stretch_text(cells, start.row as int, start.column as int, columns - 1),
    );
    if stop == start.row + 1 {
        reveal_with_fuel(selected_rows, 2);
        assert(selected_rows(cells, columns, range, start.row as int) =~= Seq::empty());
        assert(selected_rows(cells, columns, rest, stop) =~= Seq::empty());
        assert(selected_rows(cells, columns, range, stop) =~= line.push('\n'));
    } else {
        lemma_first_row_selected(cells, columns, start, end, stop - 1);
        assert(selected_rows(cells, columns, range, stop) =~= line.push('\n') + selected_rows(
            cells,
            columns,
            rest,
            stop,
        ));
    }
}

/// A selection over several rows copies the first row from where it begins to the edge of the
/// screen, then a line break, then what a selection from the start of the next row copies.
pub proof fn law_selection_over_several_rows(frame: FrameView, start: CellPoint, end: CellPoint)
    requires
        start.row < end.row < frame.size.lines,
        frame.size.columns > 0,
    ensures
        selected_text(frame, CellRange { start, end }) == copied_line(
            frame,
            start.row as int,
            start.column as int,
            frame.size.columns - 1,
        ).push('\n') + selected_text(
            frame,
            CellRange { start: CellPoint { row: (start.row + 1) as usize, column: 0 }, end },
        ),
{
    let columns = frame.size.columns as int;
    law_stretch_is_the_text_of_its_cells(
        frame.cells,
        start.row as int,
        start.column as int,
        columns - 1,
    );
    lemma_first_row_selected(frame.cells, columns, start, end, end.row + 1);
}

/// It makes no difference at which end a selection was begun.
pub proof fn law_selections_have_no_direction(frame: FrameView, range: CellRange)
    ensures
        selected_text(frame, range) == selected_text(
            frame,
            CellRange { start: range.end, end: range.start },
        ),
{
}

/// Nothing is copied of rows below the screen: a selection that ends there copies each row of the
/// screen to its edge.
pub proof fn law_selection_stops_at_the_screen(frame: FrameView, start: CellPoint, end: CellPoint)
    requires
        start.row < frame.size.lines <= end.row,
    ensures
        selection_end(CellRange { start, end }, frame.size.lines as int) == frame.size.lines,
        selected_text(frame, CellRange { start, end }) == selected_rows(
            frame.cells,
            frame.size.columns as int,
            CellRange { start, end },
            frame.size.lines as int,
        ),
{
}

/// The text of a screen does not end in empty lines.
pub proof fn law_shown_text_ends_in_text(frame: FrameView)
    ensures
        shown_text(frame).len() > 0 ==> shown_text(frame).last() != '\n',
{
    law_cutting_a_character_cuts_it_alone(
        joined_rows(frame.cells, frame.size.lines as nat),
        '\n',
    );
}

} // verus!
