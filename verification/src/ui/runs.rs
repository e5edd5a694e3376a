//! How the runs of a row relate to its cells.

use vstd::prelude::*;

use crate::sequences::lemma_filtered_are_contained;
use crate::terminal::frame::strictly_ordered;
use crate::terminal::types::RenderCellView;
use crate::ui::glyphs::{
    drawn_runs, joined_text, joins, lemma_run_end, lemma_single_characters, row_runs, run_end,
    run_of, shows_something, simple, text_cells, GlyphRunView,
};

verus! {

/// Where the run at place `run` begins among the cells of its row.
pub open spec fn run_start(cells: Seq<RenderCellView>, run: int) -> int
    decreases run,
{
    if run <= 0 {
        0
    } else {
        let end = run_end(cells, 1);
        end + run_start(cells.skip(end), run - 1)
    }
}

/// Whether a cell is drawn in the color, the weight, the slant and the underline of the run.
pub open spec fn drawn_alike(run: GlyphRunView, cell: RenderCellView) -> bool {
    &&& run.foreground == cell.foreground
    &&& run.bold == cell.style.bold
    &&& run.italic == cell.style.italic
    &&& run.underline == cell.style.underline
    &&& run.underline_color == cell.underline_color
}

/// Whether the run draws these cells: all of them alike, one behind the other.
spec fn draws(run: GlyphRunView, part: Seq<RenderCellView>) -> bool {
    &&& part.len() > 0
    &&& run.column == part[0].column
    &&& run.columns == if part[0].style.wide {
        2
    } else {
        part.len()
    }
    &&& run.text == joined_text(part)
    &&& forall|i: int| 0 <= i < part.len() ==> drawn_alike(run, #[trigger] part[i])
    &&& part.len() > 1 ==> forall|i: int|
        0 <= i < part.len() ==> simple(#[trigger] part[i]) && part[i].column == run.column + i
}

proof fn lemma_run_draws(cells: Seq<RenderCellView>, run: int)
    requires
        0 <= run < row_runs(cells).len(),
    ensures
        0 <= run_start(cells, run) < run_start(cells, run + 1) <= cells.len(),
        draws(
            row_runs(cells)[run],
            cells.subrange(run_start(cells, run), run_start(cells, run + 1)),
        ),
    decreases run,
{
    let end = run_end(cells, 1);
    lemma_run_end(cells, 1);
    let later = cells.skip(end);
    assert(row_runs(cells) == seq![run_of(cells.take(end))] + row_runs(later));
    if run == 0 {
        assert(run_start(later, 0) == 0);
        assert(run_start(cells, 1) == end);
        let part = cells.subrange(0, end);
        assert(part =~= cells.take(end));
        assert forall|i: int| 0 <= i < part.len() implies drawn_alike(
            row_runs(cells)[0],
            #[trigger] part[i],
        ) by {
            if i > 0 {
                assert(joins(cells, i));
            }
        }
        if part.len() > 1 {
            assert(joins(cells, 1));
            assert forall|i: int| 0 <= i < part.len() implies simple(#[trigger] part[i])
                && part[i].column == cells[0].column + i by {
                if i > 0 {
                    assert(joins(cells, i));
                }
            }
        }
    } else {
        lemma_run_draws(later, run - 1);
        let start = run_start(later, run - 1);
        let stop = run_start(later, run);
        assert(run_start(cells, run) == end + start);
        assert(run_start(cells, run + 1) == end + stop);
        assert(cells.subrange(end + start, end + stop) =~= later.subrange(start, stop));
    }
}

/// The place of the run that a cell belongs to.
spec fn run_with(cells: Seq<RenderCellView>, place: int) -> int
    decreases place,
{
    let end = run_end(cells, 1);
    if place < end || end < 1 {
        0
    } else {
        1 + run_with(cells.skip(end), place - end)
    }
}

proof fn lemma_run_with(cells: Seq<RenderCellView>, place: int)
    requires
        0 <= place < cells.len(),
    ensures
        0 <= run_with(cells, place) < row_runs(cells).len(),
        run_start(cells, run_with(cells, place)) <= place < run_start(
            cells,
            run_with(cells, place) + 1,
        ),
    decreases place,
{
    let end = run_end(cells, 1);
    lemma_run_end(cells, 1);
    let later = cells.skip(end);
    assert(row_runs(cells) == seq![run_of(cells.take(end))] + row_runs(later));
    assert(run_start(later, 0) == 0);
    assert(run_start(cells, 1) == end);
    if place >= end {
        lemma_run_with(later, place - end);
    }
}

proof fn lemma_text_cells_in_order(cells: Seq<RenderCellView>, row: int)
    requires
        strictly_ordered(cells),
    ensures
        strictly_ordered(text_cells(cells, row)),
        forall|i: int|
            0 <= i < text_cells(cells, row).len() ==> {
                let cell = #[trigger] text_cells(cells, row)[i];
                cell.row == row && !cell.style.wide_spacer && cells.contains(cell)
            },
        forall|i: int|
            0 <= i < cells.len() && cells[i].row == row && !cells[i].style.wide_spacer
                ==> text_cells(cells, row).contains(#[trigger] cells[i]),
    decreases cells.len(),
{
    let keep = |cell: RenderCellView| cell.row == row && !cell.style.wide_spacer;
    assert forall|i: int|
        0 <= i < cells.len() && cells[i].row == row && !cells[i].style.wide_spacer implies
        text_cells(cells, row).contains(#[trigger] cells[i]) by {
        cells.lemma_filter_contains(keep, i);
    }
    reveal(Seq::filter);
    if cells.len() > 0 {
        let shorter = cells.drop_last();
        lemma_text_cells_in_order(shorter, row);
        let kept = text_cells(cells, row);
        let before = text_cells(shorter, row);
        assert forall|i: int| 0 <= i < kept.len() implies cells.contains(#[trigger] kept[i])
            && kept[i].row == row && !kept[i].style.wide_spacer by {
            if i < before.len() {
                assert(kept[i] == before[i]);
                let at = choose|at: int| 0 <= at < shorter.len() && shorter[at] == before[i];
                assert(cells[at] == before[i]);
            } else {
                assert(cells[cells.len() - 1] == kept[i]);
            }
        }
        assert forall|i: int, j: int| 0 <= i < j < kept.len() implies (kept[i].row < kept[j].row
            || (kept[i].row == kept[j].row && kept[i].column < kept[j].column)) by {
            if j == before.len() {
                assert(kept[i] == before[i]);
                assert(shorter.contains(before[i]));
                let at = choose|at: int| 0 <= at < shorter.len() && shorter[at] == before[i];
                assert(cells[at] == before[i]);
                assert(cells[cells.len() - 1] == kept[j]);
            } else {
                assert(kept[i] == before[i] && kept[j] == before[j]);
            }
        }
    }
}

/// Whether the cells of a frame are laid out as a screen is: in reading order, and with nothing of
/// its own where the second half of a wide character is.
pub open spec fn laid_out(cells: Seq<RenderCellView>) -> bool {
    &&& strictly_ordered(cells)
    &&& forall|i: int, j: int|
        0 <= i < cells.len() && 0 <= j < cells.len() && (#[trigger] cells[i]).style.wide
            && !cells[i].style.wide_spacer && (#[trigger] cells[j]).row == cells[i].row
            && cells[j].column == cells[i].column + 1 ==> cells[j].style.wide_spacer
}

/// Every run is drawn as its cells are: in the color, the weight, the slant and the underline of
/// each cell that it covers.
pub proof fn law_runs_look_as_their_cells(
    cells: Seq<RenderCellView>,
    row: int,
    run: GlyphRunView,
    cell: RenderCellView,
)
    requires
        laid_out(cells),
        drawn_runs(cells, row).contains(run),
        cells.contains(cell),
        cell.row == row,
        !cell.style.wide_spacer,
        run.column <= cell.column < run.column + run.columns,
    ensures
        run.foreground == cell.foreground,
        run.bold == cell.style.bold,
        run.italic == cell.style.italic,
        run.underline == cell.style.underline,
        run.underline_color == cell.underline_color,
        simple(cell) ==> run.text[cell.column - run.column] == cell.text[0],
        !simple(cell) ==> run.text == cell.text,
{
    let text = text_cells(cells, row);
    lemma_text_cells_in_order(cells, row);
    lemma_drawn_run_is_a_run(cells, row, run);
    let place = choose|place: int| 0 <= place < row_runs(text).len() && row_runs(text)[place] == run;
    lemma_run_draws(text, place);
    let start = run_start(text, place);
    let end = run_start(text, place + 1);
    let part = text.subrange(start, end);
    assert(text.contains(cell));
    let at = choose|at: int| 0 <= at < text.len() && text[at] == cell;
    assert(part[0] == text[start]);
    assert(part[end - start - 1] == text[end - 1]);
    if at < start {
        assert(text[at].column < text[start].column);
    } else if at >= end {
        assert(text[end - 1].column < text[at].column);
        if part[0].style.wide {
            assert(end == start + 1);
            let i = choose|i: int| 0 <= i < cells.len() && cells[i] == text[start];
            let j = choose|j: int| 0 <= j < cells.len() && cells[j] == cell;
            assert(cells[j].column == cells[i].column + 1);
        } else if part.len() > 1 {
            assert(simple(part[part.len() - 1]));
        }
    } else {
        assert(part[at - start] == cell);
        if part.len() > 1 {
            assert(simple(part[at - start]) && cell.column == run.column + (at - start));
            assert forall|i: int| 0 <= i < part.len() implies (#[trigger] part[i]).text.len()
                == 1 by {
                assert(simple(part[i]));
            }
            lemma_single_characters(part);
            assert(joined_text(part)[at - start] == part[at - start].text[0]);
        } else {
            reveal_with_fuel(joined_text, 2);
            assert(part.drop_last() =~= Seq::empty());
            assert(joined_text(part) =~= cell.text);
        }
    }
}

proof fn lemma_drawn_run_is_a_run(cells: Seq<RenderCellView>, row: int, run: GlyphRunView)
    requires
        drawn_runs(cells, row).contains(run),
    ensures
        row_runs(text_cells(cells, row)).contains(run),
{
    let keep = |run: GlyphRunView| shows_something(run);
    lemma_filtered_are_contained(row_runs(text_cells(cells, row)), keep);
}

/// Every cell that shows something is drawn: some run of its row covers it.
pub proof fn law_nothing_shown_is_left_out(
    cells: Seq<RenderCellView>,
    row: int,
    cell: RenderCellView,
    at: int,
) -> (run: GlyphRunView)
    requires
        laid_out(cells),
        cells.contains(cell),
        cell.row == row,
        !cell.style.wide_spacer,
        0 <= at < cell.text.len(),
        cell.text[at] != ' ',
    ensures
        drawn_runs(cells, row).contains(run),
        run.column <= cell.column < run.column + run.columns,
        run.text.contains(cell.text[at]),
{
    let text = text_cells(cells, row);
    lemma_text_cells_in_order(cells, row);
    assert(text.contains(cell));
    let place = choose|place: int| 0 <= place < text.len() && text[place] == cell;
    lemma_run_with(text, place);
    let with = run_with(text, place);
    lemma_run_draws(text, with);
    let run = row_runs(text)[with];
    let start = run_start(text, with);
    let part = text.subrange(start, run_start(text, with + 1));
    assert(part[place - start] == cell);
    if part.len() > 1 {
        assert forall|i: int| 0 <= i < part.len() implies (#[trigger] part[i]).text.len() == 1 by {
            assert(simple(part[i]));
        }
        lemma_single_characters(part);
        assert(simple(part[place - start]) && simple(part[0]));
        assert(joined_text(part)[place - start] == part[place - start].text[0]);
        assert(run.text[place - start] == cell.text[at]);
    } else {
        reveal_with_fuel(joined_text, 2);
        assert(part.drop_last() =~= Seq::empty());
        assert(joined_text(part) =~= cell.text);
        assert(run.text[at] == cell.text[at]);
    }
    assert(shows_something(run));
    row_runs(text).lemma_filter_contains(|run: GlyphRunView| shows_something(run), with);
    run
}

/// The runs of a row stand from left to right without overlapping.
pub proof fn law_runs_stand_side_by_side(
    cells: Seq<RenderCellView>,
    row: int,
    left: int,
    right: int,
)
    requires
        laid_out(cells),
        0 <= left < right < row_runs(text_cells(cells, row)).len(),
    ensures
        ({
            let runs = row_runs(text_cells(cells, row));
            runs[left].column + runs[left].columns <= runs[right].column
        }),
{
    let text = text_cells(cells, row);
    lemma_text_cells_in_order(cells, row);
    lemma_run_draws(text, left);
    lemma_run_draws(text, right);
    lemma_starts_increase(text, left + 1, right);
    let start = run_start(text, left);
    let end = run_start(text, left + 1);
    let next = run_start(text, right);
    let part = text.subrange(start, end);
    assert(part[0] == text[start]);
    assert(part[part.len() - 1] == text[end - 1]);
    assert(text.subrange(next, run_start(text, right + 1))[0] == text[next]);
    assert(text[end - 1].column < text[next].column);
    if part[0].style.wide {
        assert(part.len() == 1) by {
            if part.len() > 1 {
                assert(simple(part[0]));
            }
        }
        let i = choose|i: int| 0 <= i < cells.len() && cells[i] == text[start];
        let j = choose|j: int| 0 <= j < cells.len() && cells[j] == text[next];
        assert(cells.contains(text[start]) && cells.contains(text[next]));
        if text[next].column == text[start].column + 1 {
            assert(cells[j].column == cells[i].column + 1);
        }
    } else if part.len() > 1 {
        assert(simple(part[part.len() - 1]));
    }
}

proof fn lemma_starts_increase(cells: Seq<RenderCellView>, from: int, to: int)
    requires
        0 <= from <= to < row_runs(cells).len(),
    ensures
        run_start(cells, from) <= run_start(cells, to),
    decreases to - from,
{
    if from < to {
        lemma_run_draws(cells, from);
        lemma_starts_increase(cells, from + 1, to);
    }
}

/// A run that shows nothing but blanks is not drawn, and every other one is, in the same order.
pub proof fn law_only_blanks_are_left_undrawn(cells: Seq<RenderCellView>, row: int, run: GlyphRunView)
    ensures
        drawn_runs(cells, row).contains(run) <==> row_runs(text_cells(cells, row)).contains(run) && !(
        forall|i: int| 0 <= i < run.text.len() ==> run.text[i] == ' '),
{
    let keep = |run: GlyphRunView| shows_something(run);
    let runs = row_runs(text_cells(cells, row));
    lemma_filtered_are_contained(runs, keep);
    if runs.contains(run) && !(forall|i: int| 0 <= i < run.text.len() ==> run.text[i] == ' ') {
        let at = choose|at: int| 0 <= at < runs.len() && runs[at] == run;
        let i = choose|i: int| 0 <= i < run.text.len() && run.text[i] != ' ';
        assert(run.text[i] != ' ');
        assert(keep(run));
        runs.lemma_filter_contains(keep, at);
    }
    if drawn_runs(cells, row).contains(run) {
        assert(keep(run));
    }
}

} // verus!
