//! Runs of text: cells of one row that are laid out together.

use vstd::prelude::*;
use vstd::string::*;

use crate::sequences::lemma_filter_one;
use crate::terminal::types::{
    cell_views, RenderCell, RenderCellView, TerminalColor, TerminalFrame, UnderlineStyle,
};
use crate::text::is_only;

verus! {

/// Text that is laid out in one go, and the columns that it takes up.
#[derive(Clone, Debug, Eq, PartialEq)]
pub struct GlyphRun {
    pub column: usize,
    pub columns: usize,
    pub text: String,
    pub foreground: TerminalColor,
    pub bold: bool,
    pub italic: bool,
    pub underline: UnderlineStyle,
    pub underline_color: TerminalColor,
}

/// The contents of a [`GlyphRun`].
#[verifier::ext_equal]
pub struct GlyphRunView {
    pub column: usize,
    pub columns: nat,
    pub text: Seq<char>,
    pub foreground: TerminalColor,
    pub bold: bool,
    pub italic: bool,
    pub underline: UnderlineStyle,
    pub underline_color: TerminalColor,
}

impl View for GlyphRun {
    type V = GlyphRunView;

    open spec fn view(&self) -> GlyphRunView {
        GlyphRunView {
            column: self.column,
            columns: self.columns as nat,
            text: self.text@,
            foreground: self.foreground,
            bold: self.bold,
            italic: self.italic,
            underline: self.underline,
            underline_color: self.underline_color,
        }
    }
}

/// The contents of a sequence of runs.
pub open spec fn run_views(runs: Seq<GlyphRun>) -> Seq<GlyphRunView> {
    runs.map_values(|run: GlyphRun| run@)
}

/// The cells of a row that hold text of their own.
pub open spec fn text_cells(cells: Seq<RenderCellView>, row: int) -> Seq<RenderCellView> {
    cells.filter(|cell: RenderCellView| cell.row == row && !cell.style.wide_spacer)
}

/// Whether a cell can be laid out with its neighbors: it holds one character of ordinary width.
pub open spec fn simple(cell: RenderCellView) -> bool {
    !cell.style.wide && cell.text.len() == 1
}

/// Whether two cells are drawn in the same way.
pub open spec fn same_look(a: RenderCellView, b: RenderCellView) -> bool {
    &&& a.foreground == b.foreground
    &&& a.style.bold == b.style.bold
    &&& a.style.italic == b.style.italic
    &&& a.style.underline == b.style.underline
    &&& a.underline_color == b.underline_color
}

/// Whether the cell at `place` joins the run that the first cell begins.
pub open spec fn joins(cells: Seq<RenderCellView>, place: int) -> bool {
    &&& 0 <= place < cells.len()
    &&& simple(cells[0])
    &&& simple(cells[place])
    &&& cells[place].column == cells[0].column + place
    &&& same_look(cells[0], cells[place])
}

/// Where the run that the first cell begins ends, given that the cells before `place` belong to
/// it.
pub open spec fn run_end(cells: Seq<RenderCellView>, place: int) -> int
    decreases cells.len() - place,
{
    if joins(cells, place) {
        run_end(cells, place + 1)
    } else {
        place
    }
}

/// The text of cells, one after the other.
pub open spec fn joined_text(cells: Seq<RenderCellView>) -> Seq<char>
    decreases cells.len(),
{
    if cells.len() == 0 {
        Seq::empty()
    } else {
        joined_text(cells.drop_last()) + cells.last().text
    }
}

/// The run of the cells, which looks as the first of them does.
pub open spec fn run_of(cells: Seq<RenderCellView>) -> GlyphRunView {
    let first = cells[0];
    GlyphRunView {
        column: first.column,
        columns: if first.style.wide {
            2
        } else {
            cells.len()
        },
        text: joined_text(cells),
        foreground: first.foreground,
        bold: first.style.bold,
        italic: first.style.italic,
        underline: first.style.underline,
        underline_color: first.underline_color,
    }
}

/// The runs of a row: each is as long as it can be, and the next one begins behind it.
pub open spec fn row_runs(cells: Seq<RenderCellView>) -> Seq<GlyphRunView>
    decreases cells.len(),
    via row_runs_decreases
{
    if cells.len() == 0 {
        Seq::empty()
    } else {
        let end = run_end(cells, 1);
        seq![run_of(cells.take(end))] + row_runs(cells.skip(end))
    }
}

#[via_fn]
proof fn row_runs_decreases(cells: Seq<RenderCellView>) {
    if cells.len() > 0 {
        lemma_run_end(cells, 1);
    }
}

/// A run ends behind its last cell, at the first cell that does not join it.
pub proof fn lemma_run_end(cells: Seq<RenderCellView>, place: int)
    requires
        0 < place <= cells.len(),
    ensures
        place <= run_end(cells, place) <= cells.len(),
        forall|i: int| place <= i < run_end(cells, place) ==> #[trigger] joins(cells, i),
        !joins(cells, run_end(cells, place)),
    decreases cells.len() - place,
{
    if joins(cells, place) {
        lemma_run_end(cells, place + 1);
    }
}

/// Whether a run shows anything but blanks.
pub open spec fn shows_something(run: GlyphRunView) -> bool {
    exists|i: int| 0 <= i < run.text.len() && #[trigger] run.text[i] != ' '
}

/// The runs of a row that show something.
pub open spec fn drawn_runs(cells: Seq<RenderCellView>, row: int) -> Seq<GlyphRunView> {
    row_runs(text_cells(cells, row)).filter(|run: GlyphRunView| shows_something(run))
}

/// The contents of cells.
pub open spec fn referred(cells: Seq<&RenderCell>) -> Seq<RenderCellView> {
    cells.map_values(|cell: &RenderCell| cell@)
}

/// The cells of a row that hold text of their own.
fn collect_text_cells(cells: &Vec<RenderCell>, row: usize) -> (res: Vec<&RenderCell>)
    ensures
        referred(res@) == text_cells(cell_views(cells@), row as int),
{
    let ghost views = cell_views(cells@);
    let mut res: Vec<&RenderCell> = Vec::new();
    let mut i: usize = 0;
    proof {
        reveal(Seq::filter);
        assert(referred(res@) =~= text_cells(views.take(0), row as int));
    }
    while i < cells.len()
        invariant
            i <= cells.len(),
            views == cell_views(cells@),
            referred(res@) == text_cells(views.take(i as int), row as int),
        decreases cells.len() - i,
    {
        let cell = &cells[i];
        proof {
            reveal(Seq::filter);
            assert(views[i as int] == cell@);
            assert(views.take(i + 1).drop_last() =~= views.take(i as int));
        }
        if cell.row == row && !cell.style.wide_spacer {
            assert(referred(res@.push(cell)) =~= referred(res@).push(cell@));
            res.push(cell);
        }
        i = i + 1;
    }
    assert(views.take(i as int) =~= views);
    res
}

fn is_simple(cell: &RenderCell) -> (res: bool)
    ensures
        res == simple(cell@),
{
    !cell.style.wide && cell.text.as_str().unicode_len() == 1
}

fn looks_same(a: &RenderCell, b: &RenderCell) -> (res: bool)
    ensures
        res == same_look(a@, b@),
{
    a.foreground == b.foreground && a.style.bold == b.style.bold && a.style.italic
        == b.style.italic && a.style.underline == b.style.underline && a.underline_color
        == b.underline_color
}

/// Lays out the run that begins at `index`; also tells where the next one begins.
fn take_run(cells: &Vec<&RenderCell>, index: usize) -> (res: (GlyphRun, usize))
    requires
        index < cells.len(),
    ensures
        ({
            let rest = referred(cells@).skip(index as int);
            &&& res.1 == index + run_end(rest, 1)
            &&& res.0@ == run_of(rest.take(run_end(rest, 1)))
            &&& index < res.1 <= cells.len()
        }),
{
    let ghost rest = referred(cells@).skip(index as int);
    let first = cells[index];
    let mut text = first.text.clone();
    let mut next: usize = index + 1;
    let batched = is_simple(first);
    proof {
        assert(rest[0] == first@);
        reveal_with_fuel(joined_text, 2);
        assert(rest.take(1).drop_last() =~= Seq::empty());
        assert(text@ =~= joined_text(rest.take(1)));
        lemma_run_end(rest, 1);
    }
    if batched {
        while next < cells.len() && is_simple(cells[next]) && cells[next].column >= first.column
            && cells[next].column - first.column == next - index && looks_same(first, cells[next])
            invariant
                index < next <= cells.len(),
                rest == referred(cells@).skip(index as int),
                rest.len() == cells.len() - index,
                rest[0] == first@,
                simple(first@),
                run_end(rest, 1) == run_end(rest, next - index),
                text@ == joined_text(rest.take(next - index)),
            decreases cells.len() - next,
        {
            let ghost place = next - index;
            proof {
                assert(rest[place] == cells@[next as int]@);
                assert(rest.take(place + 1).drop_last() =~= rest.take(place));
                assert(joins(rest, place));
            }
            text.append(cells[next].text.as_str());
            next = next + 1;
        }
        assert(next < cells.len() ==> rest[next - index] == cells@[next as int]@);
        assert(!joins(rest, next - index));
    }
    let columns: usize = if first.style.wide {
        2
    } else {
        next - index
    };
    let run = GlyphRun {
        column: first.column,
        columns,
        text,
        foreground: first.foreground,
        bold: first.style.bold,
        italic: first.style.italic,
        underline: first.style.underline,
        underline_color: first.underline_color,
    };
    assert(run_end(rest, 1) == next - index);
    (run, next)
}

/// The runs of a row that show something, from left to right.
#[verifier::rlimit(40)]
pub fn build_row(frame: &TerminalFrame, row: usize) -> (res: Vec<GlyphRun>)
    ensures
        run_views(res@) == drawn_runs(frame@.cells, row as int),
{
    let cells = collect_text_cells(&frame.cells, row);
    let ghost views = referred(cells@);
    let ghost keep = |run: GlyphRunView| shows_something(run);
    let mut runs: Vec<GlyphRun> = Vec::new();
    let mut index: usize = 0;
    proof {
        assert(views.skip(0) =~= views);
        assert(run_views(runs@) + row_runs(views).filter(keep) =~= row_runs(views).filter(keep));
    }
    while index < cells.len()
        invariant
            index <= cells.len(),
            views == referred(cells@),
            keep == (|run: GlyphRunView| shows_something(run)),
            run_views(runs@) + row_runs(views.skip(index as int)).filter(keep) == row_runs(
                views,
            ).filter(keep),
        decreases cells.len() - index,
    {
        let ghost rest = views.skip(index as int);
        let (run, next) = take_run(&cells, index);
        proof {
            let later = row_runs(views.skip(next as int));
            assert(rest.skip(next - index) =~= views.skip(next as int));
            assert(row_runs(rest) == seq![run@] + later);
            Seq::filter_distributes_over_add(seq![run@], later, keep);
            lemma_filter_one(run@, keep);
        }
        let ghost before = runs@;
        let ghost later = row_runs(views.skip(next as int)).filter(keep);
        if !is_only(run.text.as_str(), ' ') {
            proof {
                let i = choose|i: int| 0 <= i < run.text@.len() && run.text@[i] != ' ';
                assert(run@.text[i] != ' ');
                assert(keep(run@));
                assert(run_views(runs@.push(run)) =~= run_views(runs@).push(run@));
                assert(run_views(before).push(run@) + later =~= run_views(before) + (seq![run@]
                    + later));
            }
            runs.push(run);
        } else {
            assert(!keep(run@));
            assert(Seq::<GlyphRunView>::empty() + later =~= later);
        }
        index = next;
    }
    proof {
        reveal(Seq::filter);
        assert(views.skip(index as int) =~= Seq::empty());
        assert(run_views(runs@) + row_runs(views.skip(index as int)).filter(keep) =~= run_views(
            runs@,
        ));
    }
    runs
}

/// The text of runs, one after the other.
pub open spec fn runs_text(runs: Seq<GlyphRunView>) -> Seq<char>
    decreases runs.len(),
{
    if runs.len() == 0 {
        Seq::empty()
    } else {
        runs[0].text + runs_text(runs.skip(1))
    }
}

proof fn lemma_joined_text_splits(cells: Seq<RenderCellView>, at: int)
    requires
        0 <= at <= cells.len(),
    ensures
        joined_text(cells) == joined_text(cells.take(at)) + joined_text(cells.skip(at)),
    decreases cells.len() - at,
{
    if at == cells.len() {
        assert(cells.take(at) =~= cells);
        assert(cells.skip(at) =~= Seq::empty());
        assert(joined_text(cells) + Seq::empty() =~= joined_text(cells));
    } else {
        let shorter = cells.drop_last();
        lemma_joined_text_splits(shorter, at);
        assert(shorter.take(at) =~= cells.take(at));
        assert(shorter.skip(at) =~= cells.skip(at).drop_last());
        assert(joined_text(cells) =~= joined_text(cells.take(at)) + joined_text(cells.skip(at)));
    }
}

/// Laying out a row in runs keeps its text: nothing is lost, doubled or moved.
pub proof fn law_runs_keep_the_text(cells: Seq<RenderCellView>)
    ensures
        runs_text(row_runs(cells)) == joined_text(cells),
    decreases cells.len(),
{
    if cells.len() > 0 {
        let end = run_end(cells, 1);
        lemma_run_end(cells, 1);
        law_runs_keep_the_text(cells.skip(end));
        lemma_joined_text_splits(cells, end);
        assert(row_runs(cells).skip(1) =~= row_runs(cells.skip(end)));
    }
}

/// Cells of one character each make up a text with one character for each cell.
pub proof fn lemma_single_characters(cells: Seq<RenderCellView>)
    requires
        forall|i: int| 0 <= i < cells.len() ==> (#[trigger] cells[i]).text.len() == 1,
    ensures
        joined_text(cells).len() == cells.len(),
        forall|i: int| 0 <= i < cells.len() ==> #[trigger] joined_text(cells)[i] == cells[i].text[0],
    decreases cells.len(),
{
    if cells.len() > 0 {
        let shorter = cells.drop_last();
        assert forall|i: int| 0 <= i < shorter.len() implies (#[trigger] shorter[i]).text.len()
            == 1 by {
            assert(shorter[i] == cells[i]);
        }
        lemma_single_characters(shorter);
        assert forall|i: int| 0 <= i < cells.len() implies #[trigger] joined_text(cells)[i]
            == cells[i].text[0] by {
            if i < shorter.len() {
                assert(joined_text(shorter)[i] == shorter[i].text[0]);
            }
        }
    }
}

/// The run that the first cell begins takes up one column for each of its characters, and every
/// character stands in the column of its own cell; a cell that cannot be laid out with its
/// neighbors is a run of its own.
pub proof fn law_characters_stay_in_their_cells(cells: Seq<RenderCellView>)
    requires
        cells.len() > 0,
    ensures
        ({
            let run = row_runs(cells)[0];
            if simple(cells[0]) {
                &&& run.text.len() == run.columns
                &&& run.columns <= cells.len()
                &&& forall|i: int|
                    0 <= i < run.columns ==> #[trigger] run.text[i] == cells[i].text[0]
                        && cells[i].column == run.column + i && same_look(cells[0], cells[i])
            } else {
                &&& run.text == cells[0].text
                &&& run.column == cells[0].column
                &&& run.columns == if cells[0].style.wide {
                    2nat
                } else {
                    1nat
                }
            }
        }),
{
    let end = run_end(cells, 1);
    lemma_run_end(cells, 1);
    let part = cells.take(end);
    let run = row_runs(cells)[0];
    assert(run == run_of(part));
    if simple(cells[0]) {
        assert forall|i: int| 0 <= i < end implies #[trigger] part[i] == cells[i]
            && part[i].text.len() == 1 && cells[i].column == cells[0].column + i && same_look(
            cells[0],
            cells[i],
        ) by {
            if i > 0 {
                assert(joins(cells, i));
            }
        }
        lemma_single_characters(part);
        assert forall|i: int| 0 <= i < run.columns implies #[trigger] run.text[i]
            == cells[i].text[0] && cells[i].column == run.column + i && same_look(
            cells[0],
            cells[i],
        ) by {
            assert(part[i] == cells[i]);
            assert(joined_text(part)[i] == part[i].text[0]);
        }
    } else {
        assert(!joins(cells, 1));
        assert(end == 1);
        reveal_with_fuel(joined_text, 2);
        assert(part.drop_last() =~= Seq::empty());
        assert(joined_text(part) =~= cells[0].text);
    }
}

} // verus!
