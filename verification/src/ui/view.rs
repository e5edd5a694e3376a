//! What of a frame is drawn where: runs of background, highlighted spans, runs of text.

use vstd::prelude::*;
use vstd::string::*;

use crate::config::measure::Measure;
use crate::terminal::types::{
    cell_views, ordered_range, within_range, CellPoint, CellRange, DamageRegion, FrameDamage,
    RenderCellView, SearchResult, TerminalColor, TerminalFrame,
};
use crate::text::same_text;

verus! {

/// Cells of one row, side by side, that have the same background.
#[derive(Clone, Copy, Debug, Eq, PartialEq, Structural)]
pub struct BackgroundRun {
    pub row: usize,
    pub start_column: usize,
    pub end_column: usize,
    pub color: TerminalColor,
}

/// Where a background is painted.
pub struct PaintedCell {
    pub row: int,
    pub column: int,
    pub color: TerminalColor,
}

/// The cells that a run paints, from left to right.
pub open spec fn run_cells(run: BackgroundRun) -> Seq<PaintedCell> {
    Seq::new(
        (run.end_column - run.start_column) as nat,
        |i: int|
            PaintedCell { row: run.row as int, column: run.start_column + i, color: run.color },
    )
}

/// The cells that runs paint, one run after the other.
pub open spec fn painted(runs: Seq<BackgroundRun>) -> Seq<PaintedCell>
    decreases runs.len(),
{
    if runs.len() == 0 {
        Seq::empty()
    } else {
        painted(runs.drop_last()) + run_cells(runs.last())
    }
}

/// The backgrounds of cells.
pub open spec fn backgrounds(cells: Seq<RenderCellView>) -> Seq<PaintedCell> {
    cells.map_values(
        |cell: RenderCellView|
            PaintedCell {
                row: cell.row as int,
                column: cell.column as int,
                color: cell.background,
            },
    )
}

/// Whether `b` goes on where `a` ends, in the same color.
pub open spec fn continues(a: BackgroundRun, b: BackgroundRun) -> bool {
    a.row == b.row && a.end_column == b.start_column && a.color == b.color
}

/// Whether no run could be longer: each paints something, and none goes on where the run before it
/// ends.
pub open spec fn merged(runs: Seq<BackgroundRun>) -> bool {
    &&& forall|i: int|
        0 <= i < runs.len() ==> (#[trigger] runs[i]).start_column < runs[i].end_column
    &&& forall|i: int|
        0 < i < runs.len() ==> !continues(runs[i - 1], #[trigger] runs[i])
}

proof fn lemma_painted_push(runs: Seq<BackgroundRun>, run: BackgroundRun)
    ensures
        painted(runs.push(run)) == painted(runs) + run_cells(run),
{
    assert(runs.push(run).drop_last() =~= runs);
}

proof fn lemma_run_grows(run: BackgroundRun, longer: BackgroundRun)
    requires
        run.start_column <= run.end_column < usize::MAX,
        longer == (BackgroundRun { end_column: (run.end_column + 1) as usize, ..run }),
    ensures
        run_cells(longer) == run_cells(run).push(
            PaintedCell {
                row: run.row as int,
                column: run.end_column as int,
                color: run.color,
            },
        ),
{
    assert(run_cells(longer) =~= run_cells(run).push(
        PaintedCell { row: run.row as int, column: run.end_column as int, color: run.color },
    ));
}

/// Joins the backgrounds of a frame into runs that are as long as they can be. Painting the runs
/// paints every cell once, in the order of the frame.
pub fn background_runs(frame: &TerminalFrame) -> (res: Vec<BackgroundRun>)
    requires
        forall|i: int|
            0 <= i < frame.cells.len() ==> (#[trigger] frame.cells@[i]).column < usize::MAX,
    ensures
        painted(res@) == backgrounds(frame@.cells),
        merged(res@),
{
    let ghost views = frame@.cells;
    let mut runs: Vec<BackgroundRun> = Vec::new();
    let mut i: usize = 0;
    assert(painted(runs@) =~= backgrounds(views.take(0)));
    while i < frame.cells.len()
        invariant
            i <= frame.cells.len(),
            views == cell_views(frame.cells@),
            forall|j: int|
                0 <= j < frame.cells.len() ==> (#[trigger] frame.cells@[j]).column < usize::MAX,
            painted(runs@) == backgrounds(views.take(i as int)),
            merged(runs@),
        decreases frame.cells.len() - i,
    {
        let cell = &frame.cells[i];
        let ghost next = PaintedCell {
            row: cell.row as int,
            column: cell.column as int,
            color: cell.background,
        };
        proof {
            assert(views[i as int] == cell@);
            assert(views.take(i + 1) =~= views.take(i as int).push(cell@));
            assert(backgrounds(views.take(i + 1)) =~= backgrounds(views.take(i as int)).push(next));
        }
        let count = runs.len();
        let grows = count > 0 && runs[count - 1].row == cell.row && runs[count - 1].end_column
            == cell.column && runs[count - 1].color == cell.background;
        let ghost before = runs@;
        if grows {
            let last = runs[count - 1];
            let longer = BackgroundRun {
                row: last.row,
                start_column: last.start_column,
                end_column: last.end_column + 1,
                color: last.color,
            };
            runs.set(count - 1, longer);
            proof {
                lemma_run_grows(last, longer);
                assert(runs@ =~= before.drop_last().push(longer));
                assert(before =~= before.drop_last().push(last));
                lemma_painted_push(before.drop_last(), last);
                lemma_painted_push(before.drop_last(), longer);
                assert(painted(runs@) =~= painted(before).push(next));
                assert forall|j: int| 0 < j < runs@.len() implies !continues(
                    runs@[j - 1],
                    #[trigger] runs@[j],
                ) by {
                    assert(!continues(before[j - 1], before[j]));
                }
            }
        } else {
            let run = BackgroundRun {
                row: cell.row,
                start_column: cell.column,
                end_column: cell.column + 1,
                color: cell.background,
            };
            runs.push(run);
            proof {
                lemma_painted_push(before, run);
                assert(run_cells(run) =~= seq![next]);
                assert(painted(runs@) =~= painted(before).push(next));
            }
        }
        i = i + 1;
    }
    assert(views.take(i as int) =~= views);
    runs
}

/// The columns of a row that a range highlights: the first one, and the one behind the last. A
/// range that starts or ends outside the screen is cut off at its edge.
pub open spec fn highlighted_columns(range: CellRange, row: int, columns: int) -> Option<(int, int)> {
    let ordered = ordered_range(range);
    if row < ordered.start.row || row > ordered.end.row || columns <= 0 {
        None
    } else {
        let start: int = if row > ordered.start.row {
            0
        } else if ordered.start.column < columns {
            ordered.start.column as int
        } else {
            columns - 1
        };
        let end: int = if row < ordered.end.row || ordered.end.column >= columns {
            columns
        } else {
            ordered.end.column + 1
        };
        if start < end {
            Some((start, end))
        } else {
            None
        }
    }
}

/// The columns of a row that a range highlights: the first one, and the one behind the last.
pub fn range_columns(range: CellRange, row: usize, columns: usize) -> (res: Option<(usize, usize)>)
    ensures
        match res {
            Some((start, end)) => highlighted_columns(range, row as int, columns as int) == Some(
                (start as int, end as int),
            ),
            None => highlighted_columns(range, row as int, columns as int) is None,
        },
{
    let range = range.normalized();
    if row < range.start.row || row > range.end.row || columns == 0 {
        return None;
    }
    let start: usize = if row > range.start.row {
        0
    } else if range.start.column < columns {
        range.start.column
    } else {
        columns - 1
    };
    let end: usize = if row < range.end.row || range.end.column >= columns {
        columns
    } else {
        range.end.column + 1
    };
    if start < end {
        Some((start, end))
    } else {
        None
    }
}

/// A range that starts and ends on the screen highlights, of each row, exactly the cells that it
/// covers.
pub proof fn law_highlight_covers_the_range(range: CellRange, point: CellPoint, columns: int)
    requires
        range.start.column < columns,
        range.end.column < columns,
        point.column < columns,
    ensures
        within_range(range, point) <==> (highlighted_columns(range, point.row as int, columns)
            matches Some((start, end)) && start <= point.column < end),
{
}

/// Cells of one row, side by side, that are highlighted.
#[derive(Clone, Copy, Debug, Eq, PartialEq, Structural)]
pub struct CellSpan {
    pub row: usize,
    pub start_column: usize,
    pub end_column: usize,
}

/// What `range` highlights in the rows from `from` to the one before `end`.
pub open spec fn range_spans(range: CellRange, columns: int, from: int, end: int) -> Seq<CellSpan>
    decreases end - from,
{
    if end <= from {
        Seq::empty()
    } else {
        let before = range_spans(range, columns, from, end - 1);
        match highlighted_columns(range, end - 1, columns) {
            Some((start_column, end_column)) => before.push(
                CellSpan {
                    row: (end - 1) as usize,
                    start_column: start_column as usize,
                    end_column: end_column as usize,
                },
            ),
            None => before,
        }
    }
}

fn push_range_spans(
    spans: &mut Vec<CellSpan>,
    range: CellRange,
    columns: usize,
    from: usize,
    end: usize,
)
    ensures
        final(spans)@ == old(spans)@ + range_spans(range, columns as int, from as int, end as int),
{
    let ghost before = spans@;
    let mut row: usize = from;
    assert(spans@ =~= before + range_spans(range, columns as int, from as int, from as int));
    while row < end
        invariant
            from <= row,
            row <= end || row == from,
            spans@ == before + range_spans(range, columns as int, from as int, row as int),
        decreases end - row,
    {
        if let Some((start_column, end_column)) = range_columns(range, row, columns) {
            spans.push(CellSpan { row, start_column, end_column });
        }
        row = row + 1;
        assert(spans@ =~= before + range_spans(range, columns as int, from as int, row as int));
    }
    assert(end <= from ==> range_spans(range, columns as int, from as int, end as int)
        =~= range_spans(range, columns as int, from as int, from as int));
}

/// What the selection of a frame highlights, from top to bottom.
pub fn selection_spans(frame: &TerminalFrame) -> (res: Vec<CellSpan>)
    ensures
        res@ == match frame.selection {
            Some(range) => range_spans(
                range,
                frame.size.columns as int,
                0,
                frame.size.lines as int,
            ),
            None => Seq::empty(),
        },
{
    let mut spans: Vec<CellSpan> = Vec::new();
    if let Some(range) = frame.selection {
        push_range_spans(&mut spans, range, frame.size.columns, 0, frame.size.lines);
    }
    spans
}

/// What one match highlights, and whether it is the active one.
#[derive(Clone, Debug, Eq, PartialEq)]
pub struct MatchHighlight {
    pub spans: Vec<CellSpan>,
    pub active: bool,
}

/// Whether `highlight` shows the match at `index`.
pub open spec fn shows_match(
    highlight: MatchHighlight,
    matches: Seq<CellRange>,
    active: Option<usize>,
    columns: int,
    index: int,
) -> bool {
    let range = matches[index];
    &&& highlight.active == (active matches Some(place) && place == index)
    &&& highlight.spans@ == range_spans(
        range,
        columns,
        range.start.row as int,
        range.end.row + 1,
    )
}

/// What the matches of a search highlight, in order.
pub fn search_highlights(search: &SearchResult, columns: usize) -> (res: Vec<MatchHighlight>)
    requires
        forall|i: int|
            0 <= i < search.matches.len() ==> (#[trigger] search.matches@[i]).end.row < usize::MAX,
    ensures
        res.len() == search.matches.len(),
        forall|i: int|
            0 <= i < res.len() ==> shows_match(
                #[trigger] res@[i],
                search.matches@,
                search.active,
                columns as int,
                i,
            ),
{
    let mut res: Vec<MatchHighlight> = Vec::new();
    let mut index: usize = 0;
    while index < search.matches.len()
        invariant
            index <= search.matches.len(),
            res.len() == index,
            forall|i: int|
                0 <= i < search.matches.len() ==> (#[trigger] search.matches@[i]).end.row
                    < usize::MAX,
            forall|i: int|
                0 <= i < res.len() ==> shows_match(
                    #[trigger] res@[i],
                    search.matches@,
                    search.active,
                    columns as int,
                    i,
                ),
        decreases search.matches.len() - index,
    {
        let range = search.matches[index];
        let mut spans: Vec<CellSpan> = Vec::new();
        push_range_spans(&mut spans, range, columns, range.start.row, range.end.row + 1);
        let active = match search.active {
            Some(place) => place == index,
            None => false,
        };
        assert(spans@ =~= range_spans(
            range,
            columns as int,
            range.start.row as int,
            range.end.row + 1,
        ));
        res.push(MatchHighlight { spans, active });
        index = index + 1;
    }
    res
}

/// Which rows of the text have to be laid out anew.
#[derive(Clone, Debug, Eq, PartialEq)]
pub enum RebuildPlan {
    All,
    Rows(Vec<usize>),
    Nothing,
}

/// Whether some region lies in `row`.
pub open spec fn row_damaged(regions: Seq<DamageRegion>, row: int) -> bool {
    exists|i: int| 0 <= i < regions.len() && (#[trigger] regions[i]).row == row
}

fn is_row_damaged(regions: &Vec<DamageRegion>, row: usize) -> (res: bool)
    ensures
        res == row_damaged(regions@, row as int),
{
    let mut i: usize = 0;
    while i < regions.len()
        invariant
            i <= regions.len(),
            forall|j: int| 0 <= j < i ==> (#[trigger] regions@[j]).row != row,
        decreases regions.len() - i,
    {
        if regions[i].row == row {
            return true;
        }
        i = i + 1;
    }
    false
}

/// Whether `rows` are the damaged rows among the first `count`, each once and from top to bottom.
pub open spec fn damaged_rows(rows: Seq<usize>, regions: Seq<DamageRegion>, count: int) -> bool {
    &&& forall|i: int, j: int| 0 <= i < j < rows.len() ==> rows[i] < rows[j]
    &&& forall|i: int|
        0 <= i < rows.len() ==> (#[trigger] rows[i]) < count && row_damaged(
            regions,
            rows[i] as int,
        )
    &&& forall|row: usize|
        row < count && #[trigger] row_damaged(regions, row as int) ==> rows.contains(row)
}

/// Decides which rows have to be laid out anew after a frame arrived, where `laid_out` rows are
/// laid out. Another font, a full frame or another number of rows calls for all of them; else the
/// damaged rows will do.
pub fn rebuild_plan(frame: &TerminalFrame, laid_out: usize, font_changed: bool) -> (res: RebuildPlan)
    ensures
        match res {
            RebuildPlan::All => font_changed || frame.damage is Full || (frame.damage is Partial
                && laid_out != frame.size.lines),
            RebuildPlan::Rows(rows) => !font_changed && laid_out == frame.size.lines && (
            frame.damage matches FrameDamage::Partial(regions) && damaged_rows(
                rows@,
                regions@,
                laid_out as int,
            )),
            RebuildPlan::Nothing => !font_changed && frame.damage is Unchanged,
        },
{
    if font_changed {
        return RebuildPlan::All;
    }
    match &frame.damage {
        FrameDamage::Full => RebuildPlan::All,
        FrameDamage::Unchanged => RebuildPlan::Nothing,
        FrameDamage::Partial(regions) => {
            if laid_out != frame.size.lines {
                return RebuildPlan::All;
            }
            let mut rows: Vec<usize> = Vec::new();
            let mut row: usize = 0;
            while row < laid_out
                invariant
                    row <= laid_out,
                    damaged_rows(rows@, regions@, row as int),
                decreases laid_out - row,
            {
                let ghost before = rows@;
                if is_row_damaged(regions, row) {
                    rows.push(row);
                    assert(rows@[rows@.len() - 1] == row);
                }
                proof {
                    assert forall|other: usize|
                        other < row + 1 && #[trigger] row_damaged(
                            regions@,
                            other as int,
                        ) implies rows@.contains(other) by {
                        if other < row {
                            let k = choose|k: int| 0 <= k < before.len() && before[k] == other;
                            assert(rows@[k] == other);
                        }
                    }
                }
                row = row + 1;
            }
            RebuildPlan::Rows(rows)
        },
    }
}

/// What the layout of text depends on besides the text.
#[derive(Clone, Debug, Eq, PartialEq)]
pub struct FontSettings {
    pub family: String,
    pub size: Measure,
    pub line_height: Measure,
}

/// Reports whether text has to be laid out anew because of the font.
pub fn font_changed(before: &FontSettings, after: &FontSettings) -> (res: bool)
    ensures
        res == (before.family@ != after.family@ || before.size != after.size || before.line_height
            != after.line_height),
{
    !same_text(before.family.as_str(), after.family.as_str()) || before.size != after.size
        || before.line_height != after.line_height
}

/// Whether one of `spans` covers the cell at `point`.
pub open spec fn spans_cover(spans: Seq<CellSpan>, point: CellPoint) -> bool {
    exists|i: int|
        0 <= i < spans.len() && (#[trigger] spans[i]).row == point.row && spans[i].start_column
            <= point.column < spans[i].end_column
}

proof fn lemma_spans_cover(range: CellRange, columns: int, end: int, point: CellPoint)
    requires
        range.start.column < columns <= usize::MAX,
        range.end.column < columns,
        point.column < columns,
        end <= usize::MAX + 1,
    ensures
        spans_cover(range_spans(range, columns, 0, end), point) <==> point.row < end
            && within_range(range, point),
        forall|i: int|
            0 <= i < range_spans(range, columns, 0, end).len() ==> (#[trigger] range_spans(
                range,
                columns,
                0,
                end,
            )[i]).row < end,
    decreases end,
{
    if end > 0 {
        let row = end - 1;
        let before = range_spans(range, columns, 0, row);
        let all = range_spans(range, columns, 0, end);
        lemma_spans_cover(range, columns, row, point);
        law_highlight_covers_the_range(range, point, columns);
        if spans_cover(before, point) {
            let i = choose|i: int|
                0 <= i < before.len() && (#[trigger] before[i]).row == point.row
                    && before[i].start_column <= point.column < before[i].end_column;
            assert(all[i] == before[i]);
        }
        if highlighted_columns(range, row, columns) is Some {
            let last = all[before.len() as int];
            if spans_cover(all, point) && !spans_cover(before, point) {
                let i = choose|i: int|
                    0 <= i < all.len() && (#[trigger] all[i]).row == point.row
                        && all[i].start_column <= point.column < all[i].end_column;
                if i < before.len() {
                    assert(before[i] == all[i]);
                }
                assert(i == before.len());
                assert(last.row == row);
            }
            if point.row == row && within_range(range, point) {
                assert(last.row == point.row);
            }
        }
        assert forall|i: int| 0 <= i < all.len() implies (#[trigger] all[i]).row < end by {
            if i < before.len() {
                assert(all[i] == before[i]);
            }
        }
    }
}

/// A selection that starts and ends on the screen highlights exactly the cells that it covers.
pub proof fn law_selection_highlights_its_cells(
    range: CellRange,
    columns: int,
    lines: int,
    point: CellPoint,
)
    requires
        range.start.column < columns <= usize::MAX,
        range.end.column < columns,
        point.column < columns,
        point.row < lines <= usize::MAX,
    ensures
        spans_cover(range_spans(range, columns, 0, lines), point) <==> within_range(range, point),
{
    lemma_spans_cover(range, columns, lines, point);
}

/// A run paints the columns from its first to the one before its end, on its row and in its color.
pub proof fn law_runs_paint_their_columns(run: BackgroundRun, column: int)
    requires
        run.start_column <= column < run.end_column,
    ensures
        run_cells(run).len() == run.end_column - run.start_column,
        ({
            let cell = run_cells(run)[column - run.start_column];
            cell.row == run.row && cell.column == column && cell.color == run.color
        }),
{
}

/// Every cell is painted in the color that is behind its text: where the runs paint the backgrounds
/// of a frame, some run on the row of the cell covers its column and has its background color.
pub proof fn law_cells_are_painted_in_their_background(
    runs: Seq<BackgroundRun>,
    cells: Seq<RenderCellView>,
    i: int,
) -> (k: int)
    requires
        painted(runs) == backgrounds(cells),
        merged(runs),
        0 <= i < cells.len(),
    ensures
        0 <= k < runs.len(),
        runs[k].row == cells[i].row,
        runs[k].start_column <= cells[i].column < runs[k].end_column,
        runs[k].color == cells[i].background,
{
    let place = PaintedCell {
        row: cells[i].row as int,
        column: cells[i].column as int,
        color: cells[i].background,
    };
    assert(backgrounds(cells)[i] == place);
    lemma_painted_by(runs, i)
}

proof fn lemma_painted_by(runs: Seq<BackgroundRun>, i: int) -> (k: int)
    requires
        forall|j: int|
            0 <= j < runs.len() ==> (#[trigger] runs[j]).start_column < runs[j].end_column,
        0 <= i < painted(runs).len(),
    ensures
        0 <= k < runs.len(),
        painted(runs)[i].row == runs[k].row,
        runs[k].start_column <= painted(runs)[i].column < runs[k].end_column,
        painted(runs)[i].color == runs[k].color,
    decreases runs.len(),
{
    let shorter = runs.drop_last();
    assert forall|j: int| 0 <= j < shorter.len() implies (#[trigger] shorter[j]).start_column
        < shorter[j].end_column by {
        assert(shorter[j] == runs[j]);
    }
    if i < painted(shorter).len() {
        let k = lemma_painted_by(shorter, i);
        assert(runs[k] == shorter[k]);
        k
    } else {
        let run = runs[runs.len() - 1];
        assert(painted(runs)[i] == run_cells(run)[i - painted(shorter).len()]);
        runs.len() - 1
    }
}

/// Nothing is painted where there is no cell: where the runs paint the backgrounds of a frame, each
/// column of a run is that of a cell with the color of the run behind it.
pub proof fn law_nothing_else_is_painted(
    runs: Seq<BackgroundRun>,
    cells: Seq<RenderCellView>,
    k: int,
    column: int,
) -> (i: int)
    requires
        painted(runs) == backgrounds(cells),
        0 <= k < runs.len(),
        runs[k].start_column <= column < runs[k].end_column,
    ensures
        0 <= i < cells.len(),
        cells[i].row == runs[k].row,
        cells[i].column == column,
        cells[i].background == runs[k].color,
{
    let i = lemma_paints(runs, k, column);
    assert(backgrounds(cells)[i] == painted(runs)[i]);
    i
}

proof fn lemma_paints(runs: Seq<BackgroundRun>, k: int, column: int) -> (i: int)
    requires
        0 <= k < runs.len(),
        runs[k].start_column <= column < runs[k].end_column,
    ensures
        0 <= i < painted(runs).len(),
        painted(runs)[i] == (PaintedCell {
            row: runs[k].row as int,
            column,
            color: runs[k].color,
        }),
    decreases runs.len(),
{
    let shorter = runs.drop_last();
    if k < shorter.len() {
        let i = lemma_paints(shorter, k, column);
        assert(painted(runs)[i] == painted(shorter)[i]);
        i
    } else {
        let run = runs.last();
        law_runs_paint_their_columns(run, column);
        let i = painted(shorter).len() + (column - run.start_column);
        assert(painted(runs)[i] == run_cells(run)[column - run.start_column]);
        i
    }
}

/// Whatever a range is, what it highlights of a row lies on the screen and is not empty. A row above
/// or below the range is not highlighted, and a row between its ends from edge to edge.
pub proof fn law_highlights_stay_on_the_screen(range: CellRange, row: int, columns: int)
    requires
        columns > 0,
    ensures
        highlighted_columns(range, row, columns) matches Some((start, end)) ==> 0 <= start < end
            <= columns,
        row < range.start.row && row < range.end.row ==> highlighted_columns(
            range,
            row,
            columns,
        ) is None,
        row > range.start.row && row > range.end.row ==> highlighted_columns(
            range,
            row,
            columns,
        ) is None,
        range.start.row < row < range.end.row || range.end.row < row < range.start.row
            ==> highlighted_columns(range, row, columns) == Some((0int, columns)),
{
}

/// The highlight of a match covers its cells: a match within one row highlights, on that row, the
/// columns from its first to its last and no other. It is marked as active if and only if it is the
/// active one.
pub proof fn law_match_highlight_covers_the_match(
    highlight: MatchHighlight,
    matches: Seq<CellRange>,
    active: Option<usize>,
    columns: int,
    index: int,
)
    requires
        shows_match(highlight, matches, active, columns, index),
        0 <= index < matches.len(),
        matches[index].start.row == matches[index].end.row,
        matches[index].start.column <= matches[index].end.column < columns <= usize::MAX,
    ensures
        highlight.spans@.len() == 1,
        highlight.spans@[0].row == matches[index].start.row,
        highlight.spans@[0].start_column == matches[index].start.column,
        highlight.spans@[0].end_column == matches[index].end.column + 1,
        highlight.active <==> active == Some(index as usize) && index <= usize::MAX,
{
    let range = matches[index];
    let row = range.start.row as int;
    reveal_with_fuel(range_spans, 2);
    assert(range_spans(range, columns, row, row) =~= Seq::empty());
}

/// The rows that are laid out anew are those in which something changed: no more, none twice, and
/// none is left out.
pub proof fn law_changed_rows_are_laid_out(
    rows: Seq<usize>,
    regions: Seq<DamageRegion>,
    count: int,
    row: usize,
)
    requires
        damaged_rows(rows, regions, count),
        row < count,
    ensures
        rows.contains(row) <==> exists|i: int|
            0 <= i < regions.len() && (#[trigger] regions[i]).row == row,
{
    if rows.contains(row) {
        let k = choose|k: int| 0 <= k < rows.len() && rows[k] == row;
        assert(row_damaged(regions, rows[k] as int));
    }
    if exists|i: int| 0 <= i < regions.len() && (#[trigger] regions[i]).row == row {
        assert(row_damaged(regions, row as int));
    }
}

} // verus!
